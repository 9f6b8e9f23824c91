use vgpu_market::money::Sats;

#[test]
fn arithmetic() {
    assert_eq!(Sats(3) + Sats(4), Sats(7));
    assert_eq!(Sats(10) - Sats(4), Sats(6));
    assert_eq!(-Sats(5), Sats(-5));

    let mut b = Sats(100);
    b.sub_assign(Sats(60));
    b.add_assign(Sats(10));
    assert_eq!(b, Sats(50));
}

#[test]
fn rate_times_minutes() {
    // 6 sats/min for 60 minutes = 360 sats/hr.
    assert_eq!(Sats(6) * 60, Sats(360));
}

#[test]
fn sum_reconciles_to_zero() {
    let ledger = [Sats(-6), Sats(6), Sats(-6), Sats(6)];
    assert_eq!(Sats::sum(&ledger), Sats::zero());
}

#[test]
fn display_is_bare_integer() {
    assert_eq!(Sats(360).to_text(), "360");
    assert_eq!(Sats(-6).to_text(), "-6");
}

#[test]
fn display_covers_the_whole_range() {
    assert_eq!(Sats(0).to_text(), "0");
    assert_eq!(Sats(i64::MAX).to_text(), i64::MAX.to_string());
    assert_eq!(Sats(i64::MIN).to_text(), i64::MIN.to_string());
}

#[test]
fn amounts_are_read_and_tested() {
    assert_eq!(Sats::new(42).get(), 42);
    assert!(Sats::default().is_zero());
    assert!(!Sats::new(1).is_zero());
    assert_eq!(Sats::sum(&[]), Sats(0));
}
