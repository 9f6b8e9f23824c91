use vgpu_market::lightning::lnd::LndRest;
use vgpu_market::lightning::mock::MockBackend;
use vgpu_market::lightning::{select_backend, BackendName};
use vgpu_market::money::Sats;

#[test]
fn mock_invoices_settle_after_the_delay() {
    let mut m = MockBackend::new(5);
    let a = m.create_invoice(Sats(21), "memo", 100);
    assert_eq!(a.bolt11, "lnbcmock21n1");
    assert_eq!(a.payment_hash, format!("{:064x}", 1));
    let b = m.create_invoice(Sats(-3), "memo", 101);
    assert_eq!(b.bolt11, "lnbcmock-3n2");
    assert!(!m.is_settled(&a.payment_hash, 104));
    assert!(m.is_settled(&a.payment_hash, 105));
    assert!(!m.is_settled(&b.payment_hash, 105));
    assert!(!m.is_settled("ff", 1_000));
    assert!(m.pay_invoice("x").is_ok());
}

#[test]
fn a_series_of_invoices_settles_one_by_one() {
    let mut m = MockBackend::new(10);
    let times = [0u64, 4, 4, 20];
    let hashes: Vec<String> = times
        .iter()
        .map(|t| m.create_invoice(Sats(1), "", *t).payment_hash)
        .collect();
    for now in 0..40 {
        for (hash, t) in hashes.iter().zip(times) {
            assert_eq!(m.is_settled(hash, now), now >= t + 10);
        }
        assert!(!m.is_settled(&format!("{:064x}", 5), now));
        assert!(!m.is_settled(&format!("{:064x}", 0), now));
    }
    m.create_invoice(Sats(1), "", 100);
    assert!(m.is_settled(&hashes[0], 10));
    let mut at_once = MockBackend::new(0);
    let hash = at_once.create_invoice(Sats(1), "", 7).payment_hash;
    assert!(at_once.is_settled(&hash, 7));
}

#[test]
fn lnd_is_not_there_yet() {
    let text = "the lnd backend is not implemented yet; set LN_BACKEND=mock";
    assert_eq!(LndRest::new().unwrap_err(), text);
    assert_eq!(LndRest.create_invoice(Sats(1), "").unwrap_err(), text);
    assert_eq!(LndRest.is_settled("").unwrap_err(), text);
    assert_eq!(LndRest.pay_invoice("").unwrap_err(), text);
}

#[test]
fn backends_are_chosen_by_name() {
    assert_eq!(select_backend("mock"), Ok(BackendName::Mock));
    assert_eq!(select_backend("lnd"), Ok(BackendName::Lnd));
    assert_eq!(select_backend("cln").unwrap_err(), "unknown LN_BACKEND: cln");
}
