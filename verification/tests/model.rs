use vgpu_market::model::{is_http_status_image, DiskType, Measure, RentalKind, RentalStatus};

#[test]
fn occupied_states_match_spec() {
    assert!(RentalStatus::Provisioning.occupies_machine());
    assert!(RentalStatus::Running.occupies_machine());
    assert!(RentalStatus::Evicting.occupies_machine());
    assert!(!RentalStatus::Stopped.occupies_machine());
    assert!(!RentalStatus::Failed.occupies_machine());
}

#[test]
fn terminal_states_are_the_unoccupied_ones() {
    for s in RentalStatus::ALL {
        assert_eq!(s.is_terminal(), !s.occupies_machine());
    }
}

#[test]
fn statuses_have_lower_case_names() {
    let names: Vec<&str> = RentalStatus::ALL.iter().map(|s| s.as_str()).collect();
    assert_eq!(
        names,
        vec!["provisioning", "running", "evicting", "stopped", "failed"]
    );
}

#[test]
fn defaults_of_kind_and_disk() {
    assert_eq!(RentalKind::default(), RentalKind::Ssh);
    assert_eq!(DiskType::default(), DiskType::Unknown);
}

#[test]
fn only_metal_images_are_status_images() {
    assert!(is_http_status_image("metal:gemm"));
    assert!(is_http_status_image("metal:"));
    assert!(!is_http_status_image("Metal:gemm"));
    assert!(!is_http_status_image("nvidia/cuda"));
    assert!(!is_http_status_image(""));
}

#[test]
fn readings_are_ordered_as_numbers_are() {
    let numbers = [
        f64::NEG_INFINITY,
        -300.5,
        -1.0,
        -f64::MIN_POSITIVE,
        -0.0,
        0.0,
        f64::MIN_POSITIVE,
        0.01,
        18.0,
        42.0,
        f64::MAX,
        f64::INFINITY,
    ];
    for x in numbers {
        for y in numbers {
            let a = Measure { bits: x.to_bits() }.key();
            let b = Measure { bits: y.to_bits() }.key();
            assert_eq!(a < b, x < y, "{x} and {y}");
            assert_eq!(a == b, x == y, "{x} and {y}");
        }
    }
}
