use std::collections::BTreeSet;

use vgpu_market::model::RentalKind;
use vgpu_market::runtime::{
    check_port_range, container_name, free_ports, is_not_found, is_not_modified, pick_free_port,
    plan_container, running_from_labels, split_image_tag, started_container, used_ports,
    FoundContainer, RentalSpec, RunningRental,
};

#[test]
fn picks_lowest_free_port() {
    let used = BTreeSet::from([40000, 40001, 40003]);
    assert_eq!(pick_free_port(40000, 40010, &used), Some(40002));
}

#[test]
fn exhausted_range_returns_none() {
    let used = BTreeSet::from([40000, 40001]);
    assert_eq!(pick_free_port(40000, 40001, &used), None);
}

#[test]
fn port_range_may_reach_the_last_integer() {
    let none: BTreeSet<i32> = BTreeSet::new();
    assert_eq!(pick_free_port(i32::MAX, i32::MAX, &none), Some(i32::MAX));
    assert_eq!(pick_free_port(5, 4, &none), None);
    assert_eq!(free_ports(i32::MAX - 1, i32::MAX, &none), vec![i32::MAX - 1, i32::MAX]);
    assert_eq!(free_ports(5, 4, &none), Vec::<i32>::new());
}

#[test]
fn free_ports_skip_the_used_ones() {
    let used = BTreeSet::from([40001]);
    assert_eq!(free_ports(40000, 40003, &used), vec![40000, 40002, 40003]);
}

#[test]
fn image_tag_defaults_to_latest() {
    assert_eq!(
        split_image_tag("nvidia/cuda"),
        ("nvidia/cuda".to_string(), "latest".to_string())
    );
}

#[test]
fn image_tag_is_parsed() {
    assert_eq!(
        split_image_tag("pytorch/pytorch:2.3.0-cuda12.1"),
        ("pytorch/pytorch".to_string(), "2.3.0-cuda12.1".to_string())
    );
}

#[test]
fn registry_port_is_not_mistaken_for_tag() {
    assert_eq!(
        split_image_tag("registry.local:5000/team/img"),
        (
            "registry.local:5000/team/img".to_string(),
            "latest".to_string()
        )
    );
}

#[test]
fn registry_port_and_tag_together() {
    assert_eq!(
        split_image_tag("registry.local:5000/team/img:v1"),
        ("registry.local:5000/team/img".to_string(), "v1".to_string())
    );
    assert_eq!(split_image_tag("img:"), ("img".to_string(), "".to_string()));
}

#[test]
fn container_name_is_stable() {
    assert_eq!(container_name(42), "vgpu-rental-42");
}

fn spec(id: i64) -> RentalSpec {
    RentalSpec {
        rental_id: id,
        image: "nvidia/cuda:12".to_string(),
        ssh_pubkey: "ssh-ed25519 AAAA".to_string(),
    }
}

fn running(id: i64, port: i32) -> RunningRental {
    RunningRental {
        rental_id: id,
        container_id: format!("c{id}"),
        ssh_port: port,
    }
}

#[test]
fn container_plan_carries_key_labels_and_port() {
    let live = vec![running(1, 40000)];
    let plan = plan_container(40000, 40010, &live, &spec(7)).unwrap();
    assert_eq!(plan.name, "vgpu-rental-7");
    assert_eq!(plan.image, "nvidia/cuda:12");
    assert_eq!(
        plan.env,
        vec!["PUBLIC_KEY=ssh-ed25519 AAAA", "SSH_PUBLIC_KEY=ssh-ed25519 AAAA"]
    );
    assert_eq!(
        plan.labels,
        vec![
            ("io.vgpu.rental_id".to_string(), "7".to_string()),
            ("io.vgpu.ssh_port".to_string(), "40001".to_string())
        ]
    );
    assert_eq!(plan.container_port, "22/tcp");
    assert_eq!(plan.host_ip, "0.0.0.0");
    assert_eq!(plan.host_port, "40001");
    assert_eq!(plan.gpu_count, -1);
    assert_eq!(plan.gpu_capability, "gpu");
    let s = started_container(&plan, "deadbeef".to_string());
    assert_eq!(s.container_id, "deadbeef");
    assert_eq!(s.ssh_port, 40001);
    assert_eq!(s.kind, RentalKind::Ssh);
}

#[test]
fn container_plan_needs_a_free_port() {
    let live = vec![running(1, 40000)];
    assert_eq!(
        plan_container(40000, 40000, &live, &spec(7)).unwrap_err(),
        "no free SSH port in 40000..=40000"
    );
}

#[test]
fn labels_lead_back_to_the_rental() {
    let plan = plan_container(40000, 40010, &vec![], &spec(-9)).unwrap();
    let found = vec![
        FoundContainer {
            id: Some("abc".to_string()),
            rental_label: Some(plan.labels[0].1.clone()),
            port_label: Some(plan.labels[1].1.clone()),
        },
        FoundContainer {
            id: Some("x".to_string()),
            rental_label: Some("seven".to_string()),
            port_label: Some("40002".to_string()),
        },
        FoundContainer {
            id: None,
            rental_label: None,
            port_label: Some("40003".to_string()),
        },
        FoundContainer {
            id: None,
            rental_label: Some("+12".to_string()),
            port_label: Some("40004".to_string()),
        },
        FoundContainer {
            id: None,
            rental_label: Some("12".to_string()),
            port_label: Some("2147483648".to_string()),
        },
    ];
    let r = running_from_labels(&found);
    assert_eq!(r.len(), 2);
    assert_eq!(r[0].rental_id, -9);
    assert_eq!(r[0].container_id, "abc");
    assert_eq!(r[0].ssh_port, 40000);
    assert_eq!(r[1].rental_id, 12);
    assert_eq!(r[1].container_id, "");
    assert_eq!(used_ports(&r), BTreeSet::from([40000, 40004]));
}

#[test]
fn answers_of_the_container_engine() {
    assert!(is_not_found(404));
    assert!(!is_not_found(409));
    assert!(is_not_modified(304));
    assert!(!is_not_modified(404));
}

#[test]
fn backward_port_range_is_refused() {
    assert!(check_port_range(40000, 40000).is_ok());
    assert_eq!(
        check_port_range(5, -1).unwrap_err(),
        "port_start (5) must be <= port_end (-1)"
    );
}
