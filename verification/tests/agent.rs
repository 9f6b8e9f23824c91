use vgpu_market::agent::{
    check_settings, collect_host_specs, dispatch, heartbeat_too_slow, register_request,
    start_report, stop_report, Action, DiskSeen, HostSettings,
};
use vgpu_market::api::Command;
use vgpu_market::benchmark::{probe, GpuInfo};
use vgpu_market::model::{DiskType, Measure, RentalKind, RentalStatus};
use vgpu_market::runtime::{RentalSpec, Started};

#[test]
fn commands_become_actions() {
    assert_eq!(
        dispatch(Command::StartRental {
            rental_id: 1,
            image: "i".to_string(),
            ssh_pubkey: "k".to_string()
        }),
        Action::Start(RentalSpec {
            rental_id: 1,
            image: "i".to_string(),
            ssh_pubkey: "k".to_string()
        })
    );
    assert_eq!(dispatch(Command::StopRental { rental_id: 7 }), Action::Stop(7));
}

#[test]
fn outcomes_become_reports() {
    let up = start_report(
        1,
        Ok(Started {
            container_id: "c".to_string(),
            ssh_port: 40000,
            kind: RentalKind::HttpOpenai,
        }),
    );
    assert_eq!(up.status, RentalStatus::Running);
    assert_eq!(up.kind, Some(RentalKind::HttpOpenai));
    assert_eq!(up.ssh_port, Some(40000));
    assert_eq!(up.container_id.as_deref(), Some("c"));
    let down = start_report(1, Err("image pull failed".to_string()));
    assert_eq!(down.status, RentalStatus::Failed);
    assert_eq!(down.error.as_deref(), Some("image pull failed"));
    assert_eq!(down.ssh_port, None);
    assert_eq!(stop_report(2, Ok(())).status, RentalStatus::Stopped);
    let bad = stop_report(2, Err("x".to_string()));
    assert_eq!(bad.status, RentalStatus::Failed);
    assert_eq!(bad.error.as_deref(), Some("x"));
}

#[test]
fn the_largest_disk_is_the_scratch_volume() {
    let disks = vec![
        DiskSeen { total_space: 5_000_000_000, medium: DiskType::Hdd },
        DiskSeen { total_space: 9_999_999_999, medium: DiskType::Hdd },
        DiskSeen { total_space: 9_999_999_999, medium: DiskType::Ssd },
    ];
    let s = collect_host_specs(Some("  AMD Ryzen ".to_string()), 16, 67_108_864_000, &disks);
    assert_eq!(s.cpu_name, "AMD Ryzen");
    assert_eq!(s.cpu_cores, 16);
    assert_eq!(s.ram_mb, 64000);
    assert_eq!(s.disk_gb, 9);
    assert_eq!(s.disk_type, DiskType::Ssd);
    let none = collect_host_specs(Some(" ".to_string()), 0, 0, &vec![]);
    assert_eq!(none.cpu_name, "unknown");
    assert_eq!(none.disk_gb, 0);
    assert_eq!(none.disk_type, DiskType::Unknown);
}

#[test]
fn settings_are_checked_and_registered() {
    let mut set = HostSettings {
        public_ip: "1.2.3.4".to_string(),
        rate_sats_per_min: 6,
        port_start: 1,
        port_end: 2,
        heartbeat_secs: 30,
        country: Some("DE".to_string()),
        inet_down_mbps: None,
        inet_up_mbps: Some(Measure { bits: 9 }),
    };
    assert!(check_settings(&set).is_ok());
    let inv = probe(vec![GpuInfo {
        name: "NVIDIA L4".to_string(),
        uuid: "u".to_string(),
        pci_bus_id: "p".to_string(),
        vram_mb: 23034,
    }])
    .unwrap();
    let specs = collect_host_specs(None, 4, 0, &vec![]);
    let req = register_request("h", &inv, &specs, &set, Measure { bits: 1 });
    assert_eq!(req.host_id, "h");
    assert_eq!(req.gpu_name, "NVIDIA L4");
    assert_eq!(req.gpu_count, 1);
    assert_eq!(req.vram_mb, 23034);
    assert_eq!(req.hw_fingerprint, inv.hw_fingerprint);
    assert_eq!(req.country.as_deref(), Some("DE"));
    set.rate_sats_per_min = 0;
    assert_eq!(check_settings(&set).unwrap_err(), "rate_sats_per_min must be >= 1");
    assert!(heartbeat_too_slow(90));
    assert!(!heartbeat_too_slow(89));
}
