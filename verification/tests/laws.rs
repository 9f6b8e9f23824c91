use vgpu_market::api::{CreateRentalRequest, HeartbeatRequest, RegisterRequest, ReportRequest};
use vgpu_market::bench::kernels::tile_groups;
use vgpu_market::benchmark::{dlperf, GpuInfo};
use vgpu_market::billing::{enforce_budgets, mark_offline, poll_invoices, tick};
use vgpu_market::db::{AccountRow, InvoiceRow, Tables};
use vgpu_market::model::{DiskType, Measure, RentalStatus};
use vgpu_market::routes::agent::{heartbeat, register, report};
use vgpu_market::routes::mix;
use vgpu_market::routes::tenant::{create_rental, delete_rental, get_rental};
use vgpu_market::routes::tenant::{offers, OffersQuery};
use vgpu_market::runtime::{container_name, split_image_tag};
use vgpu_market::state::BillingConfig;

fn host(id: &str, price: i64) -> RegisterRequest {
    RegisterRequest {
        host_id: id.to_string(),
        gpu_name: "GPU".to_string(),
        gpu_count: 1,
        vram_mb: 1,
        cpu_name: "c".to_string(),
        cpu_cores: 1,
        ram_mb: 1,
        disk_gb: 1,
        disk_type: DiskType::Ssd,
        public_ip: "ip".to_string(),
        port_start: 1,
        port_end: 2,
        inet_down_mbps: None,
        inet_up_mbps: None,
        country: None,
        dlperf: Measure { bits: 0 },
        rate_sats_per_min: price,
        hw_fingerprint: "f".to_string(),
    }
}

fn rent(t: &mut Tables, machine_id: i64, account: &str, now: i64) -> Result<i64, u16> {
    let req = CreateRentalRequest {
        machine_id,
        account_id: account.to_string(),
        image: "img".to_string(),
        ssh_pubkey: Some("k".to_string()),
    };
    create_rental(t, &BillingConfig::default(), &req, now)
        .map(|r| r.rental_id)
        .map_err(|e| e.status)
}

fn tell(t: &mut Tables, token: &str, id: i64, status: RentalStatus, now: i64) {
    let req = ReportRequest {
        rental_id: id,
        status,
        kind: None,
        ssh_port: None,
        container_id: None,
        error: None,
    };
    report(t, Some(&format!("Bearer {token}")), &req, now).unwrap();
}

/// Two machines at 60 sats per minute, and two accounts of 100 sats.
fn market() -> Tables {
    let mut t = Tables::new();
    register(&mut t, &host("a", 60), "ta".to_string(), 0).unwrap();
    register(&mut t, &host("b", 60), "tb".to_string(), 0).unwrap();
    for id in ["x", "y"] {
        t.accounts.push(AccountRow {
            id: id.to_string(),
            balance_sats: 0,
            created_at: 0,
        });
        t.invoices.push(InvoiceRow {
            payment_hash: format!("h{id}"),
            account_id: id.to_string(),
            sats: 100,
            bolt11: String::new(),
            settled: false,
            created_at: 0,
        });
    }
    poll_invoices(&mut t, &vec!["hx".to_string(), "hy".to_string()], 0).unwrap();
    t
}

fn custody(t: &Tables) -> i64 {
    t.accounts.iter().map(|a| a.balance_sats).sum::<i64>()
        + t.machines.iter().map(|m| m.payout_balance).sum::<i64>()
}

#[test]
fn the_ledger_grows_and_tracks_custody_at_every_step() {
    let mut t = market();
    let check = |t: &Tables, earlier: &Tables| {
        assert_eq!(t.ledger[..earlier.ledger.len()], earlier.ledger[..]);
        assert_eq!(t.ledger.iter().map(|l| l.delta_sats).sum::<i64>(), custody(t));
    };
    let s = t.clone();
    let a = rent(&mut t, 1, "x", 10).unwrap();
    check(&t, &s);
    tell(&mut t, "ta", a, RentalStatus::Running, 11);
    check(&t, &s);
    let s = t.clone();
    heartbeat(&mut t, Some("Bearer ta"), &HeartbeatRequest { online: true }, 200).unwrap();
    enforce_budgets(&mut t, &BillingConfig::default(), 200).unwrap();
    check(&t, &s);
    assert_eq!(t.accounts, s.accounts, "evictions move no money");
    assert_eq!(t.rentals[0].status, RentalStatus::Evicting);
    let s = t.clone();
    tell(&mut t, "ta", a, RentalStatus::Stopped, 201);
    check(&t, &s);
    assert_eq!(t.accounts[0].balance_sats, 0);
    assert_eq!(t.machines[0].payout_balance, 100);
}

#[test]
fn a_machine_is_rented_once_at_a_time() {
    let mut t = market();
    let a = rent(&mut t, 1, "x", 0).unwrap();
    assert_eq!(rent(&mut t, 1, "y", 0), Err(409));
    assert!(rent(&mut t, 2, "y", 0).is_ok());
    delete_rental(&mut t, a, 0).unwrap();
    assert_eq!(rent(&mut t, 1, "y", 0), Err(409), "still being evicted");
    tell(&mut t, "ta", a, RentalStatus::Stopped, 0);
    assert!(rent(&mut t, 1, "y", 0).is_ok());
}

#[test]
fn what_is_shown_does_not_depend_on_the_key() {
    let mut t = market();
    let a = rent(&mut t, 1, "x", 0).unwrap();
    let before = get_rental(&t, a).unwrap();
    t.rentals[0].ssh_pubkey = "another".to_string();
    assert_eq!(get_rental(&t, a).unwrap(), before);
}

#[test]
fn a_tick_is_a_poll_a_marking_and_a_budget_pass() {
    let mut t = market();
    let a = rent(&mut t, 1, "x", 0).unwrap();
    tell(&mut t, "ta", a, RentalStatus::Running, 0);
    let cfg = BillingConfig::default();
    let mut u = t.clone();
    tick(&mut t, &cfg, &vec![], 95).unwrap();
    poll_invoices(&mut u, &vec![], 95).unwrap();
    mark_offline(&mut u, &cfg, 95);
    enforce_budgets(&mut u, &cfg, 95).unwrap();
    assert_eq!(t, u);
    assert!(!t.machines[0].online);
    assert_eq!(t.rentals[0].status, RentalStatus::Running);
}

#[test]
fn a_beating_host_stays_online() {
    let mut t = market();
    let cfg = BillingConfig::default();
    heartbeat(&mut t, Some("Bearer ta"), &HeartbeatRequest { online: true }, 1000).unwrap();
    mark_offline(&mut t, &cfg, 1090);
    assert!(t.machines[0].online);
    assert!(!t.machines[1].online);
}

#[test]
fn marking_twice_changes_nothing_more() {
    let mut t = market();
    let cfg = BillingConfig::default();
    heartbeat(&mut t, Some("Bearer ta"), &HeartbeatRequest { online: true }, 1000).unwrap();
    mark_offline(&mut t, &cfg, 1091);
    assert!(!t.machines[0].online);
    let machines = t.machines.clone();
    mark_offline(&mut t, &cfg, 1091);
    assert_eq!(t.machines, machines);
}

#[test]
fn a_new_machine_is_listed_at_once() {
    let mut t = market();
    register(&mut t, &host("c", 1), "tc".to_string(), 0).unwrap();
    let q = OffersQuery {
        gpu_name: Some("gpu".to_string()),
        min_vram_mb: Some(1),
        min_gpu_count: Some(1),
        max_rate_sats_per_min: Some(1),
        sort: None,
        limit: None,
    };
    let list = offers(&t, &vec![Measure { bits: 0 }; t.machines.len()], &q).offers;
    assert_eq!(list.len(), 1);
    assert_eq!(list[0].machine_id, 3);
}

#[test]
fn ids_of_one_moment_are_distinct() {
    let mut seen: Vec<u64> = (0..1000).map(|n| mix(77, n)).collect();
    seen.sort();
    seen.dedup();
    assert_eq!(seen.len(), 1000);
}

#[test]
fn images_join_again() {
    for image in ["a", "a:b", "r:1/a", "r:1/a:b", "a:b:c"] {
        let (repo, tag) = split_image_tag(image);
        assert!(
            format!("{repo}:{tag}") == image || (repo == image && tag == "latest"),
            "{image}"
        );
    }
}

#[test]
fn container_names_are_distinct() {
    assert_ne!(container_name(1), container_name(-1));
    assert_ne!(container_name(1), container_name(11));
}

#[test]
fn tiles_cover_every_matrix() {
    for n in [1u32, 15, 16, 17, 1000, u32::MAX] {
        let g = tile_groups(n) as u64;
        assert!(g * 16 >= n as u64);
        assert!((g - 1) * 16 < n as u64);
    }
}

#[test]
fn scores_of_two_hosts_add_up() {
    let g = |name: &str| GpuInfo {
        name: name.to_string(),
        uuid: String::new(),
        pci_bus_id: String::new(),
        vram_mb: 0,
    };
    let a = vec![g("H100"), g("T4")];
    let b = vec![g("odd")];
    let both: Vec<GpuInfo> = a.iter().chain(b.iter()).cloned().collect();
    assert_eq!(dlperf(&both), dlperf(&a) + dlperf(&b));
}
