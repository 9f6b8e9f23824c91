use std::sync::{Arc, Mutex};

use vgpu_market::api::{
    Command, CreateRentalRequest, DepositRequest, HeartbeatRequest, RateRequest, RegisterRequest,
    ReportRequest,
};
use vgpu_market::billing::{
    accrued_charge, enforce_budgets, mark_offline, pending_invoices, poll_invoices, tick,
};
use vgpu_market::db::{record, record_charge, Tables};
use vgpu_market::lightning::mock::MockBackend;
use vgpu_market::model::{DiskType, LedgerKind, Measure, RentalKind, RentalStatus};
use vgpu_market::money::Sats;
use vgpu_market::routes::agent::{
    heartbeat, payout, payout_due, rate, register, report, reports_less_hardware,
};
use vgpu_market::routes::tenant::{
    create_account, create_rental, delete_rental, deposit, deposit_memo, get_account, get_rental,
    health, name_matches, occupying_in_list, offers, rates_fit, select_offers, OfferOrder,
    OffersQuery,
};
use vgpu_market::routes::ranking::rank;
use vgpu_market::routes::{authenticate, mix, tag_id, IdSource};
use vgpu_market::state::{low_bits, timestamp, BillingConfig, Clock};

const PERIOD: u64 = 60;

fn billing() -> BillingConfig {
    BillingConfig {
        bill_period: PERIOD,
        tick: 1,
        heartbeat_timeout: 90,
    }
}

fn host(rate: i64) -> RegisterRequest {
    RegisterRequest {
        host_id: "host-1".to_string(),
        gpu_name: "NVIDIA GeForce RTX 4090".to_string(),
        gpu_count: 1,
        vram_mb: 24564,
        cpu_name: "AMD Ryzen 9".to_string(),
        cpu_cores: 16,
        ram_mb: 64000,
        disk_gb: 1000,
        disk_type: DiskType::Nvme,
        public_ip: "203.0.113.5".to_string(),
        port_start: 40000,
        port_end: 40099,
        inet_down_mbps: None,
        inet_up_mbps: None,
        country: None,
        dlperf: Measure {
            bits: 42.0f64.to_bits(),
        },
        rate_sats_per_min: rate,
        hw_fingerprint: "fp-abc".to_string(),
    }
}

fn any() -> OffersQuery {
    OffersQuery {
        gpu_name: None,
        min_vram_mb: None,
        min_gpu_count: None,
        max_rate_sats_per_min: None,
        sort: None,
        limit: None,
    }
}

/// Price per unit of performance, machine by machine.
fn values(t: &Tables) -> Vec<Measure> {
    t.machines
        .iter()
        .map(|m| Measure {
            bits: (m.rate_sats_per_min as f64 / f64::from_bits(m.dlperf.bits).max(0.01)).to_bits(),
        })
        .collect()
}

fn listed(t: &Tables) -> usize {
    assert!(rates_fit(t, &select_offers(t, &values(t), &any())));
    offers(t, &values(t), &any()).offers.len()
}

fn bearer(token: &str) -> String {
    format!("Bearer {token}")
}

fn beat(t: &mut Tables, token: &str, now: i64) -> Vec<Command> {
    heartbeat(
        t,
        Some(&bearer(token)),
        &HeartbeatRequest { online: true },
        now,
    )
    .unwrap()
    .commands
}

fn outcome(id: i64, status: RentalStatus) -> ReportRequest {
    ReportRequest {
        rental_id: id,
        status,
        kind: None,
        ssh_port: None,
        container_id: None,
        error: None,
    }
}

fn ledger_sum(t: &Tables) -> i64 {
    t.ledger.iter().map(|l| l.delta_sats).sum()
}

/// A market with one machine, and one account that has paid in some sats.
struct Stage {
    t: Tables,
    ln: MockBackend,
    clock: Clock,
    machine_id: i64,
    token: String,
    account_id: String,
}

impl Stage {
    fn new(price: i64, sats: i64) -> Stage {
        let mut t = Tables::new();
        let mut ln = MockBackend::new(0);
        let clock = Clock::manual(1_000_000);
        let now = clock.now().unwrap();
        let mut ids = IdSource::new();
        let reply = register(&mut t, &host(price), ids.new_agent_token(), now).unwrap();
        let account_id = create_account(&mut t, ids.new_account_id(), now)
            .unwrap()
            .account_id;
        let req = DepositRequest { sats };
        let memo = deposit_memo(&t, &account_id, &req).unwrap();
        let invoice = ln.create_invoice(Sats(sats), &memo, 0);
        let d = deposit(&mut t, &account_id, &req, Ok(invoice), now).unwrap();
        assert_eq!(d.sats, sats);
        let mut s = Stage {
            t,
            ln,
            clock,
            machine_id: reply.machine_id,
            token: reply.agent_token,
            account_id,
        };
        s.tick();
        s
    }

    fn now(&self) -> i64 {
        self.clock.now().unwrap()
    }

    fn tick(&mut self) {
        let paid: Vec<String> = pending_invoices(&self.t)
            .into_iter()
            .filter(|h| self.ln.is_settled(h, 0))
            .collect();
        let now = self.now();
        tick(&mut self.t, &billing(), &paid, now).unwrap();
    }

    fn rent(&mut self, image: &str, key: Option<&str>) -> Result<i64, (u16, String)> {
        let req = CreateRentalRequest {
            machine_id: self.machine_id,
            account_id: self.account_id.clone(),
            image: image.to_string(),
            ssh_pubkey: key.map(|k| k.to_string()),
        };
        let now = self.now();
        create_rental(&mut self.t, &billing(), &req, now)
            .map(|r| r.rental_id)
            .map_err(|e| (e.status, e.message))
    }

    fn beat(&mut self) -> Vec<Command> {
        let now = self.now();
        let token = self.token.clone();
        beat(&mut self.t, &token, now)
    }

    fn report(&mut self, req: &ReportRequest) {
        let now = self.now();
        let auth = bearer(&self.token);
        report(&mut self.t, Some(&auth), req, now).unwrap();
    }

    fn start(&mut self, id: i64) {
        let mut req = outcome(id, RentalStatus::Running);
        req.ssh_port = Some(40000);
        req.container_id = Some("deadbeefcafe".to_string());
        self.report(&req);
    }

    fn balance(&self) -> i64 {
        get_account(&self.t, &self.account_id).unwrap().balance_sats
    }
}

#[test]
fn full_lifecycle() {
    const RATE: i64 = 10; // sats/min
    const DEPOSIT: i64 = 30; // exactly three minutes' worth

    let mut s = Stage::new(RATE, DEPOSIT);

    // The offer index lists the host at its price per hour.
    let list = offers(&s.t, &values(&s.t), &any()).offers;
    assert_eq!(list.len(), 1);
    assert_eq!(list[0].machine_id, s.machine_id);
    assert_eq!(list[0].rate_sats_per_hour, RATE * 60);

    // The paid invoice is on the account.
    assert_eq!(s.balance(), DEPOSIT);

    // A rental is not charged for up front.
    let id = s
        .rent(
            "nvidia/cuda:12.4.1-runtime-ubuntu22.04",
            Some("ssh-ed25519 AAAAC3NzaC1lZDI1"),
        )
        .unwrap();
    assert_eq!(s.balance(), DEPOSIT, "nothing billed up front");
    let r = get_rental(&s.t, id).unwrap();
    assert_eq!(r.status, RentalStatus::Provisioning);
    assert_eq!(r.rate_sats_per_min, RATE);
    assert_eq!(r.sats_charged, 0);
    assert_eq!(r.minutes_billed, 0);
    assert_eq!(r.paid_through, 1_000_060);

    // The heartbeat delivers the command once.
    assert_eq!(
        s.beat(),
        vec![Command::StartRental {
            rental_id: id,
            image: "nvidia/cuda:12.4.1-runtime-ubuntu22.04".to_string(),
            ssh_pubkey: "ssh-ed25519 AAAAC3NzaC1lZDI1".to_string(),
        }]
    );
    assert_eq!(s.beat(), vec![]);

    s.start(id);
    let r = get_rental(&s.t, id).unwrap();
    assert_eq!(r.status, RentalStatus::Running);
    assert_eq!(
        r.ssh_command.as_deref(),
        Some("ssh -p 40000 root@203.0.113.5")
    );
    let a = get_account(&s.t, &s.account_id).unwrap();
    assert_eq!(a.burn_sats_per_min, RATE);
    assert_eq!(a.runway_minutes, Some(3));

    // The machine is off the offer index.
    assert_eq!(listed(&s.t), 0);

    // Three minutes pass: accrued (30) == balance (30), so nothing happens.
    s.clock.advance(180);
    assert_eq!(s.beat(), vec![]);
    s.tick();
    assert_eq!(s.balance(), DEPOSIT, "no periodic charge");
    assert_eq!(get_rental(&s.t, id).unwrap().sats_charged, 0);

    // The tenant stops the rental.
    let now = s.now();
    let gone = delete_rental(&mut s.t, id, now).unwrap();
    assert_eq!(gone.status, RentalStatus::Evicting);

    // The single charge lands when the agent reports the end.
    assert_eq!(s.beat(), vec![Command::StopRental { rental_id: id }]);
    s.report(&outcome(id, RentalStatus::Stopped));
    let r = get_rental(&s.t, id).unwrap();
    assert_eq!(r.status, RentalStatus::Stopped);
    assert_eq!(r.sats_charged, DEPOSIT);
    assert_eq!(r.minutes_billed, 3);
    assert_eq!(r.ended_at, Some(1_000_180));
    assert_eq!(s.balance(), 0);
    assert_eq!(listed(&s.t), 1, "machine is idle again");

    // The payout zeroes what is owed.
    let auth = bearer(&s.token);
    let due = payout_due(&s.t, Some(&auth)).unwrap();
    let paid = s.ln.pay_invoice("lnbcmock-host-invoice");
    let now = s.now();
    let reply = payout(&mut s.t, due, paid, now).unwrap();
    assert_eq!(reply.paid_sats, DEPOSIT);
    assert_eq!(s.t.machines[0].payout_balance, 0);

    // The ledger reconciles to zero.
    assert_eq!(ledger_sum(&s.t), 0);
}

#[test]
fn evicts_when_balance_cannot_cover_elapsed() {
    const RATE: i64 = 10; // sats/min
    const DEPOSIT: i64 = 20; // only two minutes' worth

    let mut s = Stage::new(RATE, DEPOSIT);
    let id = s
        .rent(
            "nvidia/cuda:12.4.1-runtime-ubuntu22.04",
            Some("ssh-ed25519 AAAA"),
        )
        .unwrap();
    s.beat();
    s.start(id);

    // Past the funded window: accrued = 3 min × 10 = 30 > balance 20.
    s.clock.advance(180);
    s.beat();
    s.tick();

    // Evicted, but not yet charged.
    let r = get_rental(&s.t, id).unwrap();
    assert_eq!(r.status, RentalStatus::Evicting);
    assert_eq!(r.error.as_deref(), Some("insufficient balance"));
    assert_eq!(s.balance(), DEPOSIT);

    // The charge is capped at the balance.
    assert_eq!(s.beat(), vec![Command::StopRental { rental_id: id }]);
    s.report(&outcome(id, RentalStatus::Stopped));
    let r = get_rental(&s.t, id).unwrap();
    assert_eq!(r.status, RentalStatus::Stopped);
    assert_eq!(r.sats_charged, DEPOSIT, "charge capped at balance");
    assert_eq!(s.balance(), 0, "never negative");
    let evict = s.t.ledger.iter().find(|l| l.kind == LedgerKind::Evict).unwrap();
    assert_eq!(evict.delta_sats, 0);
    assert_eq!(evict.rental_id, Some(id));
}

#[test]
fn the_ledger_holds_what_is_in_custody() {
    let mut s = Stage::new(7, 100);
    let id = s.rent("img", Some("k")).unwrap();
    assert_eq!(ledger_sum(&s.t), 100);
    s.clock.advance(61);
    s.report(&outcome(id, RentalStatus::Failed));
    // 61 × 7 ÷ 60 = 7 whole sats
    assert_eq!(s.balance(), 93);
    assert_eq!(s.t.machines[0].payout_balance, 7);
    assert_eq!(ledger_sum(&s.t), 100);
    let charges: i64 = s
        .t
        .ledger
        .iter()
        .filter(|l| l.kind == LedgerKind::RentalCharge || l.kind == LedgerKind::HostCredit)
        .map(|l| l.delta_sats)
        .sum();
    assert_eq!(charges, 0);
}

#[test]
fn a_second_report_of_the_end_is_not_charged() {
    let mut s = Stage::new(60, 1000);
    let id = s.rent("img", Some("k")).unwrap();
    s.clock.advance(10);
    s.report(&outcome(id, RentalStatus::Stopped));
    assert_eq!(s.balance(), 990);
    s.clock.advance(100);
    s.report(&outcome(id, RentalStatus::Failed));
    assert_eq!(s.balance(), 990);
    let r = get_rental(&s.t, id).unwrap();
    assert_eq!(r.sats_charged, 10);
    assert_eq!(r.minutes_billed, 0);
    assert_eq!(r.status, RentalStatus::Failed);
}

#[test]
fn rentals_are_refused_in_order() {
    let mut s = Stage::new(10, 30);
    let real = s.machine_id;
    s.machine_id = 99;
    assert_eq!(s.rent("img", None), Err((404, "unknown machine".to_string())));
    s.machine_id = real;
    let me = s.account_id.clone();
    s.account_id = "acct_nobody".to_string();
    assert_eq!(s.rent("img", None), Err((404, "unknown account".to_string())));
    s.account_id = me;
    assert_eq!(
        s.rent("img", Some(" \t\n")),
        Err((
            400,
            "ssh_pubkey is required for this image (only metal: images may omit it)".to_string()
        ))
    );
    s.t.machines[0].online = false;
    assert_eq!(
        s.rent("img", Some("k")),
        Err((409, "machine is offline".to_string()))
    );
    s.t.machines[0].online = true;
    s.t.machines[0].rate_sats_per_min = 31;
    assert_eq!(
        s.rent("img", Some("k")),
        Err((402, "balance below one minute at the machine's rate".to_string()))
    );
    s.t.machines[0].rate_sats_per_min = 30;
    let id = s.rent("metal:gemm", None).unwrap();
    assert_eq!(s.t.rentals[0].ssh_pubkey, "");
    assert_eq!(
        s.rent("img", Some("k")),
        Err((409, "machine already rented".to_string()))
    );
    s.report(&outcome(id, RentalStatus::Stopped));
    s.t.rentals[0].id = i64::MAX;
    assert_eq!(
        s.rent("img", Some("k")),
        Err((500, "database error: no rental id is left".to_string()))
    );
}

#[test]
fn a_key_is_trimmed() {
    let mut s = Stage::new(10, 30);
    s.rent("img", Some("\u{3000} key \n")).unwrap();
    assert_eq!(s.t.rentals[0].ssh_pubkey, "key");
}

#[test]
fn a_rental_keeps_the_rate_it_began_with() {
    let mut s = Stage::new(10, 30);
    let id = s.rent("img", Some("k")).unwrap();
    let auth = bearer(&s.token);
    rate(&mut s.t, Some(&auth), &RateRequest { rate_sats_per_min: 500 }).unwrap();
    assert_eq!(get_rental(&s.t, id).unwrap().rate_sats_per_min, 10);
    assert_eq!(s.t.machines[0].rate_sats_per_min, 500);
    let e = rate(&mut s.t, Some(&auth), &RateRequest { rate_sats_per_min: 0 }).unwrap_err();
    assert_eq!((e.status, e.message.as_str()), (400, "rate_sats_per_min must be >= 1"));
}

#[test]
fn registration_is_idempotent_on_the_host() {
    let mut t = Tables::new();
    let a = register(&mut t, &host(10), "agt_1".to_string(), 5).unwrap();
    let mut again = host(12);
    again.gpu_count = 0;
    assert!(reports_less_hardware(&t, &again));
    t.machines[0].online = false;
    t.machines[0].payout_balance = 77;
    let b = register(&mut t, &again, "agt_2".to_string(), 9).unwrap();
    assert_eq!(a, b);
    assert_eq!(t.machines.len(), 1);
    assert_eq!(t.machines[0].rate_sats_per_min, 12);
    assert_eq!(t.machines[0].last_heartbeat, 9);
    assert_eq!(t.machines[0].created_at, 5);
    assert_eq!(t.machines[0].payout_balance, 77);
    assert!(t.machines[0].online);

    let mut other = host(10);
    other.host_id = "host-2".to_string();
    assert!(!reports_less_hardware(&t, &other));
    let e = register(&mut t, &other, "agt_1".to_string(), 9).unwrap_err();
    assert_eq!((e.status, e.message.as_str()), (500, "database error: the agent token is taken"));
    let c = register(&mut t, &other, "agt_3".to_string(), 9).unwrap();
    assert_eq!(c.machine_id, 2);
    other.rate_sats_per_min = 0;
    let e = register(&mut t, &other, "agt_4".to_string(), 9).unwrap_err();
    assert_eq!((e.status, e.message.as_str()), (400, "rate_sats_per_min must be >= 1"));
}

#[test]
fn agents_must_show_their_token() {
    let mut s = Stage::new(10, 30);
    for bad in [None, Some("bearer x"), Some("Basic x"), Some("Bearer")] {
        let e = authenticate(&s.t, bad).unwrap_err();
        assert_eq!((e.status, e.message.as_str()), (401, "missing or malformed bearer token"));
    }
    let e = authenticate(&s.t, Some("Bearer nope")).unwrap_err();
    assert_eq!((e.status, e.message.as_str()), (401, "invalid agent token"));
    let before = s.t.clone();
    let now = s.now();
    assert!(heartbeat(&mut s.t, None, &HeartbeatRequest { online: false }, now).is_err());
    assert!(report(&mut s.t, None, &outcome(1, RentalStatus::Stopped), now).is_err());
    assert!(payout_due(&s.t, None).is_err());
    assert_eq!(s.t, before);
}

#[test]
fn reports_are_for_the_machines_own_rentals() {
    let mut s = Stage::new(10, 30);
    let id = s.rent("img", Some("k")).unwrap();
    let mut other = host(10);
    other.host_id = "host-2".to_string();
    register(&mut s.t, &other, "agt_other".to_string(), 1).unwrap();
    let e = report(
        &mut s.t,
        Some("Bearer agt_other"),
        &outcome(id, RentalStatus::Stopped),
        1,
    )
    .unwrap_err();
    assert_eq!((e.status, e.message.as_str()), (404, "no such rental for this machine"));
    assert_eq!(beat(&mut s.t, "agt_other", 2), vec![]);
    assert_eq!(s.beat().len(), 1);
}

#[test]
fn reports_keep_what_they_do_not_mention() {
    let mut s = Stage::new(10, 30);
    let id = s.rent("mlx:gemm", Some("k")).unwrap();
    let mut up = outcome(id, RentalStatus::Running);
    up.kind = Some(RentalKind::HttpStatus);
    up.ssh_port = Some(40001);
    up.container_id = Some("mlx-job-1".to_string());
    s.report(&up);
    let r = get_rental(&s.t, id).unwrap();
    assert_eq!(r.kind, RentalKind::HttpStatus);
    assert_eq!(r.ssh_command, None, "no SSH line for an HTTP rental");
    s.report(&outcome(id, RentalStatus::Running));
    assert_eq!(s.t.rentals[0].kind, RentalKind::HttpStatus);
    assert_eq!(s.t.rentals[0].container_id.as_deref(), Some("mlx-job-1"));
    assert_eq!(s.t.rentals[0].ssh_port, None);
    assert_eq!(s.t.rentals[0].ssh_host.as_deref(), Some("203.0.113.5"));
}

#[test]
fn payouts_need_something_owed_and_a_payment_that_works() {
    let mut s = Stage::new(60, 100);
    let auth = bearer(&s.token);
    let e = payout_due(&s.t, Some(&auth)).unwrap_err();
    assert_eq!((e.status, e.message.as_str()), (400, "nothing owed"));
    let id = s.rent("img", Some("k")).unwrap();
    s.clock.advance(20);
    s.report(&outcome(id, RentalStatus::Stopped));
    let due = payout_due(&s.t, Some(&auth)).unwrap();
    assert_eq!(due.owed, 20);
    let before = s.t.clone();
    let e = payout(&mut s.t, due, Err("no route".to_string()), 5).unwrap_err();
    assert_eq!((e.status, e.message.as_str()), (502, "payout failed: no route"));
    assert_eq!(s.t, before, "the debt stays");
    payout(&mut s.t, due, Ok(()), 5).unwrap();
    assert_eq!(s.t.machines[0].payout_balance, 0);
    assert_eq!(s.t.ledger.last().unwrap().delta_sats, -20);
    assert_eq!(s.t.ledger.last().unwrap().note.as_deref(), Some("payout"));
}

#[test]
fn deposits_are_credited_once() {
    let mut s = Stage::new(10, 30);
    let hash = s.t.invoices[0].payment_hash.clone();
    assert_eq!(pending_invoices(&s.t), Vec::<String>::new());
    poll_invoices(&mut s.t, &vec![hash.clone()], 5).unwrap();
    assert_eq!(s.balance(), 30);

    let e = deposit_memo(&s.t, &s.account_id, &DepositRequest { sats: 0 }).unwrap_err();
    assert_eq!((e.status, e.message.as_str()), (400, "deposit must be >= 1 sat"));
    let e = deposit_memo(&s.t, "x", &DepositRequest { sats: 1 }).unwrap_err();
    assert_eq!((e.status, e.message.as_str()), (404, "unknown account"));
    assert_eq!(
        deposit_memo(&s.t, &s.account_id, &DepositRequest { sats: 1 }).unwrap(),
        format!("deposit for {}", s.account_id)
    );
    let me = s.account_id.clone();
    let req = DepositRequest { sats: 1 };
    let e = deposit(&mut s.t, &me, &req, Err("down".to_string()), 5).unwrap_err();
    assert_eq!((e.status, e.message.as_str()), (502, "invoice creation failed: down"));
    let mut again = MockBackend::new(0);
    let twin = again.create_invoice(Sats(1), "", 0);
    let e = deposit(&mut s.t, &me, &req, Ok(twin), 5).unwrap_err();
    assert_eq!((e.status, e.message.as_str()), (500, "database error: the payment hash is taken"));
}

#[test]
fn silent_hosts_go_offline_and_stop_the_clock() {
    let mut s = Stage::new(10, 20);
    let id = s.rent("img", Some("k")).unwrap();
    s.start(id);
    // Exactly at the timeout the host still counts as live.
    s.clock.advance(90);
    let now = s.now();
    mark_offline(&mut s.t, &billing(), now);
    assert!(s.t.machines[0].online);
    s.clock.advance(1);
    let now = s.now();
    mark_offline(&mut s.t, &billing(), now);
    assert!(!s.t.machines[0].online);
    // Far over budget, but the host is silent.
    s.clock.advance(10_000);
    let now = s.now();
    enforce_budgets(&mut s.t, &billing(), now).unwrap();
    assert_eq!(get_rental(&s.t, id).unwrap().status, RentalStatus::Running);
    s.beat();
    enforce_budgets(&mut s.t, &billing(), now).unwrap();
    assert_eq!(get_rental(&s.t, id).unwrap().status, RentalStatus::Evicting);
    assert_eq!(s.beat(), vec![Command::StopRental { rental_id: id }]);
}

#[test]
fn a_budget_pass_stops_at_a_broken_row() {
    let mut s = Stage::new(10, 20);
    let id = s.rent("img", Some("k")).unwrap();
    s.start(id);
    s.t.rentals[0].account_id = "gone".to_string();
    let now = s.now();
    let e = enforce_budgets(&mut s.t, &billing(), now).unwrap_err();
    assert_eq!(e.status, 500);
    assert_eq!(s.t.rentals[0].status, RentalStatus::Running);
}

#[test]
fn stopping_twice_queues_one_command() {
    let mut s = Stage::new(10, 30);
    let id = s.rent("img", Some("k")).unwrap();
    s.beat();
    let now = s.now();
    delete_rental(&mut s.t, id, now).unwrap();
    assert_eq!(
        delete_rental(&mut s.t, id, now).unwrap().status,
        RentalStatus::Evicting
    );
    assert_eq!(s.beat().len(), 1);
    s.report(&outcome(id, RentalStatus::Stopped));
    assert_eq!(
        delete_rental(&mut s.t, id, now).unwrap().status,
        RentalStatus::Stopped
    );
    assert_eq!(s.beat(), vec![]);
    let e = delete_rental(&mut s.t, 77, now).unwrap_err();
    assert_eq!((e.status, e.message.as_str()), (404, "unknown rental"));
    let e = get_rental(&s.t, 77).unwrap_err();
    assert_eq!((e.status, e.message.as_str()), (404, "unknown rental"));
    let e = get_account(&s.t, "nobody").unwrap_err();
    assert_eq!((e.status, e.message.as_str()), (404, "unknown account"));
}

#[test]
fn a_rental_that_has_ended_is_not_woken_and_not_charged_again() {
    let mut s = Stage::new(60, 1_000);
    let now = s.now();
    let req = CreateRentalRequest {
        account_id: s.account_id.clone(),
        machine_id: s.machine_id,
        image: "debian:12".to_string(),
        ssh_pubkey: Some("ssh-ed25519 AAAA".to_string()),
    };
    let id = create_rental(&mut s.t, &billing(), &req, now).unwrap().rental_id;
    s.start(id);
    s.clock.advance(60);
    s.report(&outcome(id, RentalStatus::Stopped));
    assert_eq!(s.balance(), 940);
    let rows = s.t.ledger.len();
    s.clock.advance(60);
    s.report(&outcome(id, RentalStatus::Running));
    assert_eq!(get_rental(&s.t, id).unwrap().status, RentalStatus::Stopped);
    s.clock.advance(60);
    s.report(&outcome(id, RentalStatus::Stopped));
    s.report(&outcome(id, RentalStatus::Failed));
    assert_eq!(get_rental(&s.t, id).unwrap().status, RentalStatus::Failed);
    assert_eq!(s.balance(), 940);
    assert_eq!(s.t.rentals[0].sats_charged, 60);
    assert_eq!(s.t.ledger.len(), rows);
    for kind in [LedgerKind::RentalCharge, LedgerKind::HostCredit] {
        let of_kind: Vec<i64> = s
            .t
            .ledger
            .iter()
            .filter(|l| l.kind == kind && l.rental_id == Some(id))
            .map(|l| l.delta_sats.abs())
            .collect();
        assert_eq!(of_kind, vec![60]);
    }
}

#[test]
fn charges_drop_fractions_and_run_forward_only() {
    assert_eq!(accrued_charge(0, 59, 1), 0);
    assert_eq!(accrued_charge(0, 60, 1), 1);
    assert_eq!(accrued_charge(0, 180, 10), 30);
    assert_eq!(accrued_charge(100, 90, 10), 0);
    assert_eq!(accrued_charge(0, 61, -1), -1);
}

#[test]
fn offers_are_filtered_ranked_and_limited() {
    let mut t = Tables::new();
    for (name, gpu, vram, count, price) in [
        ("a", "NVIDIA RTX 4090", 24000, 1, 12),
        ("b", "NVIDIA H100", 80000, 8, 60),
        ("c", "nvidia rtx 3090", 24000, 2, 6),
        ("d", "AMD 100%", 16000, 1, 12),
    ] {
        let mut req = host(price);
        req.host_id = name.to_string();
        req.gpu_name = gpu.to_string();
        req.vram_mb = vram;
        req.gpu_count = count;
        register(&mut t, &req, format!("agt_{name}"), 0).unwrap();
    }
    let ids = |q: &OffersQuery| -> Vec<i64> {
        offers(&t, &values(&t), q)
            .offers
            .iter()
            .map(|o| o.machine_id)
            .collect()
    };
    assert_eq!(ids(&any()), vec![3, 1, 4, 2]);
    let mut q = any();
    q.gpu_name = Some("RTX".to_string());
    assert_eq!(ids(&q), vec![3, 1]);
    q.gpu_name = Some("100%".to_string());
    assert_eq!(ids(&q), vec![4], "a percent sign stands for itself");
    q.gpu_name = Some("h100".to_string());
    assert_eq!(ids(&q), vec![2]);
    q.gpu_name = Some("h_00".to_string());
    assert_eq!(ids(&q), Vec::<i64>::new());
    let mut q = any();
    q.min_vram_mb = Some(24000);
    q.max_rate_sats_per_min = Some(59);
    assert_eq!(ids(&q), vec![3, 1]);
    q.min_gpu_count = Some(2);
    assert_eq!(ids(&q), vec![3]);
    let mut q = any();
    q.limit = Some(-5);
    assert_eq!(ids(&q), vec![3]);
    q.limit = Some(2);
    assert_eq!(ids(&q), vec![3, 1]);
    q.limit = Some(1000);
    assert_eq!(q.answer_limit(), 200);
}

#[test]
fn offers_come_in_the_order_that_is_asked_for() {
    let mut t = Tables::new();
    for (name, dlperf, price) in [
        ("a", 42.0f64, 12),
        ("b", 300.0, 60),
        ("c", 0.0, 6),
        ("d", 18.0, 12),
        ("e", 42.0, 9),
    ] {
        let mut req = host(price);
        req.host_id = name.to_string();
        req.dlperf = Measure {
            bits: dlperf.to_bits(),
        };
        register(&mut t, &req, format!("agt_{name}"), 0).unwrap();
    }
    let ids = |sort: Option<&str>, limit: Option<i64>| -> Vec<i64> {
        let mut q = any();
        q.sort = sort.map(str::to_string);
        q.limit = limit;
        offers(&t, &values(&t), &q)
            .offers
            .iter()
            .map(|o| o.machine_id)
            .collect()
    };
    assert_eq!(ids(Some("rate"), None), vec![3, 5, 1, 4, 2]);
    assert_eq!(ids(Some("rate"), Some(2)), vec![3, 5]);
    assert_eq!(ids(Some("dlperf"), None), vec![2, 1, 5, 4, 3]);
    assert_eq!(ids(Some("dlperf"), Some(1)), vec![2]);
    assert_eq!(ids(None, None), vec![2, 5, 1, 4, 3]);
    assert_eq!(ids(Some("value"), Some(3)), vec![2, 5, 1]);
}

#[test]
fn rows_rank_by_their_keys_and_then_by_age() {
    assert_eq!(rank(&vec![]), Vec::<usize>::new());
    assert_eq!(rank(&vec![5, -1, 5, 0, -1]), vec![1, 4, 3, 0, 2]);
    assert_eq!(rank(&vec![i64::MAX, i64::MIN]), vec![1, 0]);
}

#[test]
fn the_order_of_offers_is_read_from_the_query() {
    let mut q = any();
    assert_eq!(q.order(), OfferOrder::Value);
    for (name, order) in [
        ("rate", OfferOrder::Rate),
        ("dlperf", OfferOrder::Dlperf),
        ("value", OfferOrder::Value),
        ("price", OfferOrder::Value),
    ] {
        q.sort = Some(name.to_string());
        assert_eq!(q.order(), order);
    }
}

#[test]
fn names_match_anywhere_and_in_any_case() {
    assert!(name_matches("NVIDIA GeForce RTX 4090", "geforce"));
    assert!(name_matches("abc", ""));
    assert!(!name_matches("abc", "abcd"));
    assert!(name_matches("É", "É"));
    assert!(!name_matches("É", "é"));
    assert!(!name_matches("10", "1%"));
    assert!(name_matches("a1%b", "1%B"));
    assert!(!name_matches("NVIDIA RTX 4090", "NVIDIA 4090"));
    let long = "a".repeat(200_000);
    assert!(!name_matches(&long, "%a%a%a%a%a%a%b"));
    assert!(name_matches(&long, "AAAA"));
}

#[test]
fn prices_per_hour_must_fit() {
    let mut t = Tables::new();
    register(&mut t, &host(i64::MAX / 60), "agt_1".to_string(), 0).unwrap();
    let rows = select_offers(&t, &values(&t), &any());
    assert_eq!(rows, vec![0]);
    assert!(rates_fit(&t, &rows));
    t.machines[0].rate_sats_per_min = i64::MAX / 60 + 1;
    assert!(!rates_fit(&t, &rows));
}

#[test]
fn occupying_statuses_as_a_query_list() {
    assert_eq!(occupying_in_list(), "'provisioning','running','evicting'");
}

#[test]
fn health_names_the_backend() {
    let h = health("mock");
    assert!(h.ok);
    assert_eq!(h.ln_backend, "mock");
}

#[test]
fn ledger_entries_must_name_existing_rows() {
    let mut s = Stage::new(10, 30);
    let n = s.t.ledger.len();
    let e = record(&mut s.t, 1, LedgerKind::Evict, 0, Some("nobody"), None, None, None).unwrap_err();
    assert_eq!(
        (e.status, e.message.as_str()),
        (500, "database error: a referenced row does not exist")
    );
    let me = s.account_id.clone();
    assert!(record_charge(&mut s.t, 1, &me, s.machine_id, 5, 3).is_err());
    assert_eq!(s.t.ledger.len(), n);
    let id = s.rent("img", Some("k")).unwrap();
    record_charge(&mut s.t, 1, &me, s.machine_id, id, 3).unwrap();
    assert_eq!(s.t.ledger[n].delta_sats, -3);
    assert_eq!(s.t.ledger[n].kind, LedgerKind::RentalCharge);
    assert_eq!(s.t.ledger[n + 1].delta_sats, 3);
    assert_eq!(s.t.ledger[n + 1].kind, LedgerKind::HostCredit);
}

#[test]
fn accounts_have_their_own_ids() {
    let mut t = Tables::new();
    create_account(&mut t, "acct_1".to_string(), 1).unwrap();
    let e = create_account(&mut t, "acct_1".to_string(), 1).unwrap_err();
    assert_eq!((e.status, e.message.as_str()), (500, "database error: the account id is taken"));
}

#[test]
fn amounts_out_of_range_are_refused() {
    let mut s = Stage::new(10, 30);
    s.t.accounts[0].balance_sats = i64::MAX;
    s.t.invoices[0].settled = false;
    let hash = s.t.invoices[0].payment_hash.clone();
    let e = poll_invoices(&mut s.t, &vec![hash], 1).unwrap_err();
    assert_eq!(
        (e.status, e.message.as_str()),
        (500, "database error: an amount is out of range")
    );
    let id = s.rent("img", Some("k")).unwrap();
    s.t.machines[0].payout_balance = i64::MAX;
    s.clock.advance(60);
    let auth = bearer(&s.token);
    let now = s.now();
    let e = report(&mut s.t, Some(&auth), &outcome(id, RentalStatus::Stopped), now).unwrap_err();
    assert_eq!(
        (e.status, e.message.as_str()),
        (500, "database error: an amount is out of range")
    );
}

#[test]
fn ids_are_tagged_and_counted() {
    assert_eq!(tag_id("agt_", 0xabc), "agt_0000000000000abc");
    assert_eq!(mix(5, 0), 5);
    assert_eq!(
        mix(0, 3),
        3u64.wrapping_mul(0x9E37_79B9_7F4A_7C15).rotate_left(17)
    );
    let mut ids = IdSource::new();
    let a = ids.new_agent_token();
    let b = ids.new_account_id();
    assert!(a.starts_with("agt_") && a.len() == 20);
    assert!(b.starts_with("acct_") && b.len() == 21);
    assert_eq!(ids.counter, 2);
    assert_eq!(ids.agent_token_at(7), tag_id("agt_", mix(7, 2)));
    assert_eq!(ids.account_id_at(7), tag_id("acct_", mix(7, 3)));
    let (x, y) = (ids.agent_token_at(7), ids.agent_token_at(7));
    assert_ne!(x, y, "the clock has not moved on");
    ids.counter = u64::MAX;
    assert_eq!(ids.take(), u64::MAX);
    assert_eq!(ids.counter, 0);
}

#[test]
fn all_who_share_a_clock_see_it_advance() {
    let mine = Arc::new(Mutex::new(Clock::manual(1_000)));
    let theirs = Arc::clone(&mine);
    mine.lock().unwrap().advance(60);
    assert_eq!(theirs.lock().unwrap().now(), Some(1_060));
    theirs.lock().unwrap().advance(40);
    assert_eq!(mine.lock().unwrap().now(), Some(1_100));
}

#[test]
fn clocks_tell_and_keep_time() {
    let mut c = Clock::manual(5);
    c.advance(10);
    assert_eq!(c.now(), Some(15));
    c.advance(i64::MAX);
    assert_eq!(c.now(), Some(15i64.wrapping_add(i64::MAX)));
    let mut w = Clock::System;
    w.advance(1_000_000);
    assert!(w.now().unwrap() > 1_600_000_000);
    assert_eq!(BillingConfig::default().bill_period_secs(), 60);
    assert_eq!(BillingConfig::default().heartbeat_timeout_secs(), 90);
}

#[test]
fn readings_of_the_clock_become_timestamps_and_bits() {
    assert_eq!(timestamp(Some(1_700_000_000)), Some(1_700_000_000));
    assert_eq!(timestamp(Some(u64::MAX)), Some(-1));
    assert_eq!(timestamp(None), None);
    assert_eq!(low_bits(Some(5)), 5);
    assert_eq!(low_bits(Some((1u128 << 64) + 7)), 7);
    assert_eq!(low_bits(None), 0);
}
