use vgpu_market::api::{
    AccountResponse, CreateAccountResponse, CreateRentalResponse, DepositResponse, HealthResponse,
    Offer, RentalResponse,
};
use vgpu_market::cli::{
    account_lines, create_account_lines, deposit_lines, endpoint_hint, error_message, fmt_sats,
    health_line, offer_cells, offers_params, rent_key, rent_lines, rental_lines, shown_error,
    stop_answer, stop_line, Client, OffersArgs,
};
use vgpu_market::model::{DiskType, Measure, RentalKind, RentalStatus};

fn shown(sats: i64) -> String {
    let btc = sats as f64 / 1e8;
    let usd = btc * 100_000.0;
    fmt_sats(sats, &format!("{btc:.8}"), &format!("{usd:.2}"))
}

#[test]
fn fmt_sats_shows_denominations() {
    // 60,000 sats ≈ 0.0006 BTC ≈ $60 at the $100k anchor.
    let s = shown(60_000);
    assert!(s.contains("60000 sats"));
    assert!(s.contains("0.00060000 BTC"));
    assert!(s.contains("$60.00"));
    assert_eq!(s, "60000 sats  (≈ 0.00060000 BTC ≈ $60.00)");
}

#[test]
fn base_urls_lose_their_end_slashes() {
    assert_eq!(Client::new("http://cp:8080//").url("/health"), "http://cp:8080/health");
    assert_eq!(Client::new("http://cp:8080").url("/x"), "http://cp:8080/x");
    assert_eq!(Client::new("///").base, "");
}

#[test]
fn hints_depend_on_the_kind() {
    assert_eq!(
        endpoint_hint(RentalKind::Ssh, Some("h"), Some(22)),
        Some(("SSH:", "ssh -p 22 root@h".to_string()))
    );
    assert_eq!(
        endpoint_hint(RentalKind::HttpStatus, Some("h"), Some(80)),
        Some(("Status:", "curl http://h:80/".to_string()))
    );
    let (label, hint) = endpoint_hint(RentalKind::HttpOpenai, Some("h"), Some(80)).unwrap();
    assert_eq!(label, "LLM API:");
    assert_eq!(
        hint,
        "curl http://h:80/v1/chat/completions -H content-type:application/json \
         -d '{\"messages\":[{\"role\":\"user\",\"content\":\"hi\"}],\"max_tokens\":64}'"
    );
    assert_eq!(endpoint_hint(RentalKind::Ssh, None, Some(22)), None);
    assert_eq!(endpoint_hint(RentalKind::Ssh, Some("h"), None), None);
}

#[test]
fn only_given_parameters_are_sent() {
    let mut args = OffersArgs {
        gpu: None,
        min_vram_mb: None,
        min_gpu_count: None,
        max_rate: None,
        sort: None,
        limit: None,
    };
    assert_eq!(offers_params(&args), vec![]);
    args.gpu = Some("4090".to_string());
    args.max_rate = Some(-3);
    args.limit = Some(5);
    assert_eq!(
        offers_params(&args),
        vec![
            ("gpu_name", "4090".to_string()),
            ("max_rate_sats_per_min", "-3".to_string()),
            ("limit", "5".to_string())
        ]
    );
}

#[test]
fn the_key_may_be_left_out_for_metal_images_only() {
    assert_eq!(
        rent_key(Some(" k ".to_string()), None, "img"),
        Ok(Some(" k ".to_string()))
    );
    assert_eq!(
        rent_key(None, Some(" k\n".to_string()), "img"),
        Ok(Some("k".to_string()))
    );
    assert_eq!(rent_key(None, None, "metal:gemm"), Ok(None));
    assert_eq!(
        rent_key(None, None, "img").unwrap_err(),
        "provide --ssh-key or --ssh-key-file (only metal: images may omit it)"
    );
}

#[test]
fn lines_of_the_small_commands() {
    let h = HealthResponse {
        ok: true,
        ln_backend: "mock".to_string(),
    };
    assert_eq!(health_line(&h), "Control plane OK  (lightning backend: mock)");
    let a = CreateAccountResponse {
        account_id: "acct_1".to_string(),
    };
    assert_eq!(
        create_account_lines(&a),
        (
            "Created account: acct_1".to_string(),
            "Fund it with:  vgpu deposit acct_1 <sats>".to_string()
        )
    );
    let d = DepositResponse {
        bolt11: "lnbc".to_string(),
        payment_hash: "00".to_string(),
        sats: 5,
    };
    assert_eq!(deposit_lines(&d, "5 sats").1, "  BOLT11:       lnbc");
    assert_eq!(stop_line(4, None), "Rental 4 -> evicting (stop queued)");
    assert_eq!(stop_line(4, Some("stopped")), "Rental 4 -> stopped (stop queued)");
    let r = CreateRentalResponse {
        rental_id: 9,
        status: RentalStatus::Provisioning,
        rate_sats_per_min: 10,
    };
    assert_eq!(
        rent_lines(&r).0,
        "Rental 9 created  [provisioning]  at 10 sats/min"
    );
}

#[test]
fn lines_of_an_account() {
    let mut a = AccountResponse {
        account_id: "acct_1".to_string(),
        balance_sats: 30,
        burn_sats_per_min: 10,
        runway_minutes: Some(3),
    };
    let l = account_lines(&a, "B");
    assert_eq!(l.0, "Account acct_1");
    assert_eq!(l.1, "  Balance: B");
    assert_eq!(l.2, "  Burn:    10 sats/min");
    assert_eq!(l.3, "  Runway:  3 minutes");
    a.runway_minutes = None;
    assert_eq!(account_lines(&a, "B").3, "  Runway:  — (no running rentals)");
}

#[test]
fn lines_of_a_rental() {
    let mut r = RentalResponse {
        id: 3,
        machine_id: 1,
        account_id: "a".to_string(),
        image: "img".to_string(),
        status: RentalStatus::Running,
        kind: RentalKind::HttpStatus,
        gpu_name: "M4".to_string(),
        gpu_count: 1,
        ssh_host: Some("h".to_string()),
        ssh_port: Some(80),
        ssh_command: None,
        rate_sats_per_min: 1,
        sats_charged: 2,
        minutes_billed: 3,
        paid_through: 4,
        error: Some("boom".to_string()),
        created_at: 5,
        ended_at: None,
    };
    let l = rental_lines(&r);
    assert_eq!(l.0, "Rental 3  [running]");
    assert_eq!(l.1, "  GPU:     M4 x1");
    assert_eq!(l.2, "  Image:   img");
    assert_eq!(l.3, format!("  {:<8} {}", "Status:", "curl http://h:80/"));
    assert_eq!(l.4, "  Billed:  2 sats over 3 min");
    assert_eq!(l.5, Some("  Error:   boom".to_string()));
    r.ssh_port = None;
    r.error = None;
    let l = rental_lines(&r);
    assert_eq!(l.3, format!("  {:<8} (pending — not running yet)", "Endpoint:"));
    assert_eq!(l.5, None);
}

#[test]
fn cells_of_an_offer() {
    let o = Offer {
        machine_id: 1,
        gpu_name: "RTX".to_string(),
        gpu_count: 2,
        vram_mb: 24564,
        cpu_name: "c".to_string(),
        cpu_cores: 1,
        ram_mb: 1,
        disk_gb: 1,
        disk_type: DiskType::Ssd,
        public_ip: "ip".to_string(),
        country: None,
        inet_down_mbps: None,
        inet_up_mbps: None,
        dlperf: Measure { bits: 0 },
        rate_sats_per_min: 10,
        rate_sats_per_hour: 600,
    };
    let c = offer_cells(&o);
    assert_eq!(c.vram, "23 GB");
    assert_eq!(c.count, "2");
    assert_eq!(c.per_hour, "600");
    assert_eq!(c.place, "-");
}

#[test]
fn errors_are_read_from_the_answer() {
    assert_eq!(error_message(r#"{"error": "unknown \"rental\""}"#), "unknown \"rental\"");
    for body in [r#"{"error": 5}"#, r#"{"message": "x"}"#, r#"["error"]"#, "gateway down", ""] {
        assert_eq!(error_message(body), body);
    }
    assert_eq!(shown_error(Some("why".to_string()), "body"), "why");
    assert_eq!(shown_error(None, "body"), "body");
}

#[test]
fn the_status_of_a_stop_is_read_from_the_answer() {
    assert_eq!(
        stop_answer(3, r#"{"rental_id": 3, "status": "stopped"}"#),
        "Rental 3 -> stopped (stop queued)"
    );
    assert_eq!(stop_answer(3, "{}"), "Rental 3 -> evicting (stop queued)");
}
