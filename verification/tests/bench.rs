use vgpu_market::bench::choice::{
    auto_note, backend_label, backend_note, candidate, check_choice, compare_portable, fallback,
    fallback_note, main_suite, native_peak_desc, portable_suite, BackendChoice, Build,
};
use vgpu_market::bench::kernels::{
    blit_bytes, check_cublas_gemm, check_worker, plan_metal_gemm, plan_portable_bandwidth,
    plan_portable_gemm, status_body, status_response, tile_groups, triad_groups, worker_args,
};
use vgpu_market::bench::network::{
    download_url, network_summary, upload_url, NetConfig, NetworkTexts,
};
use vgpu_market::bench::suite::{Outcome, Phase, Suite, SuiteConfig};
use vgpu_market::bench::tables::{
    comparison_rows, device_line, single_rows, BandwidthTexts, GemmTexts, ReportTexts,
};
use vgpu_market::bench::{
    BandwidthResult, DeviceInfo, GemmResult, MlxBackend, NetworkResult, Precision,
};
use vgpu_market::model::Measure;

#[test]
fn precisions_have_sizes_and_names() {
    assert_eq!(Precision::F32.size(), 4);
    assert_eq!(Precision::F16.size(), 2);
    assert_eq!(Precision::F32.as_str(), "fp32");
    assert_eq!(Precision::F16.as_str(), "fp16");
}

fn device() -> DeviceInfo {
    DeviceInfo {
        name: "gpu".to_string(),
        backend: "Vulkan".to_string(),
        device_type: "DiscreteGpu".to_string(),
    }
}

fn gemm(precision: Precision) -> GemmResult {
    GemmResult {
        device: "gpu".to_string(),
        backend: "Vulkan".to_string(),
        precision,
        n: 64,
        iterations: 2,
        seconds: Measure { bits: 1 },
        tflops: Measure { bits: 2 },
        verified: true,
    }
}

fn stream() -> BandwidthResult {
    BandwidthResult {
        device: "gpu".to_string(),
        backend: "Vulkan".to_string(),
        bytes_per_iter: 12,
        iterations: 2,
        seconds: Measure { bits: 1 },
        gb_per_s: Measure { bits: 3 },
    }
}

#[test]
fn a_suite_runs_through_its_phases() {
    let mut s = Suite::new(device(), SuiteConfig::default());
    assert_eq!(s.phase.label(), "fp32 GEMM");
    assert_eq!(s.precision(), Precision::F32);
    assert_eq!(s.record(Outcome::Gemm(gemm(Precision::F32))), Ok(None));
    assert_eq!(s.phase, Phase::GemmF16);
    assert_eq!(s.precision(), Precision::F16);
    assert_eq!(
        s.record(Outcome::Failed("no f16".to_string())),
        Ok(Some("note: fp16 GEMM skipped (no f16)".to_string()))
    );
    assert_eq!(s.phase, Phase::Bandwidth);
    assert_eq!(s.record(Outcome::Bandwidth(stream())), Ok(None));
    assert_eq!(s.phase, Phase::Network);
    let nw = NetworkResult {
        down_mbps: Measure { bits: 1 },
        up_mbps: Measure { bits: 2 },
        latency_ms: Measure { bits: 3 },
    };
    assert_eq!(s.record(Outcome::Network(nw)), Ok(None));
    assert_eq!(s.phase, Phase::Done);
    assert_eq!(s.report.gemm_fp32, Some(gemm(Precision::F32)));
    assert_eq!(s.report.gemm_fp16, None);
    assert_eq!(s.report.bandwidth, Some(stream()));
    assert_eq!(s.report.network, Some(nw));
}

#[test]
fn a_suite_leaves_out_what_is_not_asked_for() {
    let cfg = SuiteConfig {
        include_fp16: false,
        include_network: false,
        ..SuiteConfig::default()
    };
    let mut s = Suite::new(device(), cfg);
    assert_eq!(
        s.record(Outcome::Failed("boom".to_string())),
        Err("boom".to_string())
    );
    assert_eq!(s.phase, Phase::GemmF32);
    s.record(Outcome::Gemm(gemm(Precision::F32))).unwrap();
    assert_eq!(s.phase, Phase::Bandwidth);
    assert_eq!(
        s.record(Outcome::Failed("x".to_string())),
        Ok(Some("note: bandwidth skipped (x)".to_string()))
    );
    assert_eq!(s.phase, Phase::Done);
}

#[test]
fn backends_are_chosen_and_replaced() {
    let cuda = Build { cuda: true, macos: false };
    let mac = Build { cuda: false, macos: true };
    let plain = Build { cuda: false, macos: false };
    assert_eq!(candidate(BackendChoice::Auto, cuda), BackendChoice::Cuda);
    assert_eq!(candidate(BackendChoice::Auto, mac), BackendChoice::Metal);
    assert_eq!(candidate(BackendChoice::Auto, plain), BackendChoice::Wgpu);
    assert_eq!(candidate(BackendChoice::Wgpu, cuda), BackendChoice::Wgpu);
    assert_eq!(
        fallback(BackendChoice::Auto, BackendChoice::Cuda),
        Some(BackendChoice::Wgpu)
    );
    assert_eq!(fallback(BackendChoice::Auto, BackendChoice::Wgpu), None);
    assert_eq!(fallback(BackendChoice::Cuda, BackendChoice::Cuda), None);
    assert_eq!(
        fallback_note(BackendChoice::Metal, "no device"),
        "auto backend: Metal unavailable (no device); falling back to wgpu"
    );
    assert_eq!(auto_note(BackendChoice::Wgpu), "auto backend: portable wgpu");
    assert!(compare_portable(BackendChoice::Auto, BackendChoice::Metal));
    assert!(!compare_portable(BackendChoice::Auto, BackendChoice::Wgpu));
    assert!(!compare_portable(BackendChoice::Metal, BackendChoice::Metal));
    assert!(check_choice(BackendChoice::Metal, mac).is_ok());
    assert_eq!(
        check_choice(BackendChoice::Metal, plain).unwrap_err(),
        "the metal backend is macOS-only"
    );
    assert_eq!(
        check_choice(BackendChoice::Cuda, plain).unwrap_err(),
        "cuda backend not built — rebuild with `--features cuda` on an NVIDIA host"
    );
    assert_eq!(backend_label(BackendChoice::Cuda), "Native (cuBLAS)");
    assert_eq!(native_peak_desc(BackendChoice::Wgpu), "native peak");
    assert_eq!(backend_note(BackendChoice::Cuda), "cuBLAS on NVIDIA tensor cores.");
}

#[test]
fn suites_of_a_comparison() {
    let main = main_suite(4096, 5, 1, 2, true);
    assert_eq!(main.bandwidth_elems, 2_000_000);
    assert!(!main.include_fp16);
    assert!(main.include_network);
    let side = portable_suite(main);
    assert!(!side.include_network);
    assert_eq!(side.n, 4096);
}

#[test]
fn kernels_are_cut_to_size() {
    assert_eq!(tile_groups(0), 0);
    assert_eq!(tile_groups(1), 1);
    assert_eq!(tile_groups(2048), 128);
    assert_eq!(tile_groups(u32::MAX), 268435456);
    assert_eq!(triad_groups(257), 2);
    assert_eq!(triad_groups(32_000_000), 65535);
    assert_eq!(triad_groups(0x1_0000_0000), 0);
    assert_eq!(blit_bytes(3), 24);
    let p = plan_portable_gemm(100, Precision::F32, 0).unwrap();
    assert_eq!((p.elems, p.result_bytes, p.groups, p.warm_up), (10_000, 40_000, 7, false));
    assert_eq!(
        plan_portable_gemm(100, Precision::F16, 0).unwrap_err(),
        "the wgpu backend currently supports only fp32 GEMM; fp16 is the next step"
    );
    assert_eq!(
        plan_portable_gemm(0, Precision::F32, 0).unwrap_err(),
        "n must be > 0"
    );
    let b = plan_portable_bandwidth(1000, 1).unwrap();
    assert_eq!(
        (b.buffer_bytes, b.groups, b.bytes_per_iter, b.warm_up),
        (4000, 4, 12_000, true)
    );
    assert_eq!(
        plan_portable_bandwidth(0, 1).unwrap_err(),
        "elements must be > 0"
    );
    let m = plan_metal_gemm(64, Precision::F16, 1).unwrap();
    assert_eq!((m.elems, m.input_bytes, m.result_bytes, m.tiles), (4096, 8192, 16384, 8));
    assert_eq!(
        plan_metal_gemm(12, Precision::F32, 0).unwrap_err(),
        "the Metal backend needs n to be a positive multiple of 8 (got 12)"
    );
    assert_eq!(check_cublas_gemm(0).unwrap_err(), "n must be > 0");
    assert!(check_cublas_gemm(1).is_ok());
}

#[test]
fn the_worker_serves_its_status() {
    assert_eq!(worker_args(None, None), (2048, 40000));
    assert_eq!(worker_args(Some("64"), Some("65535")), (64, 65535));
    assert_eq!(worker_args(Some("x"), Some("65536")), (2048, 40000));
    assert_eq!(check_worker(9).unwrap_err(), "n must be a multiple of 8 (got 9)");
    assert!(check_worker(8).is_ok());
    let body = status_body(64, 20, "1.500");
    assert_eq!(body, "{\"task\":\"gemm-fp16\",\"n\":64,\"iters\":20,\"tflops\":1.500}");
    assert_eq!(
        status_response("é"),
        "HTTP/1.1 200 OK\r\ncontent-type: application/json\r\ncontent-length: 2\r\nconnection: close\r\n\r\né"
    );
}

#[test]
fn the_probe_asks_for_bytes() {
    assert_eq!(
        download_url(25_000_000),
        "https://speed.cloudflare.com/__down?bytes=25000000"
    );
    assert_eq!(upload_url(), "https://speed.cloudflare.com/__up");
    assert_eq!(NetConfig::default().rounds(), 5);
    let c = NetConfig::from_megabytes(1, 2, 0);
    assert_eq!((c.down_bytes, c.up_bytes, c.rounds()), (1_000_000, 2_000_000, 1));
}

fn texts() -> ReportTexts {
    ReportTexts {
        gemm_fp32: Some(GemmTexts {
            precision: Precision::F32,
            tflops: "1.23".to_string(),
            n: 64,
            iterations: 5,
            seconds: "0.100".to_string(),
            verified: false,
        }),
        gemm_fp16: None,
        bandwidth: Some(BandwidthTexts {
            gb_per_s: "10.0".to_string(),
            mb_per_iter: "384".to_string(),
            iterations: 5,
            seconds: "0.200".to_string(),
        }),
        network: Some(NetworkTexts {
            down: "100".to_string(),
            up: "50".to_string(),
            latency: "9.5".to_string(),
        }),
    }
}

#[test]
fn results_are_shown_in_tables() {
    let mut t = texts();
    let rows = single_rows(&t, false);
    assert_eq!(rows.len(), 4);
    assert_eq!(rows[0].a, "GEMM fp32");
    assert_eq!(rows[0].b, "1.23 TFLOP/s");
    assert_eq!(rows[0].c, "n=64, 5 iters, 0.100s — UNVERIFIED");
    assert_eq!(rows[1].c, "not supported on this device");
    assert_eq!(rows[2].b, "10.0 GB/s");
    assert_eq!(rows[2].c, "384 MB/iter, 5 iters, 0.200s");
    assert_eq!(rows[3].b, "100↓ / 50↑ Mbps");
    assert_eq!(rows[3].c, "latency 9.5 ms (speed.cloudflare.com)");
    assert_eq!(single_rows(&t, true).len(), 3);
    let side = comparison_rows(&t, &t, false);
    assert_eq!(side.len(), 3);
    assert_eq!(side[0].b, "1.23 TFLOP/s (unverified)");
    assert_eq!(side[1].c, "n/a");
    assert_eq!(side[2].c, "10.0 GB/s");
    assert_eq!(comparison_rows(&t, &t, true).len(), 2);
    assert_eq!(
        network_summary(&t.network),
        "Network: 100↓ / 50↑ Mbps, latency 9.5 ms"
    );
    t.network = None;
    assert_eq!(network_summary(&t.network), "Network: probe failed (offline?)");
    assert_eq!(single_rows(&t, true)[2].c, "probe failed (offline?)");
    assert_eq!(device_line("a", "b", "c"), "Device:  a (b, c)");
}

#[test]
fn there_is_no_mlx_backend_yet() {
    let e = MlxBackend::new().unwrap_err();
    assert!(e.starts_with("the MLX backend is not implemented yet"));
    assert_eq!(MlxBackend.gemm(1, Precision::F32, 0, 0).unwrap_err(), e);
    assert_eq!(MlxBackend.bandwidth(1, 0, 0).unwrap_err(), e);
}
