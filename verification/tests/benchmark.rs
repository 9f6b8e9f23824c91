use vgpu_market::benchmark::{
    dlperf, fingerprint, gemm_score, hex_of, is_known_gpu, lookup_dlperf, megabytes, probe, score,
    table_score, GpuInfo,
};

fn gpu(name: &str, uuid: &str, pci: &str) -> GpuInfo {
    GpuInfo {
        name: name.to_string(),
        uuid: uuid.to_string(),
        pci_bus_id: pci.to_string(),
        vram_mb: 24564,
    }
}

#[test]
fn fingerprint_is_order_independent() {
    let a = gpu("RTX 4090", "GPU-aaa", "00000000:01:00.0");
    let b = gpu("RTX 4090", "GPU-bbb", "00000000:02:00.0");
    assert_eq!(
        fingerprint(&vec![a.clone(), b.clone()]),
        fingerprint(&vec![b, a])
    );
}

#[test]
fn fingerprint_changes_when_hardware_swapped() {
    let base = vec![gpu("RTX 4090", "GPU-aaa", "00000000:01:00.0")];
    let swapped = vec![gpu("RTX 4090", "GPU-ccc", "00000000:01:00.0")];
    assert_ne!(fingerprint(&base), fingerprint(&swapped));
}

#[test]
fn fingerprints_are_64_hex_digits_and_ignore_memory() {
    let mut g = gpu("RTX 4090", "GPU-aaa", "00000000:01:00.0");
    let print = fingerprint(&vec![g.clone()]);
    assert_eq!(print.len(), 64);
    assert!(print
        .chars()
        .all(|c| c.is_ascii_digit() || ('a'..='f').contains(&c)));
    g.vram_mb = 1;
    assert_eq!(fingerprint(&vec![g]), print);
}

#[test]
fn scores_ignore_case_and_order() {
    for name in ["NVIDIA GeForce RTX 4090", "NVIDIA RTX A4000", "Tesla V100", "Radeon"] {
        assert_eq!(lookup_dlperf(&name.to_lowercase()), lookup_dlperf(name));
        assert_eq!(lookup_dlperf(&name.to_uppercase()), lookup_dlperf(name));
        assert_eq!(is_known_gpu(&name.to_uppercase()), is_known_gpu(name));
    }
    let a = gpu("nvidia geforce rtx 4090", "1", "1");
    let b = gpu("NVIDIA H100 80GB HBM3", "2", "2");
    let c = gpu("NVIDIA GEFORCE RTX 4090", "3", "3");
    assert_eq!(dlperf(&vec![a.clone(), b.clone(), c.clone()]), 384);
    assert_eq!(dlperf(&vec![b, c, a]), 384);
}

#[test]
fn fingerprint_of_nothing_is_the_digest_of_nothing() {
    assert_eq!(
        fingerprint(&vec![]),
        "e3b0c44298fc1c149afbf4c8996fb92427ae41e4649b934ca495991b7852b855"
    );
}

#[test]
fn single_4090_anchors_near_42() {
    let one = vec![gpu("NVIDIA GeForce RTX 4090", "GPU-1", "00000000:01:00.0")];
    assert_eq!(dlperf(&one), 42);
}

#[test]
fn dlperf_scales_linearly_with_count() {
    let two = vec![
        gpu("NVIDIA GeForce RTX 4090", "GPU-1", "00000000:01:00.0"),
        gpu("NVIDIA GeForce RTX 4090", "GPU-2", "00000000:02:00.0"),
    ];
    assert_eq!(dlperf(&two), 84);
}

#[test]
fn h100_outranks_4090() {
    assert!(lookup_dlperf("NVIDIA H100 80GB HBM3") > lookup_dlperf("NVIDIA GeForce RTX 4090"));
}

#[test]
fn specific_substring_wins_over_generic() {
    // "3090 ti" must not be captured by the "3090" row.
    assert_eq!(lookup_dlperf("NVIDIA GeForce RTX 3090 Ti"), 31);
    assert_eq!(lookup_dlperf("NVIDIA GeForce RTX 3090"), 27);
}

#[test]
fn unknown_gpu_gets_conservative_fallback() {
    assert_eq!(lookup_dlperf("Some Future GPU 9999"), 18);
    assert!(!is_known_gpu("Some Future GPU 9999"));
    assert!(is_known_gpu("NVIDIA L40S"));
}

#[test]
fn gemm_measurement_absent_without_cuda() {
    assert_eq!(gemm_score(), None);
}

#[test]
fn every_table_row_scores() {
    let rows = [
        ("h200", 320),
        ("h100", 300),
        ("a100", 160),
        ("l40s", 95),
        ("l40", 90),
        ("a40", 74),
        ("a30", 55),
        ("a10g", 32),
        ("a10", 30),
        ("l4", 24),
        ("v100", 28),
        ("t4", 16),
        ("rtx 6000 ada", 90),
        ("rtx a6000", 78),
        ("rtx a5000", 55),
        ("rtx a4000", 40),
        ("4090", 42),
        ("4080", 30),
        ("4070 ti", 26),
        ("4070", 20),
        ("3090 ti", 31),
        ("3090", 27),
        ("3080", 24),
        ("3070", 17),
        ("2080 ti", 16),
    ];
    for (name, value) in rows {
        assert_eq!(score(name), value, "{name}");
        assert_eq!(table_score(name), Some(value), "{name}");
        assert_eq!(lookup_dlperf(&name.to_uppercase()), value, "{name}");
    }
    assert_eq!(table_score("H100"), None);
}

#[test]
fn hexadecimal_has_two_digits_per_byte() {
    assert_eq!(hex_of(&vec![0, 1, 171, 255]), "0001abff");
}

#[test]
fn probing_needs_a_gpu() {
    assert_eq!(
        probe(vec![]).unwrap_err(),
        "no NVIDIA GPU detected — nothing to offer"
    );
    let inv = probe(vec![gpu("NVIDIA H100", "u", "p"), gpu("x", "y", "z")]).unwrap();
    assert_eq!(inv.gpu_count(), 2);
    assert_eq!(inv.gpu_name(), "NVIDIA H100");
    assert_eq!(inv.vram_mb(), 24564);
    assert_eq!(inv.dlperf, 318);
    assert_eq!(inv.hw_fingerprint.len(), 64);
}

#[test]
fn memory_is_counted_in_whole_megabytes() {
    assert_eq!(megabytes(25_757_220_864), 24564);
    assert_eq!(megabytes(1_048_575), 0);
}
