//! Which backends are run, under which names, and how their results are shown.

use vstd::prelude::*;

use super::suite::SuiteConfig;
use crate::text::{digits, push_digits};

verus! {

/// The backends that can be asked for.
#[derive(Debug, Clone, Copy, PartialEq, Eq, Structural)]
pub enum BackendChoice {
    /// The best backend of this build, or the portable one if it does not start.
    Auto,
    /// The portable backend, which works everywhere.
    Wgpu,
    /// Apple's GPU interface, on macOS only.
    Metal,
    /// NVIDIA's library, in builds that have it.
    Cuda,
}

/// What a build offers beside the portable backend.
#[derive(Debug, Clone, Copy, PartialEq, Eq, Structural)]
pub struct Build {
    pub cuda: bool,
    pub macos: bool,
}

/// Why a backend that was asked for by name is not in this build.
pub open spec fn missing(choice: BackendChoice, build: Build) -> Option<Seq<char>> {
    match choice {
        BackendChoice::Metal => if build.macos {
            None
        } else {
            Some("the metal backend is macOS-only"@)
        },
        BackendChoice::Cuda => if build.cuda {
            None
        } else {
            Some("cuda backend not built — rebuild with `--features cuda` on an NVIDIA host"@)
        },
        _ => None,
    }
}

/// Checks that a backend that was asked for by name is in this build.
pub fn check_choice(choice: BackendChoice, build: Build) -> (r: Result<(), String>)
    ensures
        match missing(choice, build) {
            Some(e) => r matches Err(x) && x@ == e,
            None => r is Ok,
        },
{
    if choice == BackendChoice::Metal && !build.macos {
        return Err("the metal backend is macOS-only".to_owned());
    }
    if choice == BackendChoice::Cuda && !build.cuda {
        return Err(
            "cuda backend not built — rebuild with `--features cuda` on an NVIDIA host".to_owned(),
        );
    }
    Ok(())
}

/// The backend that is tried first when none is named.
pub open spec fn native_of(build: Build) -> BackendChoice {
    if build.cuda {
        BackendChoice::Cuda
    } else if build.macos {
        BackendChoice::Metal
    } else {
        BackendChoice::Wgpu
    }
}

/// The backend to start for a choice: the named one, or the best of the build.
pub fn candidate(choice: BackendChoice, build: Build) -> (r: BackendChoice)
    ensures
        r == (if choice is Auto {
            native_of(build)
        } else {
            choice
        }),
        !(r is Auto),
{
    if choice != BackendChoice::Auto {
        choice
    } else if build.cuda {
        BackendChoice::Cuda
    } else if build.macos {
        BackendChoice::Metal
    } else {
        BackendChoice::Wgpu
    }
}

/// The backend to try after one that did not start: the portable one, if the
/// choice was left to the program and that was not the one that failed.
pub fn fallback(choice: BackendChoice, failed: BackendChoice) -> (r: Option<BackendChoice>)
    ensures
        r == (if choice is Auto && !(failed is Wgpu) {
            Some(BackendChoice::Wgpu)
        } else {
            None
        }),
{
    if choice == BackendChoice::Auto && failed != BackendChoice::Wgpu {
        Some(BackendChoice::Wgpu)
    } else {
        None
    }
}

/// What is said when a native backend does not start.
pub open spec fn fallback_text(failed: BackendChoice, error: Seq<char>) -> Seq<char> {
    "auto backend: "@ + (if failed is Cuda {
        "cuBLAS"@
    } else {
        "Metal"@
    }) + " unavailable ("@ + error + "); falling back to wgpu"@
}

/// What is said when a native backend does not start.
pub fn fallback_note(failed: BackendChoice, error: &str) -> (r: String)
    requires
        failed is Cuda || failed is Metal,
    ensures
        r@ == fallback_text(failed, error@),
{
    let mut s = "auto backend: ".to_owned();
    s.push_str(if failed == BackendChoice::Cuda { "cuBLAS" } else { "Metal" });
    s.push_str(" unavailable (");
    s.push_str(error);
    s.push_str("); falling back to wgpu");
    s
}

/// What is said of the backend that was chosen.
pub fn auto_note(resolved: BackendChoice) -> (r: &'static str)
    requires
        !(resolved is Auto),
    ensures
        r@ == (match resolved {
            BackendChoice::Cuda => "auto backend: cuBLAS (native NVIDIA)"@,
            BackendChoice::Metal => "auto backend: native Metal (Apple GPU)"@,
            _ => "auto backend: portable wgpu"@,
        }),
{
    match resolved {
        BackendChoice::Cuda => "auto backend: cuBLAS (native NVIDIA)",
        BackendChoice::Metal => "auto backend: native Metal (Apple GPU)",
        _ => "auto backend: portable wgpu",
    }
}

/// True when the portable backend is measured beside the native one: the choice
/// was left to the program and fell on a native backend.
pub fn compare_portable(choice: BackendChoice, resolved: BackendChoice) -> (r: bool)
    ensures
        r == (choice is Auto && !(resolved is Wgpu)),
{
    choice == BackendChoice::Auto && resolved != BackendChoice::Wgpu
}

/// The suite of the main backend. It owns the network probe.
pub fn main_suite(n: u32, iters: u32, warmup: u32, bandwidth_m: u64, skip_fp16: bool) -> (r: SuiteConfig)
    requires
        bandwidth_m * 1000000 <= u64::MAX,
    ensures
        r == (SuiteConfig {
            n,
            iters,
            warmup,
            bandwidth_elems: (bandwidth_m * 1000000) as u64,
            include_fp16: !skip_fp16,
            include_network: true,
        }),
{
    SuiteConfig {
        n,
        iters,
        warmup,
        bandwidth_elems: bandwidth_m * 1000000,
        include_fp16: !skip_fp16,
        include_network: true,
    }
}

/// The suite of the portable backend beside it: the same without the probe.
pub fn portable_suite(cfg: SuiteConfig) -> (r: SuiteConfig)
    ensures
        r == (SuiteConfig { include_network: false, ..cfg }),
{
    SuiteConfig {
        n: cfg.n,
        iters: cfg.iters,
        warmup: cfg.warmup,
        bandwidth_elems: cfg.bandwidth_elems,
        include_fp16: cfg.include_fp16,
        include_network: false,
    }
}

/// Column title of a backend.
pub fn backend_label(c: BackendChoice) -> (r: &'static str)
    ensures
        r@ == (match c {
            BackendChoice::Metal => "Native (Metal)"@,
            BackendChoice::Cuda => "Native (cuBLAS)"@,
            BackendChoice::Wgpu => "Portable (wgpu)"@,
            BackendChoice::Auto => "auto"@,
        }),
{
    match c {
        BackendChoice::Metal => "Native (Metal)",
        BackendChoice::Cuda => "Native (cuBLAS)",
        BackendChoice::Wgpu => "Portable (wgpu)",
        BackendChoice::Auto => "auto",
    }
}

/// How a native backend reaches its peak.
pub fn native_peak_desc(c: BackendChoice) -> (r: &'static str)
    ensures
        r@ == (match c {
            BackendChoice::Metal => "peak via Apple matrix units (simdgroup_matrix)"@,
            BackendChoice::Cuda => "peak via NVIDIA tensor cores (cuBLAS)"@,
            _ => "native peak"@,
        }),
{
    match c {
        BackendChoice::Metal => "peak via Apple matrix units (simdgroup_matrix)",
        BackendChoice::Cuda => "peak via NVIDIA tensor cores (cuBLAS)",
        _ => "native peak",
    }
}

/// One line on the backend of a run.
pub fn backend_note(resolved: BackendChoice) -> (r: &'static str)
    requires
        !(resolved is Auto),
    ensures
        r@ == (match resolved {
            BackendChoice::Wgpu =>
                "portable ALU throughput (no tensor cores) — good for ranking, below vendor peak."@,
            BackendChoice::Metal =>
                "native Metal simdgroup_matrix (Apple matrix units) — a basic kernel: above the portable path, below a fully-tuned library."@,
            _ => "cuBLAS on NVIDIA tensor cores."@,
        }),
{
    match resolved {
        BackendChoice::Wgpu => {
            "portable ALU throughput (no tensor cores) — good for ranking, below vendor peak."
        },
        BackendChoice::Metal => {
            "native Metal simdgroup_matrix (Apple matrix units) — a basic kernel: above the portable path, below a fully-tuned library."
        },
        _ => "cuBLAS on NVIDIA tensor cores.",
    }
}

/// The cell of a product's throughput, which is given as a decimal text with
/// whether the product was right.
pub fn tflops_cell(g: Option<(&str, bool)>) -> (r: String)
    ensures
        r@ == (match g {
            Some((t, verified)) => if verified {
                t@ + " TFLOP/s"@
            } else {
                t@ + " TFLOP/s (unverified)"@
            },
            None => "n/a"@,
        }),
{
    match g {
        Some((t, verified)) => {
            let mut s = t.to_owned();
            s.push_str(if verified { " TFLOP/s" } else { " TFLOP/s (unverified)" });
            s
        },
        None => "n/a".to_owned(),
    }
}

/// The cell of a memory bandwidth, which is given as a decimal text.
pub fn bandwidth_cell(b: Option<&str>) -> (r: String)
    ensures
        r@ == (match b {
            Some(t) => t@ + " GB/s"@,
            None => "n/a"@,
        }),
{
    match b {
        Some(t) => {
            let mut s = t.to_owned();
            s.push_str(" GB/s");
            s
        },
        None => "n/a".to_owned(),
    }
}

/// The detail of a product's row; the seconds are a decimal text.
pub fn gemm_detail(n: u32, iterations: u32, seconds: &str, verified: bool) -> (r: String)
    ensures
        r@ == "n="@ + digits(n as nat) + ", "@ + digits(iterations as nat) + " iters, "@ + seconds@
            + "s"@ + (if verified {
            ", verified"@
        } else {
            " — UNVERIFIED"@
        }),
{
    let mut s = "n=".to_owned();
    push_digits(&mut s, n as u64);
    s.push_str(", ");
    push_digits(&mut s, iterations as u64);
    s.push_str(" iters, ");
    s.push_str(seconds);
    s.push_str("s");
    s.push_str(if verified { ", verified" } else { " — UNVERIFIED" });
    s
}

} // verus!
