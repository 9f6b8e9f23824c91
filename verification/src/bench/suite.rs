//! The suite of measurements on one backend: matrix products in full and half
//! precision, memory bandwidth, and a network probe. It keeps the raw numbers and
//! makes no score of them.

use vstd::prelude::*;

use super::{BandwidthResult, DeviceInfo, GemmResult, NetworkResult, Precision};

verus! {

/// What to run.
#[derive(Debug, Clone, Copy, PartialEq, Eq, Structural)]
pub struct SuiteConfig {
    /// Dimension of the square matrices.
    pub n: u32,
    pub iters: u32,
    pub warmup: u32,
    /// Elements per buffer of the bandwidth test.
    pub bandwidth_elems: u64,
    /// Also run the product in half precision.
    pub include_fp16: bool,
    /// Also probe the network. It is the same for all backends, so one suite of
    /// several does.
    pub include_network: bool,
}

impl Default for SuiteConfig {
    fn default() -> (r: Self)
        ensures
            r == (SuiteConfig {
                n: 2048,
                iters: 50,
                warmup: 10,
                bandwidth_elems: 32000000,
                include_fp16: true,
                include_network: true,
            }),
    {
        SuiteConfig {
            n: 2048,
            iters: 50,
            warmup: 10,
            bandwidth_elems: 32000000,
            include_fp16: true,
            include_network: true,
        }
    }
}

/// All measurements of one suite run.
#[derive(Debug, Clone, PartialEq, Eq)]
pub struct Report {
    pub device: DeviceInfo,
    pub gemm_fp32: Option<GemmResult>,
    pub gemm_fp16: Option<GemmResult>,
    pub bandwidth: Option<BandwidthResult>,
    /// Absent when the probe failed or was not asked for.
    pub network: Option<NetworkResult>,
}

/// Where a suite stands: what is to be measured next.
#[derive(Debug, Clone, Copy, PartialEq, Eq, Structural)]
pub enum Phase {
    GemmF32,
    GemmF16,
    Bandwidth,
    Network,
    Done,
}

impl Phase {
    /// A short label for the phase.
    pub fn label(&self) -> (r: &'static str)
        ensures
            r@ == (match *self {
                Phase::GemmF32 => "fp32 GEMM"@,
                Phase::GemmF16 => "fp16 GEMM"@,
                Phase::Bandwidth => "memory bandwidth"@,
                Phase::Network => "network probe"@,
                Phase::Done => "done"@,
            }),
    {
        match self {
            Phase::GemmF32 => "fp32 GEMM",
            Phase::GemmF16 => "fp16 GEMM",
            Phase::Bandwidth => "memory bandwidth",
            Phase::Network => "network probe",
            Phase::Done => "done",
        }
    }
}

/// What a measurement came to.
#[derive(Debug, Clone, PartialEq, Eq)]
pub enum Outcome {
    Gemm(GemmResult),
    Bandwidth(BandwidthResult),
    Network(NetworkResult),
    Failed(String),
}

/// True when an outcome is one of the given phase. A failure is one of every phase.
pub open spec fn fits(phase: Phase, o: Outcome) -> bool {
    match phase {
        Phase::GemmF32 => o is Gemm || o is Failed,
        Phase::GemmF16 => o is Gemm || o is Failed,
        Phase::Bandwidth => o is Bandwidth || o is Failed,
        Phase::Network => o is Network || o is Failed,
        Phase::Done => false,
    }
}

/// The phase behind a phase.
pub open spec fn phase_after(phase: Phase, cfg: SuiteConfig) -> Phase {
    match phase {
        Phase::GemmF32 => if cfg.include_fp16 {
            Phase::GemmF16
        } else {
            Phase::Bandwidth
        },
        Phase::GemmF16 => Phase::Bandwidth,
        Phase::Bandwidth => if cfg.include_network {
            Phase::Network
        } else {
            Phase::Done
        },
        Phase::Network => Phase::Done,
        Phase::Done => Phase::Done,
    }
}

/// The report with a measurement of a phase entered. A failed one is left out.
pub open spec fn entered(r: Report, phase: Phase, o: Outcome) -> Report {
    match (phase, o) {
        (Phase::GemmF32, Outcome::Gemm(g)) => Report { gemm_fp32: Some(g), ..r },
        (Phase::GemmF16, Outcome::Gemm(g)) => Report { gemm_fp16: Some(g), ..r },
        (Phase::Bandwidth, Outcome::Bandwidth(b)) => Report { bandwidth: Some(b), ..r },
        (Phase::Network, Outcome::Network(n)) => Report { network: Some(n), ..r },
        _ => r,
    }
}

/// The note on a measurement that failed and was skipped.
pub open spec fn skip_note(phase: Phase, e: Seq<char>) -> Seq<char> {
    "note: "@ + (match phase {
        Phase::GemmF16 => "fp16 GEMM"@,
        Phase::Bandwidth => "bandwidth"@,
        _ => "network probe"@,
    }) + " skipped ("@ + e + ")"@
}

/// A suite that is being run. The driver measures what [`Self::phase`] asks for
/// and hands the outcome to [`Self::record`], until the phase is `Done`.
#[derive(Debug, Clone, PartialEq, Eq)]
pub struct Suite {
    pub cfg: SuiteConfig,
    pub phase: Phase,
    pub report: Report,
}

/// A report without measurements.
pub open spec fn blank_report(device: DeviceInfo) -> Report {
    Report { device, gemm_fp32: None, gemm_fp16: None, bandwidth: None, network: None }
}

impl Suite {
    /// A suite at its start.
    pub fn new(device: DeviceInfo, cfg: SuiteConfig) -> (r: Self)
        ensures
            r.cfg == cfg,
            r.phase == Phase::GemmF32,
            r.report == blank_report(device),
    {
        Suite {
            cfg,
            phase: Phase::GemmF32,
            report: Report {
                device,
                gemm_fp32: None,
                gemm_fp16: None,
                bandwidth: None,
                network: None,
            },
        }
    }

    /// The precision of the product that the phase asks for.
    pub fn precision(&self) -> (r: Precision)
        ensures
            r == (if self.phase is GemmF16 {
                Precision::F16
            } else {
                Precision::F32
            }),
    {
        match self.phase {
            Phase::GemmF16 => Precision::F16,
            _ => Precision::F32,
        }
    }

    /// Enters what the measurement of the phase came to and goes on to the next
    /// phase. The product in full precision must succeed, or the suite fails; the
    /// others are left out when they fail, and a note says so.
    pub fn record(&mut self, outcome: Outcome) -> (r: Result<Option<String>, String>)
        requires
            fits(old(self).phase, outcome),
        ensures
            final(self).cfg == old(self).cfg,
            match outcome {
                Outcome::Failed(e) => if old(self).phase is GemmF32 {
                    r matches Err(x) && x@ == e@ && *final(self) == *old(self)
                } else {
                    r matches Ok(Some(note)) && note@ == skip_note(old(self).phase, e@)
                        && final(self).report == old(self).report && final(self).phase
                        == phase_after(old(self).phase, old(self).cfg)
                },
                _ => r == Ok::<Option<String>, String>(None) && final(self).report == entered(
                    old(self).report,
                    old(self).phase,
                    outcome,
                ) && final(self).phase == phase_after(old(self).phase, old(self).cfg),
            },
    {
        let next: Phase = match self.phase {
            Phase::GemmF32 => if self.cfg.include_fp16 {
                Phase::GemmF16
            } else {
                Phase::Bandwidth
            },
            Phase::GemmF16 => Phase::Bandwidth,
            Phase::Bandwidth => if self.cfg.include_network {
                Phase::Network
            } else {
                Phase::Done
            },
            Phase::Network => Phase::Done,
            Phase::Done => Phase::Done,
        };
        match outcome {
            Outcome::Failed(e) => {
                if self.phase == Phase::GemmF32 {
                    return Err(e);
                }
                let mut note = "note: ".to_owned();
                note.push_str(match self.phase {
                    Phase::GemmF16 => "fp16 GEMM",
                    Phase::Bandwidth => "bandwidth",
                    _ => "network probe",
                });
                note.push_str(" skipped (");
                note.push_str(e.as_str());
                note.push_str(")");
                self.phase = next;
                return Ok(Some(note));
            },
            Outcome::Gemm(g) => {
                if self.phase == Phase::GemmF32 {
                    self.report.gemm_fp32 = Some(g);
                } else {
                    self.report.gemm_fp16 = Some(g);
                }
            },
            Outcome::Bandwidth(b) => {
                self.report.bandwidth = Some(b);
            },
            Outcome::Network(n) => {
                self.report.network = Some(n);
            },
        }
        self.phase = next;
        Ok(None)
    }
}

/// The suite after an outcome that it goes on from.
pub open spec fn advanced(s: Suite, o: Outcome) -> Suite {
    Suite {
        cfg: s.cfg,
        phase: phase_after(s.phase, s.cfg),
        report: entered(s.report, s.phase, o),
    }
}

/// True while a suite keeps to its plan: past the first phase the product in full
/// precision is there, and what was not asked for is not.
pub open spec fn on_plan(s: Suite) -> bool {
    &&& s.report.gemm_fp32 is Some <==> !(s.phase is GemmF32)
    &&& !s.cfg.include_fp16 ==> s.report.gemm_fp16 is None && !(s.phase is GemmF16)
    &&& !s.cfg.include_network ==> s.report.network is None && !(s.phase is Network)
}

/// A suite keeps to its plan from its start to its end, so a suite that is done
/// has measured the product in full precision and nothing that was left out.
pub proof fn suite_stays_on_plan(s: Suite, o: Outcome)
    requires
        on_plan(s),
        fits(s.phase, o),
        !(s.phase is GemmF32 && o is Failed),
    ensures
        on_plan(advanced(s, o)),
{
}

/// Every suite comes to its end: each outcome brings it nearer.
pub proof fn suite_makes_progress(s: Suite, o: Outcome)
    requires
        fits(s.phase, o),
    ensures
        phases_left(advanced(s, o).phase) < phases_left(s.phase),
{
}

/// How many phases may still come.
pub open spec fn phases_left(p: Phase) -> nat {
    match p {
        Phase::GemmF32 => 4,
        Phase::GemmF16 => 3,
        Phase::Bandwidth => 2,
        Phase::Network => 1,
        Phase::Done => 0,
    }
}

} // verus!
