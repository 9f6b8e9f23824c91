//! A vendor-neutral GPU benchmark: what is measured, in which order, on which
//! backend, and how the results are shown. Readings are kept as bit patterns; the
//! measuring itself is done by whoever drives the suite.

pub mod choice;
pub mod kernels;
pub mod network;
pub mod suite;
pub mod tables;

use vstd::prelude::*;

use crate::model::Measure;

verus! {

/// Numeric precision of a matrix product.
#[derive(Debug, Clone, Copy, PartialEq, Eq, Structural)]
pub enum Precision {
    F32,
    F16,
}

impl Precision {
    /// Bytes per scalar element.
    pub fn size(self) -> (r: u64)
        ensures
            r == (match self {
                Precision::F32 => 4u64,
                Precision::F16 => 2u64,
            }),
    {
        match self {
            Precision::F32 => 4,
            Precision::F16 => 2,
        }
    }

    pub fn as_str(self) -> (r: &'static str)
        ensures
            r@ == (match self {
                Precision::F32 => "fp32"@,
                Precision::F16 => "fp16"@,
            }),
    {
        match self {
            Precision::F32 => "fp32",
            Precision::F16 => "fp16",
        }
    }
}

/// A compute device that a backend can target.
#[derive(Debug, Clone, PartialEq, Eq)]
pub struct DeviceInfo {
    pub name: String,
    /// The interface by which it is reached, such as "Metal", "Vulkan" or "CUDA".
    pub backend: String,
    pub device_type: String,
}

/// Result of a matrix-product run.
#[derive(Debug, Clone, PartialEq, Eq)]
pub struct GemmResult {
    pub device: String,
    pub backend: String,
    pub precision: Precision,
    /// Dimension of the square matrices.
    pub n: u32,
    pub iterations: u32,
    pub seconds: Measure,
    pub tflops: Measure,
    /// Whether the product was right; if not, the throughput means nothing.
    pub verified: bool,
}

/// Result of a memory-bandwidth run.
#[derive(Debug, Clone, PartialEq, Eq)]
pub struct BandwidthResult {
    pub device: String,
    pub backend: String,
    /// Bytes moved per iteration, reads and writes.
    pub bytes_per_iter: u64,
    pub iterations: u32,
    pub seconds: Measure,
    pub gb_per_s: Measure,
}

/// Result of a network probe.
#[derive(Debug, Clone, Copy, PartialEq, Eq, Structural)]
pub struct NetworkResult {
    pub down_mbps: Measure,
    pub up_mbps: Measure,
    pub latency_ms: Measure,
}

/// Why there is no MLX backend.
pub open spec fn mlx_unimplemented() -> Seq<char> {
    "the MLX backend is not implemented yet — it needs `cmake` and the `mlx-rs` dependency (see crates/gpu-bench/src/mlx_backend.rs)"@
}

fn mlx_refusal() -> (r: String)
    ensures
        r@ == mlx_unimplemented(),
{
    "the MLX backend is not implemented yet — it needs `cmake` and the `mlx-rs` dependency (see crates/gpu-bench/src/mlx_backend.rs)".to_owned()
}

/// The place of an MLX backend. None can be made yet.
#[derive(Debug, Clone, Copy, PartialEq, Eq, Structural)]
pub struct MlxBackend;

impl MlxBackend {
    pub fn new() -> (r: Result<Self, String>)
        ensures
            r matches Err(e) && e@ == mlx_unimplemented(),
    {
        Err(mlx_refusal())
    }

    pub fn gemm(&self, _n: u32, _p: Precision, _warmup: u32, _iters: u32) -> (r: Result<
        GemmResult,
        String,
    >)
        ensures
            r matches Err(e) && e@ == mlx_unimplemented(),
    {
        Err(mlx_refusal())
    }

    pub fn bandwidth(&self, _elements: u64, _warmup: u32, _iters: u32) -> (r: Result<
        BandwidthResult,
        String,
    >)
        ensures
            r matches Err(e) && e@ == mlx_unimplemented(),
    {
        Err(mlx_refusal())
    }
}

} // verus!
