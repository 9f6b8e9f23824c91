//! Sizes of the compute kernels: what a backend accepts, how its work is cut into
//! groups, and how many bytes it moves. Also the status page of the worker that
//! runs matrix products for tenants.

use vstd::prelude::*;
use vstd::utf8::encode_utf8;

use super::Precision;
use crate::db::opt_str;
use crate::text::{
    all_digits, behind_sign, digits, lemma_digits_value_nonnegative, parse_int, push_digits,
    read_int,
};

verus! {

/// Groups of `size` that cover `n` items.
pub open spec fn groups_of(n: int, size: int) -> int {
    (n + size - 1) / size
}

/// The groups that cover the rows, and the columns, of a product: one for each
/// tile of sixteen.
pub fn tile_groups(n: u32) -> (r: u32)
    ensures
        r == groups_of(n as int, 16),
{
    if n % 16 == 0 {
        n / 16
    } else {
        n / 16 + 1
    }
}

/// The groups cover the matrix, and none lies wholly outside it.
pub proof fn tiles_cover_the_matrix(n: u32)
    ensures
        groups_of(n as int, 16) * 16 >= n,
        n > 0 ==> (groups_of(n as int, 16) - 1) * 16 < n,
{
}

/// The groups of a bandwidth run: one for every 256 elements, up to the limit of a
/// dispatch. The number of elements is cut to 32 bits first.
pub fn triad_groups(elements: u64) -> (r: u32)
    ensures
        r == (if groups_of(elements as int % 0x1_0000_0000, 256) < 65535 {
            groups_of(elements as int % 0x1_0000_0000, 256)
        } else {
            65535
        }),
{
    let n: u32 = (elements % 0x1_0000_0000) as u32;
    let groups: u32 = if n % 256 == 0 { n / 256 } else { n / 256 + 1 };
    if groups < 65535 {
        groups
    } else {
        65535
    }
}

/// Bytes that one pass of the portable bandwidth kernel moves: two reads and a
/// write of four bytes per element.
pub fn triad_bytes(elements: u64) -> (r: u64)
    requires
        elements * 12 <= u64::MAX,
    ensures
        r == elements * 12,
{
    elements * 3 * 4
}

/// Bytes that one copy on the Metal backend moves: a read and a write of four
/// bytes per element.
pub fn blit_bytes(elements: u64) -> (r: u64)
    requires
        elements * 8 <= u64::MAX,
    ensures
        r == elements * 8,
{
    elements * 4 * 2
}

/// What the portable backend says to a product.
pub open spec fn portable_gemm_refusal(n: u32, precision: Precision) -> Option<Seq<char>> {
    if !(precision is F32) {
        Some("the wgpu backend currently supports only fp32 GEMM; fp16 is the next step"@)
    } else if n == 0 {
        Some("n must be > 0"@)
    } else {
        None
    }
}

/// Checks a product for the portable backend.
pub fn check_portable_gemm(n: u32, precision: Precision) -> (r: Result<(), String>)
    ensures
        match portable_gemm_refusal(n, precision) {
            Some(e) => r matches Err(x) && x@ == e,
            None => r is Ok,
        },
{
    if precision != Precision::F32 {
        return Err(
            "the wgpu backend currently supports only fp32 GEMM; fp16 is the next step".to_owned(),
        );
    }
    if n == 0 {
        return Err("n must be > 0".to_owned());
    }
    Ok(())
}

/// Checks a bandwidth run for the portable backend.
pub fn check_portable_bandwidth(elements: u64) -> (r: Result<(), String>)
    ensures
        match r {
            Ok(_) => elements > 0,
            Err(e) => elements == 0 && e@ == "elements must be > 0"@,
        },
{
    if elements == 0 {
        Err("elements must be > 0".to_owned())
    } else {
        Ok(())
    }
}

/// Checks a product for the Metal backend, whose tiles are eight by eight.
pub fn check_metal_gemm(n: u32) -> (r: Result<(), String>)
    ensures
        match r {
            Ok(_) => n >= 8 && n % 8 == 0,
            Err(e) => !(n >= 8 && n % 8 == 0) && e@
                == "the Metal backend needs n to be a positive multiple of 8 (got "@ + digits(
                n as nat,
            ) + ")"@,
        },
{
    if n >= 8 && n % 8 == 0 {
        return Ok(());
    }
    let mut e = "the Metal backend needs n to be a positive multiple of 8 (got ".to_owned();
    push_digits(&mut e, n as u64);
    e.push_str(")");
    Err(e)
}

/// Checks a product for the cuBLAS backend.
pub fn check_cublas_gemm(n: u32) -> (r: Result<(), String>)
    ensures
        match r {
            Ok(_) => n > 0,
            Err(e) => n == 0 && e@ == "n must be > 0"@,
        },
{
    if n == 0 {
        Err("n must be > 0".to_owned())
    } else {
        Ok(())
    }
}

/// Checks the size of a tenant's matrix worker.
pub fn check_worker(n: u32) -> (r: Result<(), String>)
    ensures
        match r {
            Ok(_) => n >= 8 && n % 8 == 0,
            Err(e) => !(n >= 8 && n % 8 == 0) && e@ == "n must be a multiple of 8 (got "@ + digits(
                n as nat,
            ) + ")"@,
        },
{
    if n >= 8 && n % 8 == 0 {
        return Ok(());
    }
    let mut e = "n must be a multiple of 8 (got ".to_owned();
    push_digits(&mut e, n as u64);
    e.push_str(")");
    Err(e)
}

/// A number read from an optional argument, or a default.
pub open spec fn arg_or(arg: Option<Seq<char>>, max: int, default: int) -> int {
    match arg {
        Some(a) => match read_int(a, false) {
            Some(v) => if v <= max {
                v
            } else {
                default
            },
            None => default,
        },
        None => default,
    }
}

fn number_or(arg: Option<&str>, max: i64, default: i64) -> (r: i64)
    requires
        0 <= default <= max,
    ensures
        r == arg_or(opt_str(arg), max as int, default as int),
        0 <= r <= max,
{
    match arg {
        Some(a) => {
            proof {
                let body = behind_sign(a@, false);
                if all_digits(body) {
                    lemma_digits_value_nonnegative(body);
                }
            }
            match parse_int(a, false, 0, max) {
                Some(v) => v,
                None => default,
            }
        },
        None => default,
    }
}

/// The matrix size and the port of a worker, from its two arguments.
pub fn worker_args(n: Option<&str>, port: Option<&str>) -> (r: (u32, u16))
    ensures
        r.0 == arg_or(opt_str(n), u32::MAX as int, 2048),
        r.1 == arg_or(opt_str(port), u16::MAX as int, 40000),
{
    (number_or(n, u32::MAX as i64, 2048) as u32, number_or(port, u16::MAX as i64, 40000) as u16)
}

/// The body of a worker's status page. `tflops` is a decimal text.
pub fn status_body(n: u32, iters: u64, tflops: &str) -> (r: String)
    ensures
        r@ == "{\"task\":\"gemm-fp16\",\"n\":"@ + digits(n as nat) + ",\"iters\":"@ + digits(
            iters as nat,
        ) + ",\"tflops\":"@ + tflops@ + "}"@,
{
    let mut s = "{\"task\":\"gemm-fp16\",\"n\":".to_owned();
    push_digits(&mut s, n as u64);
    s.push_str(",\"iters\":");
    push_digits(&mut s, iters);
    s.push_str(",\"tflops\":");
    s.push_str(tflops);
    s.push_str("}");
    s
}

/// The status page as an HTTP response, with the length of its body in bytes.
pub fn status_response(body: &str) -> (r: String)
    ensures
        r@
            == "HTTP/1.1 200 OK\r\ncontent-type: application/json\r\ncontent-length: "@ + digits(
            encode_utf8(body@).len(),
        ) + "\r\nconnection: close\r\n\r\n"@ + body@,
{
    let mut s = "HTTP/1.1 200 OK\r\ncontent-type: application/json\r\ncontent-length: ".to_owned();
    let bytes: &[u8] = body.as_bytes();
    push_digits(&mut s, bytes.len() as u64);
    s.push_str("\r\nconnection: close\r\n\r\n");
    s.push_str(body);
    s
}

/// The number of elements of a square matrix.
pub fn matrix_elems(n: u32) -> (r: u64)
    ensures
        r == n * n,
{
    proof {
        assert(n * n <= 0xffff_ffff * 0xffff_ffff) by (nonlinear_arith)
            requires
                n <= 0xffff_ffff,
        ;
    }
    (n as u64) * (n as u64)
}

/// What the portable backend does for a product: the elements of each matrix, the
/// bytes of the result, and the groups by rows and columns. The product is run
/// once before the timing only if a warm-up is asked for.
#[derive(Debug, Clone, Copy, PartialEq, Eq, Structural)]
pub struct GemmPlan {
    pub elems: u64,
    pub result_bytes: u64,
    pub groups: u32,
    pub warm_up: bool,
}

/// Plans a product on the portable backend.
pub fn plan_portable_gemm(n: u32, precision: Precision, warmup: u32) -> (r: Result<GemmPlan, String>)
    requires
        portable_gemm_refusal(n, precision) is None ==> n * n * 4 <= u64::MAX,
    ensures
        match portable_gemm_refusal(n, precision) {
            Some(e) => r matches Err(x) && x@ == e,
            None => r == Ok::<GemmPlan, String>(
                GemmPlan {
                    elems: (n * n) as u64,
                    result_bytes: (n * n * 4) as u64,
                    groups: groups_of(n as int, 16) as u32,
                    warm_up: warmup > 0,
                },
            ),
        },
{
    match check_portable_gemm(n, precision) {
        Ok(_) => {},
        Err(e) => {
            return Err(e);
        },
    }
    let elems: u64 = matrix_elems(n);
    Ok(
        GemmPlan {
            elems,
            result_bytes: elems * precision.size(),
            groups: tile_groups(n),
            warm_up: warmup > 0,
        },
    )
}

/// What the portable backend does for a bandwidth run.
#[derive(Debug, Clone, Copy, PartialEq, Eq, Structural)]
pub struct BandwidthPlan {
    pub buffer_bytes: u64,
    pub groups: u32,
    pub bytes_per_iter: u64,
    pub warm_up: bool,
}

/// Plans a bandwidth run on the portable backend.
pub fn plan_portable_bandwidth(elements: u64, warmup: u32) -> (r: Result<BandwidthPlan, String>)
    requires
        elements * 12 <= u64::MAX,
    ensures
        match r {
            Ok(p) => {
                &&& elements > 0
                &&& p.buffer_bytes == elements * 4
                &&& p.groups == (if groups_of(elements as int % 0x1_0000_0000, 256) < 65535 {
                    groups_of(elements as int % 0x1_0000_0000, 256)
                } else {
                    65535
                })
                &&& p.bytes_per_iter == elements * 12
                &&& p.warm_up == (warmup > 0)
            },
            Err(e) => elements == 0 && e@ == "elements must be > 0"@,
        },
{
    match check_portable_bandwidth(elements) {
        Ok(_) => {},
        Err(e) => {
            return Err(e);
        },
    }
    Ok(
        BandwidthPlan {
            buffer_bytes: elements * 4,
            groups: triad_groups(elements),
            bytes_per_iter: triad_bytes(elements),
            warm_up: warmup > 0,
        },
    )
}

/// What the Metal backend does for a product: the elements of each matrix, the
/// bytes of an input and of the result, and the tiles by rows and columns.
#[derive(Debug, Clone, Copy, PartialEq, Eq, Structural)]
pub struct TilePlan {
    pub elems: u64,
    pub input_bytes: u64,
    pub result_bytes: u64,
    pub tiles: u32,
    pub warm_up: bool,
}

/// Plans a product on the Metal backend. The result is always in full precision.
pub fn plan_metal_gemm(n: u32, precision: Precision, warmup: u32) -> (r: Result<TilePlan, String>)
    requires
        n >= 8 && n % 8 == 0 ==> n * n * 4 <= u64::MAX,
    ensures
        match r {
            Ok(p) => {
                &&& n >= 8 && n % 8 == 0
                &&& p.elems == n * n
                &&& p.input_bytes == n * n * (if precision is F32 { 4int } else { 2int })
                &&& p.result_bytes == n * n * 4
                &&& p.tiles * 8 == n
                &&& p.warm_up == (warmup > 0)
            },
            Err(e) => !(n >= 8 && n % 8 == 0) && e@
                == "the Metal backend needs n to be a positive multiple of 8 (got "@ + digits(
                n as nat,
            ) + ")"@,
        },
{
    match check_metal_gemm(n) {
        Ok(_) => {},
        Err(e) => {
            return Err(e);
        },
    }
    let elems: u64 = matrix_elems(n);
    let input_bytes: u64 = match precision {
        Precision::F32 => elems * 4,
        Precision::F16 => elems * 2,
    };
    Ok(
        TilePlan {
            elems,
            input_bytes,
            result_bytes: elems * 4,
            tiles: n / 8,
            warm_up: warmup > 0,
        },
    )
}

} // verus!
