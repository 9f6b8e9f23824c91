//! Laws of what is shown: the lines of the command line, the tables of the benchmark,
//! and the names and amounts in them.

use vstd::prelude::*;
use vstd::std_specs::ops::{AddSpec, MulSpec, NegSpec, SubSpec};

use crate::bench::choice::{fallback_text, missing, native_of, BackendChoice, Build};
use crate::bench::kernels::{arg_or, groups_of};
use crate::bench::network::{summary_of, NetworkTexts};
use crate::bench::suite::{entered, phase_after, skip_note, Outcome, Phase, Report, SuiteConfig};
use crate::bench::tables::{
    bandwidth_rows, comparison_table, gemm_row, network_row, product_cell, single_table,
    stream_cell, BandwidthTexts, GemmTexts, ReportTexts, RowView,
};
use crate::bench::Precision;
use crate::cli::{
    endpoint_text, hint_of, offer_params, padded, runway_text, sats_text, stop_text,
    without_end_slashes, OffersArgs,
};
use crate::lightning::mock::{mock_bolt11, mock_hash};
use crate::model::{RentalKind, RentalStatus};
use crate::money::{total, Sats};
use crate::routes::tenant::deposit_text;
use crate::routes::tagged;
use crate::state::wrapped_sum;
use crate::text::{decimal, digits, hex, read_int};

verus! {

// The command line.

/// The base of an address is taken without the slashes at its end.
pub proof fn end_slashes_are_dropped(base: Seq<char>, slashes: Seq<char>)
    requires
        base.len() > 0 ==> base.last() != '/',
        forall|k: int| 0 <= k < slashes.len() ==> #[trigger] slashes[k] == '/',
    ensures
        without_end_slashes(base + slashes) == base,
    decreases slashes.len(),
{
    if slashes.len() == 0 {
        assert(base + slashes =~= base);
    } else {
        let rest = slashes.drop_last();
        assert((base + slashes).drop_last() =~= base + rest);
        assert((base + slashes).last() == slashes[slashes.len() - 1]);
        assert forall|k: int| 0 <= k < rest.len() implies #[trigger] rest[k] == '/' by {
            assert(slashes[k] == '/');
        }
        end_slashes_are_dropped(base, rest);
    }
}

/// A tenant is told how to reach a rental by host and port: a login for a box, an
/// address for a status page, and a request for a model, each under its own label of
/// eight characters.
pub proof fn a_rental_is_reached_by_host_and_port(host: Seq<char>, port: i32)
    ensures
        hint_of(RentalKind::Ssh, host, port) == (
            "SSH:"@,
            "ssh -p "@ + decimal(port as int) + " root@"@ + host,
        ),
        hint_of(RentalKind::HttpStatus, host, port) == (
            "Status:"@,
            "curl http://"@ + host + ":"@ + decimal(port as int) + "/"@,
        ),
        hint_of(RentalKind::HttpOpenai, host, port).0 == "LLM API:"@,
        ({
            let head = "curl http://"@ + host + ":"@ + decimal(port as int)
                + "/v1/chat/completions -H content-type:application/json -d '{\"messages\":[{\"role\":\"user\",\"content\":\"hi\"}],\"max_tokens\":64}'"@;
            hint_of(RentalKind::HttpOpenai, host, port).1 == head
        }),
{
}

/// The line that tells how to reach a rental has a label and a command once host and
/// port are known, and says so while they are not.
pub proof fn the_endpoint_is_shown_once_known(kind: RentalKind, host: Seq<char>, port: i32)
    ensures
        endpoint_text(kind, Some(host), Some(port)) == "  "@ + padded(hint_of(kind, host, port).0)
            + " "@ + hint_of(kind, host, port).1,
        endpoint_text(kind, None, Some(port)) == "  Endpoint: (pending — not running yet)"@,
        endpoint_text(kind, Some(host), None) == "  Endpoint: (pending — not running yet)"@,
        endpoint_text(kind, None, None) == "  Endpoint: (pending — not running yet)"@,
{
}

/// Padding adds spaces behind a text up to eight characters and changes nothing else.
pub proof fn padding_adds_spaces(s: Seq<char>)
    ensures
        s.len() >= 8 ==> padded(s) == s,
        s.len() < 8 ==> padded(s).len() == 8,
        padded(s).len() >= s.len(),
        padded(s).take(s.len() as int) == s,
        forall|k: int| s.len() <= k < padded(s).len() ==> #[trigger] padded(s)[k] == ' ',
    decreases 8 - s.len(),
{
    if s.len() < 8 {
        let t = s.push(' ');
        padding_adds_spaces(t);
        assert(padded(s) == padded(t));
        assert(padded(t).take(s.len() as int) =~= padded(t).take(t.len() as int).take(
            s.len() as int,
        ));
        assert(t.take(s.len() as int) =~= s);
        assert forall|k: int| s.len() <= k < padded(s).len() implies #[trigger] padded(s)[k]
            == ' ' by {
            if k == s.len() {
                assert(padded(t).take(t.len() as int)[k] == t[k]);
            }
        }
    } else {
        assert(s.take(s.len() as int) =~= s);
    }
}

/// A request for offers carries what was asked for and nothing else: each filter that
/// was given, under its own name and with its own value.
pub proof fn a_request_carries_what_was_asked(args: OffersArgs)
    ensures
        ({
            let gpu = if args.gpu is Some {
                seq![("gpu_name"@, args.gpu->0@)]
            } else {
                Seq::empty()
            };
            let vram = if args.min_vram_mb is Some {
                seq![("min_vram_mb"@, decimal(args.min_vram_mb->0 as int))]
            } else {
                Seq::empty()
            };
            let count = if args.min_gpu_count is Some {
                seq![("min_gpu_count"@, decimal(args.min_gpu_count->0 as int))]
            } else {
                Seq::empty()
            };
            let rate = if args.max_rate is Some {
                seq![("max_rate_sats_per_min"@, decimal(args.max_rate->0 as int))]
            } else {
                Seq::empty()
            };
            let sort = if args.sort is Some {
                seq![("sort"@, args.sort->0@)]
            } else {
                Seq::empty()
            };
            let limit = if args.limit is Some {
                seq![("limit"@, decimal(args.limit->0 as int))]
            } else {
                Seq::empty()
            };
            offer_params(args) =~= gpu + vram + count + rate + sort + limit
        }),
{
}

/// Amounts and answers are shown with the numbers that they are about.
pub proof fn numbers_are_shown_as_they_are(
    n: i64,
    btc: Seq<char>,
    usd: Seq<char>,
    status: Seq<char>,
)
    ensures
        sats_text(n, btc, usd) == decimal(n as int) + " sats  (≈ "@ + btc + " BTC ≈ $"@ + usd
            + ")"@,
        runway_text(Some(n)) == "  Runway:  "@ + decimal(n as int) + " minutes"@,
        runway_text(None) == "  Runway:  — (no running rentals)"@,
        stop_text(n, Some(status)) == "Rental "@ + decimal(n as int) + " -> "@ + status
            + " (stop queued)"@,
        stop_text(n, None) == "Rental "@ + decimal(n as int) + " -> "@ + "evicting"@
            + " (stop queued)"@,
{
}

// Amounts, names and ids.

/// Amounts are added, subtracted, negated and multiplied by minutes exactly, and a sum
/// is told amount by amount.
pub proof fn amounts_are_exact(a: i64, b: i64, amounts: Seq<Sats>)
    ensures
        i64::MIN <= a + b <= i64::MAX ==> Sats(a).add_spec(Sats(b)).0 == a + b,
        i64::MIN <= a - b <= i64::MAX ==> Sats(a).sub_spec(Sats(b)).0 == a - b,
        i64::MIN <= a * b <= i64::MAX ==> Sats(a).mul_spec(b).0 == a * b,
        a > i64::MIN ==> Sats(a).neg_spec().0 == -a,
        total(Seq::empty()) == 0,
        total(amounts.push(Sats(a))) == total(amounts) + a,
{
    assert(amounts.push(Sats(a)).drop_last() =~= amounts);
}

/// A clock that is advanced shows the sum, and beyond the range of timestamps the sum
/// less or more the whole range.
pub proof fn a_clock_advances_by_what_it_is_told(t: i64, secs: i64)
    ensures
        i64::MIN <= t + secs <= i64::MAX ==> wrapped_sum(t, secs) == t + secs,
        t + secs > i64::MAX ==> wrapped_sum(t, secs) == t + secs - 0x1_0000_0000_0000_0000,
        t + secs < i64::MIN ==> wrapped_sum(t, secs) == t + secs + 0x1_0000_0000_0000_0000,
{
}

/// A rental holds its machine while it is being made, runs or is being evicted, and it
/// has ended when it has stopped or failed: one or the other, never both. Its status
/// has one name.
pub proof fn a_rental_holds_its_machine_until_it_ends(s: RentalStatus)
    ensures
        s.occupies() <==> s == RentalStatus::Provisioning || s == RentalStatus::Running || s
            == RentalStatus::Evicting,
        s.ended() <==> s == RentalStatus::Stopped || s == RentalStatus::Failed,
        s.occupies() <==> !s.ended(),
        RentalStatus::Provisioning.name() == "provisioning"@,
        RentalStatus::Running.name() == "running"@,
        RentalStatus::Evicting.name() == "evicting"@,
        RentalStatus::Stopped.name() == "stopped"@,
        RentalStatus::Failed.name() == "failed"@,
{
}

/// Invoices and ids are told apart by their numbers: the hash of an invoice without a
/// node is its number in hexadecimal, its request names amount and number, a token is
/// a tag with the id behind it, and a deposit names its account.
pub proof fn ids_hold_their_numbers(sats: i64, n: u64, tag: Seq<char>, account: Seq<char>)
    ensures
        mock_hash(n) == hex(n as nat, 64),
        mock_bolt11(sats, n) == "lnbcmock"@ + decimal(sats as int) + "n"@ + digits(n as nat),
        tagged(tag, n) == tag + hex(n as nat, 16),
        deposit_text(account) == "deposit for "@ + account,
{
}

// The benchmark.

/// Groups of a size cover all items, and none lies wholly behind them.
pub proof fn groups_cover_the_items(n: int, size: int)
    requires
        n >= 0,
        size > 0,
    ensures
        groups_of(n, size) * size >= n,
        n > 0 ==> (groups_of(n, size) - 1) * size < n,
        n == 0 ==> groups_of(n, size) == 0,
{
    let g = groups_of(n, size);
    let x = n + size - 1;
    vstd::arithmetic::div_mod::lemma_fundamental_div_mod(x, size);
    assert(g * size >= n && (g - 1) * size < n || n == 0) by (nonlinear_arith)
        requires
            x == size * g + x % size,
            0 <= x % size < size,
            x == n + size - 1,
    ;
    if n == 0 {
        vstd::arithmetic::div_mod::lemma_small_mod((size - 1) as nat, size as nat);
        assert(g == 0) by (nonlinear_arith)
            requires
                x == size * g + x % size,
                x % size == x,
                size > 0,
        ;
        assert(0 * size == 0);
    }
}

/// A worker takes the number that it is given, and what it would have without one only
/// where there is none or it is too large.
pub proof fn a_worker_takes_what_it_is_given(arg: Seq<char>, max: int, default: int)
    ensures
        arg_or(None, max, default) == default,
        read_int(arg, false) is Some && read_int(arg, false)->0 <= max ==> arg_or(
            Some(arg),
            max,
            default,
        ) == read_int(arg, false)->0,
        read_int(arg, false) is None || read_int(arg, false)->0 > max ==> arg_or(
            Some(arg),
            max,
            default,
        ) == default,
{
}

/// The best backend of a build is chosen, NVIDIA's before Apple's before the portable
/// one; a backend by name is missing only where the build lacks it.
pub proof fn the_best_backend_is_chosen(build: Build, e: Seq<char>)
    ensures
        build.cuda ==> native_of(build) == BackendChoice::Cuda,
        !build.cuda && build.macos ==> native_of(build) == BackendChoice::Metal,
        !build.cuda && !build.macos ==> native_of(build) == BackendChoice::Wgpu,
        missing(BackendChoice::Metal, build) is None <==> build.macos,
        missing(BackendChoice::Cuda, build) is None <==> build.cuda,
        missing(BackendChoice::Wgpu, build) is None,
        missing(BackendChoice::Auto, build) is None,
        missing(native_of(build), build) is None,
        fallback_text(BackendChoice::Cuda, e) == "auto backend: "@ + "cuBLAS"@ + " unavailable ("@
            + e + "); falling back to wgpu"@,
        fallback_text(BackendChoice::Metal, e) == "auto backend: "@ + "Metal"@ + " unavailable ("@
            + e + "); falling back to wgpu"@,
{
}

/// A suite measures what was asked for, in order: products in full and, if asked for, in
/// half precision, the bandwidth, and if asked for the network. A measurement goes into
/// its own place of the report and no other, and one that failed goes nowhere.
pub proof fn a_suite_measures_in_order(cfg: SuiteConfig, r: Report, phase: Phase, o: Outcome)
    ensures
        cfg.include_fp16 ==> phase_after(Phase::GemmF32, cfg) == Phase::GemmF16,
        !cfg.include_fp16 ==> phase_after(Phase::GemmF32, cfg) == Phase::Bandwidth,
        phase_after(Phase::GemmF16, cfg) == Phase::Bandwidth,
        cfg.include_network ==> phase_after(Phase::Bandwidth, cfg) == Phase::Network,
        !cfg.include_network ==> phase_after(Phase::Bandwidth, cfg) == Phase::Done,
        phase_after(Phase::Network, cfg) == Phase::Done,
        o is Failed ==> entered(r, phase, o) == r,
        entered(r, phase, o).device == r.device,
        entered(r, phase, o).gemm_fp32 == (if phase == Phase::GemmF32 && o is Gemm {
            Some(o->Gemm_0)
        } else {
            r.gemm_fp32
        }),
        entered(r, phase, o).gemm_fp16 == (if phase == Phase::GemmF16 && o is Gemm {
            Some(o->Gemm_0)
        } else {
            r.gemm_fp16
        }),
        entered(r, phase, o).bandwidth == (if phase == Phase::Bandwidth && o is Bandwidth {
            Some(o->Bandwidth_0)
        } else {
            r.bandwidth
        }),
        entered(r, phase, o).network == (if phase == Phase::Network && o is Network {
            Some(o->Network_0)
        } else {
            r.network
        }),
{
}

/// What was skipped is named with its reason.
pub proof fn what_was_skipped_is_named(e: Seq<char>)
    ensures
        skip_note(Phase::GemmF16, e) == "note: "@ + "fp16 GEMM"@ + " skipped ("@ + e + ")"@,
        skip_note(Phase::Bandwidth, e) == "note: "@ + "bandwidth"@ + " skipped ("@ + e + ")"@,
        skip_note(Phase::Network, e) == "note: "@ + "network probe"@ + " skipped ("@ + e + ")"@,
{
}

/// The row of a product names its precision, its throughput, its size, its runs and its
/// time, and says whether the product was right.
pub proof fn a_product_is_shown_in_full(g: GemmTexts)
    ensures
        ({
            let row = gemm_row(g);
            let runs = "n="@ + digits(g.n as nat) + ", "@ + digits(g.iterations as nat)
                + " iters, "@ + g.seconds@ + "s"@;
            &&& g.precision == Precision::F32 ==> row.a == "GEMM "@ + "fp32"@
            &&& g.precision == Precision::F16 ==> row.a == "GEMM "@ + "fp16"@
            &&& row.b == g.tflops@ + " TFLOP/s"@
            &&& g.verified ==> row.c == runs + ", verified"@
            &&& !g.verified ==> row.c == runs + " — UNVERIFIED"@
        }),
        g.verified ==> product_cell(Some(g)) == g.tflops@ + " TFLOP/s"@,
        !g.verified ==> product_cell(Some(g)) == g.tflops@ + " TFLOP/s (unverified)"@,
        product_cell(None) == "n/a"@,
{
}

/// The rows of the bandwidth and of the network show their readings.
pub proof fn readings_are_shown_in_full(b: BandwidthTexts, t: NetworkTexts)
    ensures
        bandwidth_rows(Some(b)) == seq![
            RowView {
                a: "Memory bandwidth"@,
                b: b.gb_per_s@ + " GB/s"@,
                c: b.mb_per_iter@ + " MB/iter, "@ + digits(b.iterations as nat) + " iters, "@
                    + b.seconds@ + "s"@,
            },
        ],
        stream_cell(Some(b)) == b.gb_per_s@ + " GB/s"@,
        stream_cell(None) == "n/a"@,
        network_row(Some(t)) == (RowView {
            a: "Network"@,
            b: t.down@ + "↓ / "@ + t.up@ + "↑ Mbps"@,
            c: "latency "@ + t.latency@ + " ms (speed.cloudflare.com)"@,
        }),
        network_row(None) == (RowView {
            a: "Network"@,
            b: "n/a"@,
            c: "probe failed (offline?)"@,
        }),
        summary_of(Some(t)) == "Network: "@ + t.down@ + "↓ / "@ + t.up@ + "↑ Mbps, latency "@
            + t.latency@ + " ms"@,
        summary_of(None) == "Network: probe failed (offline?)"@,
{
}

/// The table of a run has a row for each measurement that there is, in the order of the
/// suite; a product in half precision that was asked for and is missing is said to be
/// unsupported; the network always has a row. A comparison shows both backends side by
/// side.
pub proof fn a_table_has_a_row_for_each_measurement(
    r: ReportTexts,
    other: ReportTexts,
    skip_fp16: bool,
)
    ensures
        ({
            let full = if r.gemm_fp32 is Some {
                seq![gemm_row(r.gemm_fp32->0)]
            } else {
                Seq::empty()
            };
            let half = if r.gemm_fp16 is Some {
                seq![gemm_row(r.gemm_fp16->0)]
            } else if skip_fp16 {
                Seq::empty()
            } else {
                seq![
                    RowView {
                        a: "GEMM fp16"@,
                        b: "n/a"@,
                        c: "not supported on this device"@,
                    },
                ]
            };
            single_table(r, skip_fp16) =~= full + half + bandwidth_rows(r.bandwidth) + seq![
                network_row(r.network),
            ]
        }),
        r.bandwidth is None ==> bandwidth_rows(r.bandwidth) == Seq::<RowView>::empty(),
        ({
            let full = RowView {
                a: "GEMM fp32"@,
                b: product_cell(r.gemm_fp32),
                c: product_cell(other.gemm_fp32),
            };
            let half = RowView {
                a: "GEMM fp16"@,
                b: product_cell(r.gemm_fp16),
                c: product_cell(other.gemm_fp16),
            };
            let stream = RowView {
                a: "Memory bandwidth"@,
                b: stream_cell(r.bandwidth),
                c: stream_cell(other.bandwidth),
            };
            &&& skip_fp16 ==> comparison_table(r, other, skip_fp16) =~= seq![full, stream]
            &&& !skip_fp16 ==> comparison_table(r, other, skip_fp16) =~= seq![full, half, stream]
        }),
{
}

} // verus!
