//! The tables in which a run's results are shown. Readings come as decimal texts.

use vstd::prelude::*;

use super::choice::{bandwidth_cell, gemm_detail, tflops_cell};
use super::network::NetworkTexts;
use super::Precision;
use crate::text::{digits, push_digits};

verus! {

/// A product's result with its readings as texts.
#[derive(Debug, Clone, PartialEq, Eq)]
pub struct GemmTexts {
    pub precision: Precision,
    pub tflops: String,
    pub n: u32,
    pub iterations: u32,
    pub seconds: String,
    pub verified: bool,
}

/// A bandwidth result with its readings as texts.
#[derive(Debug, Clone, PartialEq, Eq)]
pub struct BandwidthTexts {
    pub gb_per_s: String,
    pub mb_per_iter: String,
    pub iterations: u32,
    pub seconds: String,
}

/// A suite's results with their readings as texts.
#[derive(Debug, Clone, PartialEq, Eq)]
pub struct ReportTexts {
    pub gemm_fp32: Option<GemmTexts>,
    pub gemm_fp16: Option<GemmTexts>,
    pub bandwidth: Option<BandwidthTexts>,
    pub network: Option<NetworkTexts>,
}

/// A table row of three cells.
#[derive(Debug, Clone, PartialEq, Eq)]
pub struct Row {
    pub a: String,
    pub b: String,
    pub c: String,
}

/// What [`Row`] holds, with its texts as character sequences.
#[verifier::ext_equal]
pub struct RowView {
    pub a: Seq<char>,
    pub b: Seq<char>,
    pub c: Seq<char>,
}

impl View for Row {
    type V = RowView;

    open spec fn view(&self) -> RowView {
        RowView { a: self.a@, b: self.b@, c: self.c@ }
    }
}

/// The rows of a table, each by its view.
pub open spec fn row_views(s: Seq<Row>) -> Seq<RowView> {
    s.map_values(|r: Row| r@)
}

/// A row of three cells.
pub open spec fn cells(a: Seq<char>, b: Seq<char>, c: Seq<char>) -> RowView {
    RowView { a, b, c }
}

/// The name of a precision.
pub open spec fn precision_name(p: Precision) -> Seq<char> {
    match p {
        Precision::F32 => "fp32"@,
        Precision::F16 => "fp16"@,
    }
}

/// The row of a product.
pub open spec fn gemm_row(g: GemmTexts) -> RowView {
    cells(
        "GEMM "@ + precision_name(g.precision),
        g.tflops@ + " TFLOP/s"@,
        "n="@ + digits(g.n as nat) + ", "@ + digits(g.iterations as nat) + " iters, "@ + g.seconds@
            + "s"@ + (if g.verified {
            ", verified"@
        } else {
            " — UNVERIFIED"@
        }),
    )
}

/// The rows of a product, if it was measured.
pub open spec fn gemm_rows(g: Option<GemmTexts>) -> Seq<RowView> {
    match g {
        Some(g) => seq![gemm_row(g)],
        None => Seq::empty(),
    }
}

/// The row of a half-precision product that the device does not support.
pub open spec fn unsupported_rows(r: ReportTexts, skip_fp16: bool) -> Seq<RowView> {
    if r.gemm_fp16 is None && !skip_fp16 {
        seq![cells("GEMM fp16"@, "n/a"@, "not supported on this device"@)]
    } else {
        Seq::empty()
    }
}

/// The row of the memory bandwidth, if it was measured.
pub open spec fn bandwidth_rows(b: Option<BandwidthTexts>) -> Seq<RowView> {
    match b {
        Some(b) => seq![
            cells(
                "Memory bandwidth"@,
                b.gb_per_s@ + " GB/s"@,
                b.mb_per_iter@ + " MB/iter, "@ + digits(b.iterations as nat) + " iters, "@
                    + b.seconds@ + "s"@,
            ),
        ],
        None => Seq::empty(),
    }
}

/// The row of the network.
pub open spec fn network_row(nw: Option<NetworkTexts>) -> RowView {
    match nw {
        Some(t) => cells(
            "Network"@,
            t.down@ + "↓ / "@ + t.up@ + "↑ Mbps"@,
            "latency "@ + t.latency@ + " ms (speed.cloudflare.com)"@,
        ),
        None => cells("Network"@, "n/a"@, "probe failed (offline?)"@),
    }
}

/// The table of a run on one backend: measurement, value and detail.
pub open spec fn single_table(r: ReportTexts, skip_fp16: bool) -> Seq<RowView> {
    gemm_rows(r.gemm_fp32) + gemm_rows(r.gemm_fp16) + unsupported_rows(r, skip_fp16)
        + bandwidth_rows(r.bandwidth) + seq![network_row(r.network)]
}

fn push_row(rows: &mut Vec<Row>, a: String, b: String, c: String)
    ensures
        row_views(final(rows)@) == row_views(old(rows)@).push(cells(a@, b@, c@)),
{
    rows.push(Row { a, b, c });
    proof {
        assert(row_views(rows@) =~= row_views(old(rows)@).push(cells(a@, b@, c@)));
    }
}

fn push_gemm(rows: &mut Vec<Row>, gemm: &Option<GemmTexts>)
    ensures
        row_views(final(rows)@) == row_views(old(rows)@) + gemm_rows(*gemm),
{
    if let Some(g) = gemm {
        let mut name = "GEMM ".to_owned();
        name.push_str(g.precision.as_str());
        let mut value = g.tflops.clone();
        value.push_str(" TFLOP/s");
        let detail = gemm_detail(g.n, g.iterations, g.seconds.as_str(), g.verified);
        push_row(rows, name, value, detail);
        proof {
            assert(row_views(rows@) =~= row_views(old(rows)@) + gemm_rows(*gemm));
        }
    } else {
        proof {
            assert(row_views(rows@) =~= row_views(old(rows)@) + gemm_rows(*gemm));
        }
    }
}

/// The table of a run on one backend.
pub fn single_rows(r: &ReportTexts, skip_fp16: bool) -> (rows: Vec<Row>)
    ensures
        row_views(rows@) == single_table(*r, skip_fp16),
{
    let mut rows: Vec<Row> = Vec::new();
    push_gemm(&mut rows, &r.gemm_fp32);
    push_gemm(&mut rows, &r.gemm_fp16);
    proof {
        assert(row_views(rows@) =~= gemm_rows(r.gemm_fp32) + gemm_rows(r.gemm_fp16));
    }
    if r.gemm_fp16.is_none() && !skip_fp16 {
        push_row(
            &mut rows,
            "GEMM fp16".to_owned(),
            "n/a".to_owned(),
            "not supported on this device".to_owned(),
        );
    }
    if let Some(b) = &r.bandwidth {
        let value = bandwidth_cell(Some(b.gb_per_s.as_str()));
        let mut detail = b.mb_per_iter.clone();
        detail.push_str(" MB/iter, ");
        push_digits(&mut detail, b.iterations as u64);
        detail.push_str(" iters, ");
        detail.push_str(b.seconds.as_str());
        detail.push_str("s");
        push_row(&mut rows, "Memory bandwidth".to_owned(), value, detail);
    }
    match &r.network {
        Some(t) => {
            let mut value = t.down.clone();
            value.push_str("↓ / ");
            value.push_str(t.up.as_str());
            value.push_str("↑ Mbps");
            let mut detail = "latency ".to_owned();
            detail.push_str(t.latency.as_str());
            detail.push_str(" ms (speed.cloudflare.com)");
            push_row(&mut rows, "Network".to_owned(), value, detail);
        },
        None => {
            push_row(
                &mut rows,
                "Network".to_owned(),
                "n/a".to_owned(),
                "probe failed (offline?)".to_owned(),
            );
        },
    }
    proof {
        assert(row_views(rows@) =~= single_table(*r, skip_fp16));
    }
    rows
}

/// The cell of a product in a comparison.
pub open spec fn product_cell(g: Option<GemmTexts>) -> Seq<char> {
    match g {
        Some(g) => if g.verified {
            g.tflops@ + " TFLOP/s"@
        } else {
            g.tflops@ + " TFLOP/s (unverified)"@
        },
        None => "n/a"@,
    }
}

/// The cell of a bandwidth in a comparison.
pub open spec fn stream_cell(b: Option<BandwidthTexts>) -> Seq<char> {
    match b {
        Some(b) => b.gb_per_s@ + " GB/s"@,
        None => "n/a"@,
    }
}

/// The table that compares the portable and the native backend.
pub open spec fn comparison_table(portable: ReportTexts, native: ReportTexts, skip_fp16: bool) -> Seq<
    RowView,
> {
    let first = seq![
        cells("GEMM fp32"@, product_cell(portable.gemm_fp32), product_cell(native.gemm_fp32)),
    ];
    let half = if skip_fp16 {
        Seq::empty()
    } else {
        seq![cells("GEMM fp16"@, product_cell(portable.gemm_fp16), product_cell(native.gemm_fp16))]
    };
    first + half + seq![
        cells("Memory bandwidth"@, stream_cell(portable.bandwidth), stream_cell(native.bandwidth)),
    ]
}

fn product_text(g: &Option<GemmTexts>) -> (r: String)
    ensures
        r@ == product_cell(*g),
{
    match g {
        Some(g) => tflops_cell(Some((g.tflops.as_str(), g.verified))),
        None => tflops_cell(None),
    }
}

fn stream_text(b: &Option<BandwidthTexts>) -> (r: String)
    ensures
        r@ == stream_cell(*b),
{
    match b {
        Some(b) => bandwidth_cell(Some(b.gb_per_s.as_str())),
        None => bandwidth_cell(None),
    }
}

/// The table that compares the portable and the native backend.
pub fn comparison_rows(portable: &ReportTexts, native: &ReportTexts, skip_fp16: bool) -> (rows: Vec<
    Row,
>)
    ensures
        row_views(rows@) == comparison_table(*portable, *native, skip_fp16),
{
    let mut rows: Vec<Row> = Vec::new();
    push_row(
        &mut rows,
        "GEMM fp32".to_owned(),
        product_text(&portable.gemm_fp32),
        product_text(&native.gemm_fp32),
    );
    if !skip_fp16 {
        push_row(
            &mut rows,
            "GEMM fp16".to_owned(),
            product_text(&portable.gemm_fp16),
            product_text(&native.gemm_fp16),
        );
    }
    push_row(
        &mut rows,
        "Memory bandwidth".to_owned(),
        stream_text(&portable.bandwidth),
        stream_text(&native.bandwidth),
    );
    proof {
        assert(row_views(rows@) =~= comparison_table(*portable, *native, skip_fp16));
    }
    rows
}

/// The line that names the device of a run.
pub fn device_line(name: &str, backend: &str, device_type: &str) -> (r: String)
    ensures
        r@ == "Device:  "@ + name@ + " ("@ + backend@ + ", "@ + device_type@ + ")"@,
{
    let mut s = "Device:  ".to_owned();
    s.push_str(name);
    s.push_str(" (");
    s.push_str(backend);
    s.push_str(", ");
    s.push_str(device_type);
    s.push_str(")");
    s
}

} // verus!
