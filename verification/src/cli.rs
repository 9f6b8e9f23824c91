//! The tenant's command line: what it asks for and what it shows.

use vstd::prelude::*;

use crate::api::{
    AccountResponse, CreateAccountResponse, CreateRentalResponse, DepositResponse, HealthResponse,
    Offer, RentalResponse,
};
use crate::billing::whole_part;
use crate::db::opt_str;
use crate::model::{http_status_image, is_http_status_image, RentalKind};
use crate::text::{
    chars_of, copy_opt, decimal, decimal_text, opt_text, text_of, trim, trimmed,
};

verus! {

/// `s` without the slashes at its end.
pub open spec fn without_end_slashes(s: Seq<char>) -> Seq<char>
    decreases s.len(),
{
    if s.len() > 0 && s.last() == '/' {
        without_end_slashes(s.drop_last())
    } else {
        s
    }
}

/// Where the control plane is found.
#[derive(Debug, Clone, PartialEq, Eq)]
pub struct Client {
    pub base: String,
}

impl Client {
    /// Slashes at the end of the base are dropped.
    pub fn new(base: &str) -> (r: Self)
        ensures
            r.base@ == without_end_slashes(base@),
    {
        let chars = chars_of(base);
        let mut n: usize = chars.len();
        proof {
            assert(base@.take(n as int) =~= base@);
        }
        while n > 0 && chars[n - 1] == '/'
            invariant
                chars@ == base@,
                n <= chars@.len(),
                without_end_slashes(base@) == without_end_slashes(base@.take(n as int)),
            decreases n,
        {
            proof {
                assert(base@.take(n as int).drop_last() =~= base@.take(n - 1));
            }
            n -= 1;
        }
        let kept = text_of(&chars, 0, n);
        proof {
            assert(kept@ =~= base@.take(n as int));
        }
        Client { base: kept }
    }

    /// The address of a path.
    pub fn url(&self, path: &str) -> (r: String)
        ensures
            r@ == self.base@ + path@,
    {
        let mut s = self.base.clone();
        s.push_str(path);
        s
    }
}

/// Satoshis with a hint in BTC and dollars. The two hints are decimal texts.
pub open spec fn sats_text(sats: i64, btc: Seq<char>, usd: Seq<char>) -> Seq<char> {
    decimal(sats as int) + " sats  (≈ "@ + btc + " BTC ≈ $"@ + usd + ")"@
}

/// Satoshis with a hint in BTC and dollars.
pub fn fmt_sats(sats: i64, btc: &str, usd: &str) -> (r: String)
    ensures
        r@ == sats_text(sats, btc@, usd@),
{
    let mut s = decimal_text(sats);
    s.push_str(" sats  (≈ ");
    s.push_str(btc);
    s.push_str(" BTC ≈ $");
    s.push_str(usd);
    s.push_str(")");
    s
}

/// The label and the command by which a tenant reaches a rental.
pub open spec fn hint_of(kind: RentalKind, host: Seq<char>, port: i32) -> (Seq<char>, Seq<char>) {
    match kind {
        RentalKind::Ssh => ("SSH:"@, "ssh -p "@ + decimal(port as int) + " root@"@ + host),
        RentalKind::HttpStatus => (
            "Status:"@,
            "curl http://"@ + host + ":"@ + decimal(port as int) + "/"@,
        ),
        RentalKind::HttpOpenai => (
            "LLM API:"@,
            "curl http://"@ + host + ":"@ + decimal(port as int)
                + "/v1/chat/completions -H content-type:application/json -d '{\"messages\":[{\"role\":\"user\",\"content\":\"hi\"}],\"max_tokens\":64}'"@,
        ),
    }
}

/// How a tenant reaches a rental, as label and command, once host and port are
/// known.
pub fn endpoint_hint(kind: RentalKind, host: Option<&str>, port: Option<i32>) -> (r: Option<
    (&'static str, String),
>)
    ensures
        match (host, port) {
            (Some(h), Some(p)) => r matches Some(x) && (x.0@, x.1@) == hint_of(kind, h@, p),
            _ => r is None,
        },
{
    match (host, port) {
        (Some(host), Some(port)) => {
            let port_text = decimal_text(port as i64);
            match kind {
                RentalKind::Ssh => {
                    let mut s = "ssh -p ".to_owned();
                    s.push_str(port_text.as_str());
                    s.push_str(" root@");
                    s.push_str(host);
                    Some(("SSH:", s))
                },
                RentalKind::HttpStatus => {
                    let mut s = "curl http://".to_owned();
                    s.push_str(host);
                    s.push_str(":");
                    s.push_str(port_text.as_str());
                    s.push_str("/");
                    Some(("Status:", s))
                },
                RentalKind::HttpOpenai => {
                    let mut s = "curl http://".to_owned();
                    s.push_str(host);
                    s.push_str(":");
                    s.push_str(port_text.as_str());
                    s.push_str(
                        "/v1/chat/completions -H content-type:application/json -d '{\"messages\":[{\"role\":\"user\",\"content\":\"hi\"}],\"max_tokens\":64}'",
                    );
                    Some(("LLM API:", s))
                },
            }
        },
        _ => None,
    }
}

/// What a tenant asks of the offer index on the command line.
#[derive(Debug, Clone, PartialEq, Eq)]
pub struct OffersArgs {
    pub gpu: Option<String>,
    pub min_vram_mb: Option<i64>,
    pub min_gpu_count: Option<i64>,
    pub max_rate: Option<i64>,
    pub sort: Option<String>,
    pub limit: Option<i64>,
}

/// A list with a named parameter behind it, if the parameter is there.
pub open spec fn with_text(
    params: Seq<(Seq<char>, Seq<char>)>,
    name: Seq<char>,
    value: Option<Seq<char>>,
) -> Seq<(Seq<char>, Seq<char>)> {
    match value {
        Some(v) => params.push((name, v)),
        None => params,
    }
}

/// The decimal text of an optional number.
pub open spec fn opt_decimal(n: Option<i64>) -> Option<Seq<char>> {
    match n {
        Some(v) => Some(decimal(v as int)),
        None => None,
    }
}

/// The query parameters of a request for offers.
pub open spec fn offer_params(args: OffersArgs) -> Seq<(Seq<char>, Seq<char>)> {
    let p0 = with_text(Seq::empty(), "gpu_name"@, opt_text(args.gpu));
    let p1 = with_text(p0, "min_vram_mb"@, opt_decimal(args.min_vram_mb));
    let p2 = with_text(p1, "min_gpu_count"@, opt_decimal(args.min_gpu_count));
    let p3 = with_text(p2, "max_rate_sats_per_min"@, opt_decimal(args.max_rate));
    let p4 = with_text(p3, "sort"@, opt_text(args.sort));
    with_text(p4, "limit"@, opt_decimal(args.limit))
}

/// The texts of a list of parameters.
pub open spec fn param_views(v: Seq<(&'static str, String)>) -> Seq<(Seq<char>, Seq<char>)> {
    v.map_values(|p: (&'static str, String)| (p.0@, p.1@))
}

fn push_param(params: &mut Vec<(&'static str, String)>, name: &'static str, value: Option<String>)
    ensures
        param_views(final(params)@) == with_text(
            param_views(old(params)@),
            name@,
            opt_text(value),
        ),
{
    if let Some(v) = value {
        params.push((name, v));
        proof {
            assert(param_views(params@) =~= param_views(old(params)@).push((name@, v@)));
        }
    }
}

fn number_param(n: Option<i64>) -> (r: Option<String>)
    ensures
        opt_text(r) == opt_decimal(n),
{
    match n {
        Some(v) => Some(decimal_text(v)),
        None => None,
    }
}

/// The query parameters of a request for offers.
pub fn offers_params(args: &OffersArgs) -> (r: Vec<(&'static str, String)>)
    ensures
        param_views(r@) == offer_params(*args),
{
    let mut params: Vec<(&'static str, String)> = Vec::new();
    proof {
        assert(param_views(params@) =~= Seq::empty());
    }
    push_param(&mut params, "gpu_name", copy_opt(&args.gpu));
    push_param(&mut params, "min_vram_mb", number_param(args.min_vram_mb));
    push_param(&mut params, "min_gpu_count", number_param(args.min_gpu_count));
    push_param(&mut params, "max_rate_sats_per_min", number_param(args.max_rate));
    push_param(&mut params, "sort", copy_opt(&args.sort));
    push_param(&mut params, "limit", number_param(args.limit));
    params
}

/// The SSH key of a rental request: the one on the command line, else the text of
/// the key file without the space around it; images of the HTTP-status tier need
/// none.
pub fn rent_key(ssh_key: Option<String>, key_file: Option<String>, image: &str) -> (r: Result<
    Option<String>,
    String,
>)
    ensures
        match (opt_text(ssh_key), opt_text(key_file)) {
            (Some(k), _) => r matches Ok(x) && opt_text(x) == Some(k),
            (None, Some(text)) => r matches Ok(x) && opt_text(x) == Some(trimmed(text)),
            (None, None) => if http_status_image(image@) {
                r == Ok::<Option<String>, String>(None)
            } else {
                r matches Err(e) && e@
                    == "provide --ssh-key or --ssh-key-file (only metal: images may omit it)"@
            },
        },
{
    if let Some(k) = ssh_key {
        return Ok(Some(k));
    }
    if let Some(text) = key_file {
        return Ok(Some(trim(text.as_str())));
    }
    if is_http_status_image(image) {
        Ok(None)
    } else {
        Err("provide --ssh-key or --ssh-key-file (only metal: images may omit it)".to_owned())
    }
}

/// The line of `vgpu health`.
pub fn health_line(h: &HealthResponse) -> (r: String)
    ensures
        r@ == "Control plane "@ + (if h.ok {
            "OK"@
        } else {
            "DEGRADED"@
        }) + "  (lightning backend: "@ + h.ln_backend@ + ")"@,
{
    let mut s = "Control plane ".to_owned();
    s.push_str(if h.ok { "OK" } else { "DEGRADED" });
    s.push_str("  (lightning backend: ");
    s.push_str(h.ln_backend.as_str());
    s.push_str(")");
    s
}

/// The cells of an offer's table row that hold no fraction: id, GPU, count, VRAM,
/// sats per minute, sats per hour and place.
#[derive(Debug, Clone, PartialEq, Eq)]
pub struct OfferCells {
    pub id: String,
    pub gpu: String,
    pub count: String,
    pub vram: String,
    pub per_minute: String,
    pub per_hour: String,
    pub place: String,
}

/// The cells of an offer's table row.
pub fn offer_cells(o: &Offer) -> (r: OfferCells)
    ensures
        r.id@ == decimal(o.machine_id as int),
        r.gpu@ == o.gpu_name@,
        r.count@ == decimal(o.gpu_count as int),
        r.vram@ == decimal(whole_part(o.vram_mb as int, 1024)) + " GB"@,
        r.per_minute@ == decimal(o.rate_sats_per_min as int),
        r.per_hour@ == decimal(o.rate_sats_per_hour as int),
        r.place@ == (match o.country {
            Some(c) => c@,
            None => "-"@,
        }),
{
    let mut vram = decimal_text(o.vram_mb / 1024);
    vram.push_str(" GB");
    OfferCells {
        id: decimal_text(o.machine_id),
        gpu: o.gpu_name.clone(),
        count: decimal_text(o.gpu_count as i64),
        vram,
        per_minute: decimal_text(o.rate_sats_per_min),
        per_hour: decimal_text(o.rate_sats_per_hour),
        place: match &o.country {
            Some(c) => c.clone(),
            None => "-".to_owned(),
        },
    }
}

/// The lines of `vgpu create-account`.
pub fn create_account_lines(resp: &CreateAccountResponse) -> (r: (String, String))
    ensures
        r.0@ == "Created account: "@ + resp.account_id@,
        r.1@ == "Fund it with:  vgpu deposit "@ + resp.account_id@ + " <sats>"@,
{
    let mut created = "Created account: ".to_owned();
    created.push_str(resp.account_id.as_str());
    let mut fund = "Fund it with:  vgpu deposit ".to_owned();
    fund.push_str(resp.account_id.as_str());
    fund.push_str(" <sats>");
    (created, fund)
}

/// The line that tells how long an account lasts.
pub open spec fn runway_text(minutes: Option<i64>) -> Seq<char> {
    match minutes {
        Some(m) => "  Runway:  "@ + decimal(m as int) + " minutes"@,
        None => "  Runway:  — (no running rentals)"@,
    }
}

/// The lines of `vgpu account`. `balance` is the balance as [`fmt_sats`] shows it.
pub fn account_lines(a: &AccountResponse, balance: &str) -> (r: (String, String, String, String))
    ensures
        r.0@ == "Account "@ + a.account_id@,
        r.1@ == "  Balance: "@ + balance@,
        r.2@ == "  Burn:    "@ + decimal(a.burn_sats_per_min as int) + " sats/min"@,
        r.3@ == runway_text(a.runway_minutes),
{
    let mut title = "Account ".to_owned();
    title.push_str(a.account_id.as_str());
    let mut funds = "  Balance: ".to_owned();
    funds.push_str(balance);
    let mut burn = "  Burn:    ".to_owned();
    burn.push_str(decimal_text(a.burn_sats_per_min).as_str());
    burn.push_str(" sats/min");
    let runway = match a.runway_minutes {
        Some(m) => {
            let mut s = "  Runway:  ".to_owned();
            s.push_str(decimal_text(m).as_str());
            s.push_str(" minutes");
            s
        },
        None => "  Runway:  — (no running rentals)".to_owned(),
    };
    (title, funds, burn, runway)
}

/// The lines of `vgpu deposit`. `amount` is the amount as [`fmt_sats`] shows it.
pub fn deposit_lines(resp: &DepositResponse, amount: &str) -> (r: (String, String, String))
    ensures
        r.0@ == "Deposit invoice for "@ + amount@,
        r.1@ == "  BOLT11:       "@ + resp.bolt11@,
        r.2@ == "  Payment hash: "@ + resp.payment_hash@,
{
    let mut title = "Deposit invoice for ".to_owned();
    title.push_str(amount);
    let mut bolt11 = "  BOLT11:       ".to_owned();
    bolt11.push_str(resp.bolt11.as_str());
    let mut hash = "  Payment hash: ".to_owned();
    hash.push_str(resp.payment_hash.as_str());
    (title, bolt11, hash)
}

/// The lines of `vgpu rent`.
pub fn rent_lines(resp: &CreateRentalResponse) -> (r: (String, String))
    ensures
        r.0@ == "Rental "@ + decimal(resp.rental_id as int) + " created  ["@ + resp.status.name()
            + "]  at "@ + decimal(resp.rate_sats_per_min as int) + " sats/min"@,
        r.1@ == "Track it with:  vgpu rental "@ + decimal(resp.rental_id as int),
{
    let id = decimal_text(resp.rental_id);
    let mut created = "Rental ".to_owned();
    created.push_str(id.as_str());
    created.push_str(" created  [");
    created.push_str(resp.status.as_str());
    created.push_str("]  at ");
    created.push_str(decimal_text(resp.rate_sats_per_min).as_str());
    created.push_str(" sats/min");
    let mut track = "Track it with:  vgpu rental ".to_owned();
    track.push_str(id.as_str());
    (created, track)
}

/// A text with spaces behind it up to eight characters.
pub open spec fn padded(s: Seq<char>) -> Seq<char>
    decreases 8 - s.len(),
{
    if s.len() >= 8 {
        s
    } else {
        padded(s.push(' '))
    }
}

fn pad(s: &str) -> (r: String)
    ensures
        r@ == padded(s@),
{
    let mut out = s.to_owned();
    let mut n: usize = chars_of(s).len();
    while n < 8
        invariant
            n == out@.len(),
            padded(out@) == padded(s@),
        decreases 8 - n,
    {
        out.push(' ');
        n += 1;
    }
    out
}

/// The line that tells how to reach a rental.
pub open spec fn endpoint_text(
    kind: RentalKind,
    host: Option<Seq<char>>,
    port: Option<i32>,
) -> Seq<char> {
    match (host, port) {
        (Some(h), Some(p)) => "  "@ + padded(hint_of(kind, h, p).0) + " "@ + hint_of(kind, h, p).1,
        _ => "  Endpoint: (pending — not running yet)"@,
    }
}

/// The line that tells how to reach a rental.
pub fn endpoint_line(r: &RentalResponse) -> (line: String)
    ensures
        line@ == endpoint_text(r.kind, opt_text(r.ssh_host), r.ssh_port),
{
    let host: Option<&str> = match &r.ssh_host {
        Some(h) => Some(h.as_str()),
        None => None,
    };
    match endpoint_hint(r.kind, host, r.ssh_port) {
        Some((label, hint)) => {
            let mut line = "  ".to_owned();
            line.push_str(pad(label).as_str());
            line.push_str(" ");
            line.push_str(hint.as_str());
            line
        },
        None => "  Endpoint: (pending — not running yet)".to_owned(),
    }
}

/// The lines of `vgpu rental`, from title to bill; the endpoint is the fourth. An
/// error that was reported has a line of its own.
pub fn rental_lines(r: &RentalResponse) -> (lines: (String, String, String, String, String, Option<
    String,
>))
    ensures
        lines.0@ == "Rental "@ + decimal(r.id as int) + "  ["@ + r.status.name() + "]"@,
        lines.1@ == "  GPU:     "@ + r.gpu_name@ + " x"@ + decimal(r.gpu_count as int),
        lines.2@ == "  Image:   "@ + r.image@,
        lines.3@ == endpoint_text(r.kind, opt_text(r.ssh_host), r.ssh_port),
        lines.4@ == "  Billed:  "@ + decimal(r.sats_charged as int) + " sats over "@ + decimal(
            r.minutes_billed as int,
        ) + " min"@,
        opt_text(lines.5) == (match r.error {
            Some(e) => Some("  Error:   "@ + e@),
            None => None,
        }),
{
    let mut title = "Rental ".to_owned();
    title.push_str(decimal_text(r.id).as_str());
    title.push_str("  [");
    title.push_str(r.status.as_str());
    title.push_str("]");
    let mut gpu = "  GPU:     ".to_owned();
    gpu.push_str(r.gpu_name.as_str());
    gpu.push_str(" x");
    gpu.push_str(decimal_text(r.gpu_count as i64).as_str());
    let mut image = "  Image:   ".to_owned();
    image.push_str(r.image.as_str());
    let mut bill = "  Billed:  ".to_owned();
    bill.push_str(decimal_text(r.sats_charged).as_str());
    bill.push_str(" sats over ");
    bill.push_str(decimal_text(r.minutes_billed).as_str());
    bill.push_str(" min");
    let error: Option<String> = match &r.error {
        Some(e) => {
            let mut s = "  Error:   ".to_owned();
            s.push_str(e.as_str());
            Some(s)
        },
        None => None,
    };
    (title, gpu, image, endpoint_line(r), bill, error)
}

/// The text that a JSON object holds under a key.
pub uninterp spec fn json_text_of(body: Seq<char>, key: Seq<char>) -> Option<Seq<char>>;

/// `serde_json::from_str` reads a body as a JSON value; indexing the value gives the
/// member under a key and `Value::as_str` its text. What comes out depends on the body
/// and the key alone. Which bodies are JSON and what they hold is left unsaid.
#[verifier::external_body]
fn json_text(body: &str, key: &str) -> (r: Option<String>)
    ensures
        opt_text(r) == json_text_of(body@, key@),
{
    match serde_json::from_str::<serde_json::Value>(body) {
        Ok(value) => value[key].as_str().map(str::to_string),
        Err(_) => None,
    }
}

/// What is shown of a failed request: the error that was found in the answer's body,
/// or else the whole body.
pub fn shown_error(found: Option<String>, body: &str) -> (r: String)
    ensures
        r@ == (match opt_text(found) {
            Some(e) => e,
            None => body@,
        }),
{
    match found {
        Some(e) => e,
        None => body.to_owned(),
    }
}

/// What is shown of a failed request: the text under `error` in the answer's body, or
/// else the whole body.
pub fn error_message(body: &str) -> (r: String)
    ensures
        r@ == (match json_text_of(body@, "error"@) {
            Some(e) => e,
            None => body@,
        }),
{
    shown_error(json_text(body, "error"), body)
}

/// What `vgpu stop` says of a rental and its status.
pub open spec fn stop_text(id: i64, status: Option<Seq<char>>) -> Seq<char> {
    "Rental "@ + decimal(id as int) + " -> "@ + (match status {
        Some(s) => s,
        None => "evicting"@,
    }) + " (stop queued)"@
}

/// The line of `vgpu stop`.
pub fn stop_line(id: i64, status: Option<&str>) -> (r: String)
    ensures
        r@ == stop_text(id, opt_str(status)),
{
    let mut line = "Rental ".to_owned();
    line.push_str(decimal_text(id).as_str());
    line.push_str(" -> ");
    line.push_str(match status {
        Some(s) => s,
        None => "evicting",
    });
    line.push_str(" (stop queued)");
    line
}

/// The line of `vgpu stop`, by the body of the answer: the status is the text under
/// `status`.
pub fn stop_answer(id: i64, body: &str) -> (r: String)
    ensures
        r@ == stop_text(id, json_text_of(body@, "status"@)),
{
    match json_text(body, "status") {
        Some(s) => stop_line(id, Some(s.as_str())),
        None => stop_line(id, None),
    }
}

} // verus!
