//! The network probe: what is asked of the speed-test peer and how the answer is
//! shown.

use vstd::prelude::*;

use crate::text::{digits, push_digits};

verus! {

/// Probe sizes.
#[derive(Debug, Clone, Copy, PartialEq, Eq, Structural)]
pub struct NetConfig {
    pub down_bytes: u64,
    pub up_bytes: u64,
    pub latency_samples: u32,
}

impl Default for NetConfig {
    fn default() -> (r: Self)
        ensures
            r == (NetConfig { down_bytes: 25000000, up_bytes: 10000000, latency_samples: 5 }),
    {
        NetConfig { down_bytes: 25000000, up_bytes: 10000000, latency_samples: 5 }
    }
}

impl NetConfig {
    /// Probe sizes in megabytes.
    pub fn from_megabytes(down_mb: u64, up_mb: u64, latency_samples: u32) -> (r: Self)
        requires
            down_mb * 1000000 <= u64::MAX,
            up_mb * 1000000 <= u64::MAX,
        ensures
            r.down_bytes == down_mb * 1000000,
            r.up_bytes == up_mb * 1000000,
            r.latency_samples == latency_samples,
    {
        NetConfig { down_bytes: down_mb * 1000000, up_bytes: up_mb * 1000000, latency_samples }
    }

    /// How many round trips are timed: at least one.
    pub fn rounds(&self) -> (r: u32)
        ensures
            r == (if self.latency_samples == 0 {
                1
            } else {
                self.latency_samples
            }),
    {
        if self.latency_samples == 0 {
            1
        } else {
            self.latency_samples
        }
    }
}

/// The address that sends a number of bytes.
pub fn download_url(bytes: u64) -> (r: String)
    ensures
        r@ == "https://speed.cloudflare.com/__down?bytes="@ + digits(bytes as nat),
{
    let mut url = "https://speed.cloudflare.com/__down?bytes=".to_owned();
    push_digits(&mut url, bytes);
    url
}

/// The address that takes bytes.
pub fn upload_url() -> (r: &'static str)
    ensures
        r@ == "https://speed.cloudflare.com/__up"@,
{
    "https://speed.cloudflare.com/__up"
}

/// The readings of a probe as decimal texts.
#[derive(Debug, Clone, PartialEq, Eq)]
pub struct NetworkTexts {
    pub down: String,
    pub up: String,
    pub latency: String,
}

/// The network in one line.
pub open spec fn summary_of(nw: Option<NetworkTexts>) -> Seq<char> {
    match nw {
        Some(t) => "Network: "@ + t.down@ + "↓ / "@ + t.up@ + "↑ Mbps, latency "@ + t.latency@
            + " ms"@,
        None => "Network: probe failed (offline?)"@,
    }
}

/// The network in one line.
pub fn network_summary(nw: &Option<NetworkTexts>) -> (r: String)
    ensures
        r@ == summary_of(*nw),
{
    match nw {
        Some(t) => {
            let mut s = "Network: ".to_owned();
            s.push_str(t.down.as_str());
            s.push_str("↓ / ");
            s.push_str(t.up.as_str());
            s.push_str("↑ Mbps, latency ");
            s.push_str(t.latency.as_str());
            s.push_str(" ms");
            s
        },
        None => "Network: probe failed (offline?)".to_owned(),
    }
}

} // verus!
