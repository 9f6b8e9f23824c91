//! Domain enums shared by the control plane, the host agent and the client.

use vstd::prelude::*;

use crate::text::{has_prefix, strip_prefix};

verus! {

/// Lifecycle of a rental.
///
/// `Provisioning`, `Running` and `Evicting` all occupy the machine: a machine in
/// any of them is kept off the offer index. Counting only `Running` would let a
/// second tenant rent a machine that is still being provisioned.
#[derive(Debug, Clone, Copy, PartialEq, Eq, Structural)]
pub enum RentalStatus {
    Provisioning,
    Running,
    Evicting,
    Stopped,
    Failed,
}

impl RentalStatus {
    /// True while the rental holds the machine off the offer index.
    pub open spec fn occupies(self) -> bool {
        self is Provisioning || self is Running || self is Evicting
    }

    /// True once nothing more happens to the rental.
    pub open spec fn ended(self) -> bool {
        self is Stopped || self is Failed
    }

    /// The lower-case name of the status.
    pub open spec fn name(self) -> Seq<char> {
        match self {
            RentalStatus::Provisioning => "provisioning"@,
            RentalStatus::Running => "running"@,
            RentalStatus::Evicting => "evicting"@,
            RentalStatus::Stopped => "stopped"@,
            RentalStatus::Failed => "failed"@,
        }
    }

    /// Every status, in the order of a rental's life.
    pub const ALL: [RentalStatus; 5] = [
        RentalStatus::Provisioning,
        RentalStatus::Running,
        RentalStatus::Evicting,
        RentalStatus::Stopped,
        RentalStatus::Failed,
    ];

    /// True while the rental holds the machine off the offer index.
    pub fn occupies_machine(&self) -> (r: bool)
        ensures
            r == self.occupies(),
    {
        matches!(
            self,
            RentalStatus::Provisioning | RentalStatus::Running | RentalStatus::Evicting
        )
    }

    /// True once the rental has reached a terminal state.
    pub fn is_terminal(&self) -> (r: bool)
        ensures
            r == self.ended(),
    {
        matches!(self, RentalStatus::Stopped | RentalStatus::Failed)
    }

    /// Lower-case form, used on the wire and in storage.
    pub fn as_str(&self) -> (r: &'static str)
        ensures
            r@ == self.name(),
    {
        match self {
            RentalStatus::Provisioning => "provisioning",
            RentalStatus::Running => "running",
            RentalStatus::Evicting => "evicting",
            RentalStatus::Stopped => "stopped",
            RentalStatus::Failed => "failed",
        }
    }
}

/// Storage medium behind a host's scratch disk.
#[derive(Debug, Clone, Copy, PartialEq, Eq, Structural)]
pub enum DiskType {
    Nvme,
    Ssd,
    Hdd,
    Unknown,
}

impl Default for DiskType {
    fn default() -> (r: Self)
        ensures
            r == DiskType::Unknown,
    {
        DiskType::Unknown
    }
}

/// How a tenant connects to a running rental. The agent reports it and clients
/// show the fitting hint.
#[derive(Debug, Clone, Copy, PartialEq, Eq, Structural)]
pub enum RentalKind {
    /// An SSH box (the container tier): `ssh -p <port> <user>@<host>`.
    Ssh,
    /// A plain HTTP status endpoint: `GET http://<host>:<port>/`.
    HttpStatus,
    /// An OpenAI-compatible HTTP inference API at `/v1/...`.
    HttpOpenai,
}

impl Default for RentalKind {
    fn default() -> (r: Self)
        ensures
            r == RentalKind::Ssh,
    {
        RentalKind::Ssh
    }
}

/// Kind of a ledger entry.
#[derive(Debug, Clone, Copy, PartialEq, Eq, Structural)]
pub enum LedgerKind {
    Deposit,
    RentalCharge,
    HostCredit,
    Payout,
    Evict,
}

/// A floating-point reading, kept as its bit pattern: the books store and return
/// it, put readings in order, and never calculate with one.
#[derive(Debug, Clone, Copy, PartialEq, Eq, Structural)]
pub struct Measure {
    pub bits: u64,
}

/// The integer that a reading is ordered by. A bit pattern is a sign and a magnitude,
/// and of two numbers of one sign the larger magnitude has the larger pattern; zero
/// has the same key with either sign.
pub open spec fn measure_key(m: Measure) -> i64 {
    if m.bits < 0x8000_0000_0000_0000 {
        m.bits as i64
    } else {
        (0x8000_0000_0000_0000 - m.bits) as i64
    }
}

impl Measure {
    /// The integer that the reading is ordered by.
    pub fn key(&self) -> (r: i64)
        ensures
            r == measure_key(*self),
            r > i64::MIN,
    {
        if self.bits < 0x8000_0000_0000_0000 {
            self.bits as i64
        } else {
            -((self.bits - 0x8000_0000_0000_0000) as i64)
        }
    }
}

/// An image of the HTTP-status tier: the host runs a job of its own and nobody
/// logs in.
pub open spec fn http_status_image(image: Seq<char>) -> bool {
    has_prefix(image, "metal:"@)
}

/// True for images of the HTTP-status tier, which need no SSH key.
pub fn is_http_status_image(image: &str) -> (r: bool)
    ensures
        r == http_status_image(image@),
{
    strip_prefix(image, "metal:").is_some()
}

} // verus!
