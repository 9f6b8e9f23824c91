//! Request and response types shared by the server and its clients.

use vstd::prelude::*;

use crate::model::{DiskType, Measure, RentalKind, RentalStatus};
use crate::text::opt_text;

verus! {

/// Body of `POST /agent/register`: every machine field that the agent knows about
/// itself. `host_id` survives restarts and is the key of registration.
#[derive(Debug, Clone, PartialEq, Eq)]
pub struct RegisterRequest {
    /// Stable, made by the agent, survives restarts.
    pub host_id: String,
    pub gpu_name: String,
    pub gpu_count: i32,
    /// Per GPU.
    pub vram_mb: i64,
    pub cpu_name: String,
    pub cpu_cores: i32,
    pub ram_mb: i64,
    pub disk_gb: i64,
    pub disk_type: DiskType,
    /// Where tenants connect.
    pub public_ip: String,
    /// First and last port reachable at `public_ip`.
    pub port_start: i32,
    pub port_end: i32,
    pub inet_down_mbps: Option<Measure>,
    pub inet_up_mbps: Option<Measure>,
    /// ISO-3166 alpha-2.
    pub country: Option<String>,
    /// Scalar performance estimate.
    pub dlperf: Measure,
    /// Price set by the provider, at least one sat per minute.
    pub rate_sats_per_min: i64,
    /// Hash of the set of installed GPUs.
    pub hw_fingerprint: String,
}

/// What [`RegisterRequest`] holds, with its texts as character sequences.
#[verifier::ext_equal]
pub struct RegisterRequestView {
    pub host_id: Seq<char>,
    pub gpu_name: Seq<char>,
    pub gpu_count: i32,
    pub vram_mb: i64,
    pub cpu_name: Seq<char>,
    pub cpu_cores: i32,
    pub ram_mb: i64,
    pub disk_gb: i64,
    pub disk_type: DiskType,
    pub public_ip: Seq<char>,
    pub port_start: i32,
    pub port_end: i32,
    pub inet_down_mbps: Option<Measure>,
    pub inet_up_mbps: Option<Measure>,
    pub country: Option<Seq<char>>,
    pub dlperf: Measure,
    pub rate_sats_per_min: i64,
    pub hw_fingerprint: Seq<char>,
}

impl View for RegisterRequest {
    type V = RegisterRequestView;

    open spec fn view(&self) -> RegisterRequestView {
        RegisterRequestView {
            host_id: self.host_id@,
            gpu_name: self.gpu_name@,
            gpu_count: self.gpu_count,
            vram_mb: self.vram_mb,
            cpu_name: self.cpu_name@,
            cpu_cores: self.cpu_cores,
            ram_mb: self.ram_mb,
            disk_gb: self.disk_gb,
            disk_type: self.disk_type,
            public_ip: self.public_ip@,
            port_start: self.port_start,
            port_end: self.port_end,
            inet_down_mbps: self.inet_down_mbps,
            inet_up_mbps: self.inet_up_mbps,
            country: opt_text(self.country),
            dlperf: self.dlperf,
            rate_sats_per_min: self.rate_sats_per_min,
            hw_fingerprint: self.hw_fingerprint@,
        }
    }
}

/// Response to `POST /agent/register`.
#[derive(Debug, Clone, PartialEq, Eq)]
pub struct RegisterResponse {
    pub machine_id: i64,
    /// Bearer token for the other agent calls.
    pub agent_token: String,
}

/// What [`RegisterResponse`] holds, with its texts as character sequences.
#[verifier::ext_equal]
pub struct RegisterResponseView {
    pub machine_id: i64,
    pub agent_token: Seq<char>,
}

impl View for RegisterResponse {
    type V = RegisterResponseView;

    open spec fn view(&self) -> RegisterResponseView {
        RegisterResponseView {
            machine_id: self.machine_id,
            agent_token: self.agent_token@,
        }
    }
}

/// Body of `POST /agent/heartbeat`.
#[derive(Debug, Clone, Copy, PartialEq, Eq)]
pub struct HeartbeatRequest {
    pub online: bool,
}

/// A queued instruction, delivered in a heartbeat response.
#[derive(Debug, Clone, PartialEq, Eq)]
pub enum Command {
    StartRental {
        rental_id: i64,
        image: String,
        /// Put into the container's `authorized_keys`.
        ssh_pubkey: String,
    },
    StopRental { rental_id: i64 },
}

/// What [`Command`] holds, with its texts as character sequences.
#[verifier::ext_equal]
pub enum CommandView {
    StartRental { rental_id: i64, image: Seq<char>, ssh_pubkey: Seq<char> },
    StopRental { rental_id: i64 },
}

impl View for Command {
    type V = CommandView;

    open spec fn view(&self) -> CommandView {
        match self {
            Command::StartRental { rental_id, image, ssh_pubkey } => CommandView::StartRental {
                rental_id: *rental_id,
                image: image@,
                ssh_pubkey: ssh_pubkey@,
            },
            Command::StopRental { rental_id } => CommandView::StopRental { rental_id: *rental_id },
        }
    }
}

impl Command {
    /// A second copy of the command.
    pub fn copy(&self) -> (r: Self)
        ensures
            r@ == self@,
    {
        match self {
            Command::StartRental { rental_id, image, ssh_pubkey } => Command::StartRental {
                rental_id: *rental_id,
                image: image.clone(),
                ssh_pubkey: ssh_pubkey.clone(),
            },
            Command::StopRental { rental_id } => Command::StopRental { rental_id: *rental_id },
        }
    }
}

/// The commands of a list, each by its view.
pub open spec fn command_views(cs: Seq<Command>) -> Seq<CommandView> {
    cs.map_values(|c: Command| c@)
}

/// Response to `POST /agent/heartbeat`: the queued commands. This response is the
/// only way in which the control plane reaches a host.
#[derive(Debug, Clone, PartialEq, Eq)]
pub struct HeartbeatResponse {
    pub commands: Vec<Command>,
}

/// Body of `POST /agent/report`: the outcome of a command.
#[derive(Debug, Clone, PartialEq, Eq)]
pub struct ReportRequest {
    pub rental_id: i64,
    pub status: RentalStatus,
    /// How tenants connect; absent leaves it as it was.
    pub kind: Option<RentalKind>,
    pub ssh_port: Option<i32>,
    pub container_id: Option<String>,
    pub error: Option<String>,
}

/// What [`ReportRequest`] holds, with its texts as character sequences.
#[verifier::ext_equal]
pub struct ReportRequestView {
    pub rental_id: i64,
    pub status: RentalStatus,
    pub kind: Option<RentalKind>,
    pub ssh_port: Option<i32>,
    pub container_id: Option<Seq<char>>,
    pub error: Option<Seq<char>>,
}

impl View for ReportRequest {
    type V = ReportRequestView;

    open spec fn view(&self) -> ReportRequestView {
        ReportRequestView {
            rental_id: self.rental_id,
            status: self.status,
            kind: self.kind,
            ssh_port: self.ssh_port,
            container_id: opt_text(self.container_id),
            error: opt_text(self.error),
        }
    }
}

/// Body of `POST /agent/rate`: the machine's new price.
#[derive(Debug, Clone, Copy, PartialEq, Eq)]
pub struct RateRequest {
    pub rate_sats_per_min: i64,
}

/// Body of `POST /agent/payout`: the invoice by which the host is paid.
#[derive(Debug, Clone, PartialEq, Eq)]
pub struct PayoutRequest {
    pub bolt11: String,
}

/// What [`PayoutRequest`] holds, with its texts as character sequences.
#[verifier::ext_equal]
pub struct PayoutRequestView {
    pub bolt11: Seq<char>,
}

impl View for PayoutRequest {
    type V = PayoutRequestView;

    open spec fn view(&self) -> PayoutRequestView {
        PayoutRequestView {
            bolt11: self.bolt11@,
        }
    }
}

/// Response to `POST /agent/payout`.
#[derive(Debug, Clone, Copy, PartialEq, Eq)]
pub struct PayoutResponse {
    pub paid_sats: i64,
}

/// One row of `GET /offers`: an online, idle machine.
#[derive(Debug, Clone, PartialEq, Eq)]
pub struct Offer {
    pub machine_id: i64,
    pub gpu_name: String,
    pub gpu_count: i32,
    pub vram_mb: i64,
    pub cpu_name: String,
    pub cpu_cores: i32,
    pub ram_mb: i64,
    pub disk_gb: i64,
    pub disk_type: DiskType,
    pub public_ip: String,
    pub country: Option<String>,
    pub inet_down_mbps: Option<Measure>,
    pub inet_up_mbps: Option<Measure>,
    pub dlperf: Measure,
    pub rate_sats_per_min: i64,
    /// Sixty times the rate per minute.
    pub rate_sats_per_hour: i64,
}

/// What [`Offer`] holds, with its texts as character sequences.
#[verifier::ext_equal]
pub struct OfferView {
    pub machine_id: i64,
    pub gpu_name: Seq<char>,
    pub gpu_count: i32,
    pub vram_mb: i64,
    pub cpu_name: Seq<char>,
    pub cpu_cores: i32,
    pub ram_mb: i64,
    pub disk_gb: i64,
    pub disk_type: DiskType,
    pub public_ip: Seq<char>,
    pub country: Option<Seq<char>>,
    pub inet_down_mbps: Option<Measure>,
    pub inet_up_mbps: Option<Measure>,
    pub dlperf: Measure,
    pub rate_sats_per_min: i64,
    pub rate_sats_per_hour: i64,
}

impl View for Offer {
    type V = OfferView;

    open spec fn view(&self) -> OfferView {
        OfferView {
            machine_id: self.machine_id,
            gpu_name: self.gpu_name@,
            gpu_count: self.gpu_count,
            vram_mb: self.vram_mb,
            cpu_name: self.cpu_name@,
            cpu_cores: self.cpu_cores,
            ram_mb: self.ram_mb,
            disk_gb: self.disk_gb,
            disk_type: self.disk_type,
            public_ip: self.public_ip@,
            country: opt_text(self.country),
            inet_down_mbps: self.inet_down_mbps,
            inet_up_mbps: self.inet_up_mbps,
            dlperf: self.dlperf,
            rate_sats_per_min: self.rate_sats_per_min,
            rate_sats_per_hour: self.rate_sats_per_hour,
        }
    }
}

/// The offers of a list, each by its view.
pub open spec fn offer_views(s: Seq<Offer>) -> Seq<OfferView> {
    s.map_values(|x: Offer| x@)
}

/// Response to `GET /offers`.
#[derive(Debug, Clone, PartialEq, Eq)]
pub struct OffersResponse {
    pub offers: Vec<Offer>,
}

/// Response to `POST /accounts`.
#[derive(Debug, Clone, PartialEq, Eq)]
pub struct CreateAccountResponse {
    pub account_id: String,
}

/// What [`CreateAccountResponse`] holds, with its texts as character sequences.
#[verifier::ext_equal]
pub struct CreateAccountResponseView {
    pub account_id: Seq<char>,
}

impl View for CreateAccountResponse {
    type V = CreateAccountResponseView;

    open spec fn view(&self) -> CreateAccountResponseView {
        CreateAccountResponseView {
            account_id: self.account_id@,
        }
    }
}

/// Response to `GET /accounts/{id}`.
#[derive(Debug, Clone, PartialEq, Eq)]
pub struct AccountResponse {
    pub account_id: String,
    pub balance_sats: i64,
    /// Sum of the rates of the account's running rentals.
    pub burn_sats_per_min: i64,
    /// Balance over burn; absent when nothing burns.
    pub runway_minutes: Option<i64>,
}

/// What [`AccountResponse`] holds, with its texts as character sequences.
#[verifier::ext_equal]
pub struct AccountResponseView {
    pub account_id: Seq<char>,
    pub balance_sats: i64,
    pub burn_sats_per_min: i64,
    pub runway_minutes: Option<i64>,
}

impl View for AccountResponse {
    type V = AccountResponseView;

    open spec fn view(&self) -> AccountResponseView {
        AccountResponseView {
            account_id: self.account_id@,
            balance_sats: self.balance_sats,
            burn_sats_per_min: self.burn_sats_per_min,
            runway_minutes: self.runway_minutes,
        }
    }
}

/// Body of `POST /accounts/{id}/deposit`.
#[derive(Debug, Clone, Copy, PartialEq, Eq)]
pub struct DepositRequest {
    pub sats: i64,
}

/// Response to `POST /accounts/{id}/deposit`.
#[derive(Debug, Clone, PartialEq, Eq)]
pub struct DepositResponse {
    pub bolt11: String,
    pub payment_hash: String,
    pub sats: i64,
}

/// What [`DepositResponse`] holds, with its texts as character sequences.
#[verifier::ext_equal]
pub struct DepositResponseView {
    pub bolt11: Seq<char>,
    pub payment_hash: Seq<char>,
    pub sats: i64,
}

impl View for DepositResponse {
    type V = DepositResponseView;

    open spec fn view(&self) -> DepositResponseView {
        DepositResponseView {
            bolt11: self.bolt11@,
            payment_hash: self.payment_hash@,
            sats: self.sats,
        }
    }
}

/// Body of `POST /rentals`.
#[derive(Debug, Clone, PartialEq, Eq)]
pub struct CreateRentalRequest {
    pub machine_id: i64,
    pub account_id: String,
    pub image: String,
    /// May be absent for images of the HTTP-status tier only.
    pub ssh_pubkey: Option<String>,
}

/// What [`CreateRentalRequest`] holds, with its texts as character sequences.
#[verifier::ext_equal]
pub struct CreateRentalRequestView {
    pub machine_id: i64,
    pub account_id: Seq<char>,
    pub image: Seq<char>,
    pub ssh_pubkey: Option<Seq<char>>,
}

impl View for CreateRentalRequest {
    type V = CreateRentalRequestView;

    open spec fn view(&self) -> CreateRentalRequestView {
        CreateRentalRequestView {
            machine_id: self.machine_id,
            account_id: self.account_id@,
            image: self.image@,
            ssh_pubkey: opt_text(self.ssh_pubkey),
        }
    }
}

/// Response to `POST /rentals`.
#[derive(Debug, Clone, Copy, PartialEq, Eq)]
pub struct CreateRentalResponse {
    pub rental_id: i64,
    pub status: RentalStatus,
    pub rate_sats_per_min: i64,
}

/// Response to `GET /rentals/{id}`. It has no field for the tenant's SSH key.
#[derive(Debug, Clone, PartialEq, Eq)]
pub struct RentalResponse {
    pub id: i64,
    pub machine_id: i64,
    pub account_id: String,
    pub image: String,
    pub status: RentalStatus,
    pub kind: RentalKind,
    pub gpu_name: String,
    pub gpu_count: i32,
    pub ssh_host: Option<String>,
    pub ssh_port: Option<i32>,
    /// `ssh -p <port> root@<host>` when both are known and the rental is an SSH box.
    pub ssh_command: Option<String>,
    pub rate_sats_per_min: i64,
    pub sats_charged: i64,
    pub minutes_billed: i64,
    pub paid_through: i64,
    pub error: Option<String>,
    pub created_at: i64,
    pub ended_at: Option<i64>,
}

/// What [`RentalResponse`] holds, with its texts as character sequences.
#[verifier::ext_equal]
pub struct RentalResponseView {
    pub id: i64,
    pub machine_id: i64,
    pub account_id: Seq<char>,
    pub image: Seq<char>,
    pub status: RentalStatus,
    pub kind: RentalKind,
    pub gpu_name: Seq<char>,
    pub gpu_count: i32,
    pub ssh_host: Option<Seq<char>>,
    pub ssh_port: Option<i32>,
    pub ssh_command: Option<Seq<char>>,
    pub rate_sats_per_min: i64,
    pub sats_charged: i64,
    pub minutes_billed: i64,
    pub paid_through: i64,
    pub error: Option<Seq<char>>,
    pub created_at: i64,
    pub ended_at: Option<i64>,
}

impl View for RentalResponse {
    type V = RentalResponseView;

    open spec fn view(&self) -> RentalResponseView {
        RentalResponseView {
            id: self.id,
            machine_id: self.machine_id,
            account_id: self.account_id@,
            image: self.image@,
            status: self.status,
            kind: self.kind,
            gpu_name: self.gpu_name@,
            gpu_count: self.gpu_count,
            ssh_host: opt_text(self.ssh_host),
            ssh_port: self.ssh_port,
            ssh_command: opt_text(self.ssh_command),
            rate_sats_per_min: self.rate_sats_per_min,
            sats_charged: self.sats_charged,
            minutes_billed: self.minutes_billed,
            paid_through: self.paid_through,
            error: opt_text(self.error),
            created_at: self.created_at,
            ended_at: self.ended_at,
        }
    }
}

/// Response to `DELETE /rentals/{id}`.
#[derive(Debug, Clone, Copy, PartialEq, Eq)]
pub struct DeleteRentalResponse {
    pub rental_id: i64,
    pub status: RentalStatus,
}

/// Response to `GET /health`.
#[derive(Debug, Clone, PartialEq, Eq)]
pub struct HealthResponse {
    pub ok: bool,
    pub ln_backend: String,
}

/// What [`HealthResponse`] holds, with its texts as character sequences.
#[verifier::ext_equal]
pub struct HealthResponseView {
    pub ok: bool,
    pub ln_backend: Seq<char>,
}

impl View for HealthResponse {
    type V = HealthResponseView;

    open spec fn view(&self) -> HealthResponseView {
        HealthResponseView {
            ok: self.ok,
            ln_backend: self.ln_backend@,
        }
    }
}

} // verus!
