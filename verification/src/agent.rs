//! The host agent's decisions: what it registers as, what it does with a command,
//! and what it reports of the outcome.

use vstd::prelude::*;

use crate::api::{
    Command, CommandView, RegisterRequest, RegisterRequestView, ReportRequest, ReportRequestView,
};
use crate::benchmark::{megabytes, Inventory};
use crate::model::{DiskType, Measure, RentalStatus};
use crate::runtime::{RentalSpec, RentalSpecView, Started, StartedView};
use crate::text::{copy_opt, opt_text, trim, trimmed};

verus! {

/// What a command asks the host's runtime to do.
#[derive(Debug, Clone, PartialEq, Eq)]
pub enum Action {
    Start(RentalSpec),
    Stop(i64),
}

/// What [`Action`] holds, with its texts as character sequences.
pub enum ActionView {
    Start(RentalSpecView),
    Stop(i64),
}

impl View for Action {
    type V = ActionView;

    open spec fn view(&self) -> ActionView {
        match self {
            Action::Start(s) => ActionView::Start(s@),
            Action::Stop(id) => ActionView::Stop(*id),
        }
    }
}

/// What a command asks for.
pub open spec fn action_of(cmd: CommandView) -> ActionView {
    match cmd {
        CommandView::StartRental { rental_id, image, ssh_pubkey } => ActionView::Start(
            RentalSpecView { rental_id, image, ssh_pubkey },
        ),
        CommandView::StopRental { rental_id } => ActionView::Stop(rental_id),
    }
}

/// Turns a command into what the runtime is to do. Its outcome is then reported by
/// [`start_report`] or [`stop_report`].
pub fn dispatch(cmd: Command) -> (r: Action)
    ensures
        r@ == action_of(cmd@),
{
    match cmd {
        Command::StartRental { rental_id, image, ssh_pubkey } => Action::Start(
            RentalSpec { rental_id, image, ssh_pubkey },
        ),
        Command::StopRental { rental_id } => Action::Stop(rental_id),
    }
}

/// A report without details.
pub open spec fn bare_report(
    rental_id: i64,
    status: RentalStatus,
    error: Option<Seq<char>>,
) -> ReportRequestView {
    ReportRequestView {
        rental_id,
        status,
        kind: None,
        ssh_port: None,
        container_id: None,
        error,
    }
}

/// The report on an attempt to start a rental.
pub open spec fn report_of_start(rental_id: i64, outcome: Result<StartedView, Seq<char>>) -> ReportRequestView {
    match outcome {
        Ok(s) => ReportRequestView {
            rental_id,
            status: RentalStatus::Running,
            kind: Some(s.kind),
            ssh_port: Some(s.ssh_port),
            container_id: Some(s.container_id),
            error: None,
        },
        Err(e) => bare_report(rental_id, RentalStatus::Failed, Some(e)),
    }
}

/// The report on an attempt to stop a rental.
pub open spec fn report_of_stop(rental_id: i64, outcome: Result<(), Seq<char>>) -> ReportRequestView {
    match outcome {
        Ok(_) => bare_report(rental_id, RentalStatus::Stopped, None),
        Err(e) => bare_report(rental_id, RentalStatus::Failed, Some(e)),
    }
}

/// Reports an attempt to start a rental.
pub fn start_report(rental_id: i64, outcome: Result<Started, String>) -> (r: ReportRequest)
    ensures
        r@ == report_of_start(
            rental_id,
            match outcome {
                Ok(s) => Ok(s@),
                Err(e) => Err(e@),
            },
        ),
{
    match outcome {
        Ok(s) => ReportRequest {
            rental_id,
            status: RentalStatus::Running,
            kind: Some(s.kind),
            ssh_port: Some(s.ssh_port),
            container_id: Some(s.container_id),
            error: None,
        },
        Err(e) => ReportRequest {
            rental_id,
            status: RentalStatus::Failed,
            kind: None,
            ssh_port: None,
            container_id: None,
            error: Some(e),
        },
    }
}

/// Reports an attempt to stop a rental.
pub fn stop_report(rental_id: i64, outcome: Result<(), String>) -> (r: ReportRequest)
    ensures
        r@ == report_of_stop(
            rental_id,
            match outcome {
                Ok(_) => Ok(()),
                Err(e) => Err(e@),
            },
        ),
{
    match outcome {
        Ok(_) => ReportRequest {
            rental_id,
            status: RentalStatus::Stopped,
            kind: None,
            ssh_port: None,
            container_id: None,
            error: None,
        },
        Err(e) => ReportRequest {
            rental_id,
            status: RentalStatus::Failed,
            kind: None,
            ssh_port: None,
            container_id: None,
            error: Some(e),
        },
    }
}

/// Static host facts beside the GPUs.
#[derive(Debug, Clone, PartialEq, Eq)]
pub struct HostSpecs {
    pub cpu_name: String,
    pub cpu_cores: i32,
    pub ram_mb: i64,
    pub disk_gb: i64,
    pub disk_type: DiskType,
}

/// A disk as the system shows it.
#[derive(Debug, Clone, Copy, PartialEq, Eq, Structural)]
pub struct DiskSeen {
    pub total_space: u64,
    pub medium: DiskType,
}

/// True for the scratch disk: the largest, and the last of several such.
pub open spec fn is_scratch(disks: Seq<DiskSeen>, i: int) -> bool {
    &&& 0 <= i < disks.len()
    &&& forall|j: int|
        0 <= j < disks.len() ==> (#[trigger] disks[j]).total_space <= disks[i].total_space
    &&& forall|j: int|
        i < j < disks.len() ==> (#[trigger] disks[j]).total_space < disks[i].total_space
}

/// The name shown for a processor: its brand without the space around it, if there
/// is one.
pub open spec fn cpu_label(brand: Option<Seq<char>>) -> Seq<char> {
    match brand {
        Some(b) => if trimmed(b).len() > 0 {
            trimmed(b)
        } else {
            "unknown"@
        },
        None => "unknown"@,
    }
}

fn cpu_name(brand: &Option<String>) -> (r: String)
    ensures
        r@ == cpu_label(opt_text(*brand)),
{
    if let Some(b) = brand {
        let name = trim(b.as_str());
        if !name.as_str().is_empty() {
            return name;
        }
    }
    "unknown".to_owned()
}

fn scratch_disk(disks: &Vec<DiskSeen>) -> (r: Option<DiskSeen>)
    ensures
        match r {
            Some(d) => exists|i: int| #[trigger] is_scratch(disks@, i) && d == disks@[i],
            None => disks@.len() == 0,
        },
{
    if disks.len() == 0 {
        return None;
    }
    let mut best: usize = 0;
    let mut i: usize = 1;
    while i < disks.len()
        invariant
            best < i <= disks@.len(),
            forall|j: int|
                0 <= j < i ==> (#[trigger] disks@[j]).total_space <= disks@[best as int].total_space,
            forall|j: int|
                best < j < i ==> (#[trigger] disks@[j]).total_space < disks@[best as int].total_space,
        decreases disks@.len() - i,
    {
        if disks[i].total_space >= disks[best].total_space {
            best = i;
        }
        i += 1;
    }
    proof {
        assert(is_scratch(disks@, best as int));
    }
    Some(disks[best])
}

/// The host's facts from what the system shows: the first processor's brand, the
/// number of processors, the bytes of memory, and the disks, of which the largest
/// is the scratch volume.
pub fn collect_host_specs(
    brand: Option<String>,
    cores: usize,
    total_memory: u64,
    disks: &Vec<DiskSeen>,
) -> (r: HostSpecs)
    ensures
        r.cpu_name@ == cpu_label(opt_text(brand)),
        r.cpu_cores == cores as i32,
        r.ram_mb == total_memory / 1048576,
        disks@.len() == 0 ==> r.disk_gb == 0 && r.disk_type == DiskType::Unknown,
        disks@.len() > 0 ==> exists|i: int| #[trigger]
            is_scratch(disks@, i) && r.disk_gb == disks@[i].total_space / 1000000000 && r.disk_type
                == disks@[i].medium,
{
    let (disk_gb, disk_type): (i64, DiskType) = match scratch_disk(disks) {
        Some(d) => ((d.total_space / 1000000000) as i64, d.medium),
        None => (0, DiskType::Unknown),
    };
    HostSpecs {
        cpu_name: cpu_name(&brand),
        cpu_cores: cores as i32,
        ram_mb: megabytes(total_memory),
        disk_gb,
        disk_type,
    }
}

/// What the provider sets for a host.
#[derive(Debug, Clone, PartialEq, Eq)]
pub struct HostSettings {
    pub public_ip: String,
    pub rate_sats_per_min: i64,
    pub port_start: i32,
    pub port_end: i32,
    pub heartbeat_secs: u64,
    pub country: Option<String>,
    pub inet_down_mbps: Option<Measure>,
    pub inet_up_mbps: Option<Measure>,
}

/// Checks the provider's settings: the price is at least one sat per minute.
pub fn check_settings(settings: &HostSettings) -> (r: Result<(), String>)
    ensures
        match r {
            Ok(_) => settings.rate_sats_per_min >= 1,
            Err(e) => settings.rate_sats_per_min < 1 && e@ == "rate_sats_per_min must be >= 1"@,
        },
{
    if settings.rate_sats_per_min < 1 {
        Err("rate_sats_per_min must be >= 1".to_owned())
    } else {
        Ok(())
    }
}

/// True when a host beats so rarely that the control plane may take it for gone.
pub fn heartbeat_too_slow(heartbeat_secs: u64) -> (r: bool)
    ensures
        r == (heartbeat_secs >= 90),
{
    heartbeat_secs >= 90
}

/// The body of a host's registration. `dlperf` is the inventory's score as a
/// floating-point number.
pub fn register_request(
    host_id: &str,
    inventory: &Inventory,
    specs: &HostSpecs,
    settings: &HostSettings,
    dlperf: Measure,
) -> (r: RegisterRequest)
    ensures
        r@ == (RegisterRequestView {
            host_id: host_id@,
            gpu_name: if inventory.gpus@.len() > 0 {
                inventory.gpus@[0].name@
            } else {
                "unknown"@
            },
            gpu_count: inventory.gpus@.len() as i32,
            vram_mb: if inventory.gpus@.len() > 0 {
                inventory.gpus@[0].vram_mb
            } else {
                0
            },
            cpu_name: specs.cpu_name@,
            cpu_cores: specs.cpu_cores,
            ram_mb: specs.ram_mb,
            disk_gb: specs.disk_gb,
            disk_type: specs.disk_type,
            public_ip: settings.public_ip@,
            port_start: settings.port_start,
            port_end: settings.port_end,
            inet_down_mbps: settings.inet_down_mbps,
            inet_up_mbps: settings.inet_up_mbps,
            country: opt_text(settings.country),
            dlperf,
            rate_sats_per_min: settings.rate_sats_per_min,
            hw_fingerprint: inventory.hw_fingerprint@,
        }),
{
    RegisterRequest {
        host_id: host_id.to_owned(),
        gpu_name: inventory.gpu_name().to_owned(),
        gpu_count: inventory.gpu_count(),
        vram_mb: inventory.vram_mb(),
        cpu_name: specs.cpu_name.clone(),
        cpu_cores: specs.cpu_cores,
        ram_mb: specs.ram_mb,
        disk_gb: specs.disk_gb,
        disk_type: specs.disk_type,
        public_ip: settings.public_ip.clone(),
        port_start: settings.port_start,
        port_end: settings.port_end,
        inet_down_mbps: settings.inet_down_mbps,
        inet_up_mbps: settings.inet_up_mbps,
        country: copy_opt(&settings.country),
        dlperf,
        rate_sats_per_min: settings.rate_sats_per_min,
        hw_fingerprint: inventory.hw_fingerprint.clone(),
    }
}

} // verus!
