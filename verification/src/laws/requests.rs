//! Laws of the requests: what each of them does to the rows, and when it is refused.
//! Every law names the rows that a request is about and says what they hold before
//! and after it.

use vstd::prelude::*;

use super::lookup::{
    accounts_are_found, machines_are_found, rentals_are_found,
    the_bearer_is_the_machine,
};
use super::texts::{only_white_space_trims_to_nothing, trimming_takes_white_space_only};
use super::{after, refused, valid, Event};
use crate::api::{
    CommandView, CreateRentalRequestView, RegisterRequestView, RegisterResponseView,
    ReportRequestView,
};
use crate::db::{
    holds_machine, lemma_position, lemma_position_none, occupied, AccountRowView, CommandRowView, InvoiceRowView,
    LedgerRowView, MachineRowView, Market, RentalRowView,
};
use crate::lightning::InvoiceView;
use crate::model::{LedgerKind, RentalKind, RentalStatus};
use crate::routes::agent::{
    payout_refusal, rate_refusal, register_refusal, register_reply, report_refusal, waiting,
    waits_for, PayoutDue,
};
use crate::routes::tenant::{
    account_refusal, invoice_refusal, rental_key, rental_refusal,
};
use crate::text::{has_prefix, is_space};

verus! {

// Renting.

/// A machine without a live rental is free.
proof fn lemma_free(m: Market, machine_id: i64)
    requires
        forall|k: int|
            0 <= k < m.rentals.len() && (#[trigger] m.rentals[k]).machine_id == machine_id
                ==> m.rentals[k].status == RentalStatus::Stopped || m.rentals[k].status
                == RentalStatus::Failed,
    ensures
        !occupied(m, machine_id),
{
}

/// What a granted rental adds, whatever its key is.
proof fn lemma_granted(
    m: Market,
    i: int,
    a: int,
    req: CreateRentalRequestView,
    period: i64,
    now: i64,
)
    requires
        valid(m),
        0 <= i < m.machines.len(),
        0 <= a < m.accounts.len(),
        req.machine_id == m.machines[i].id,
        req.account_id == m.accounts[a].id,
        m.machines[i].online,
        forall|k: int|
            0 <= k < m.rentals.len() && (#[trigger] m.rentals[k]).machine_id == req.machine_id
                ==> m.rentals[k].status == RentalStatus::Stopped || m.rentals[k].status
                == RentalStatus::Failed,
        m.accounts[a].balance_sats >= m.machines[i].rate_sats_per_min,
        m.rentals.len() > 0 ==> m.rentals.last().id < i64::MAX,
        i64::MIN <= now + period <= i64::MAX,
        rental_key(req) is Some,
    ensures
        ({
            let key = rental_key(req)->0;
            let id = (if m.rentals.len() > 0 { m.rentals.last().id + 1 } else { 1 }) as i64;
            &&& rental_refusal(m, req) is None
            &&& after(m, Event::CreateRental { request: req, period, now }) == (Market {
                rentals: m.rentals.push(
                    RentalRowView {
                        id,
                        machine_id: m.machines[i].id,
                        account_id: m.accounts[a].id,
                        image: req.image,
                        ssh_pubkey: key,
                        status: RentalStatus::Provisioning,
                        kind: RentalKind::Ssh,
                        ssh_host: None,
                        ssh_port: None,
                        container_id: None,
                        error: None,
                        rate_sats_per_min: m.machines[i].rate_sats_per_min,
                        sats_charged: 0,
                        minutes_billed: 0,
                        paid_through: (now + period) as i64,
                        created_at: now,
                        ended_at: None,
                    },
                ),
                commands: m.commands.push(
                    CommandRowView {
                        machine_id: m.machines[i].id,
                        payload: CommandView::StartRental {
                            rental_id: id,
                            image: req.image,
                            ssh_pubkey: key,
                        },
                        delivered: false,
                        created_at: now,
                    },
                ),
                ..m
            })
        }),
{
    machines_are_found(m, i);
    accounts_are_found(m, a);
    lemma_free(m, req.machine_id);
}

/// A rental with a key is granted on an online machine that no live rental holds, to
/// an account that covers a minute. It gets the machine's price of the moment and the
/// tenant's key in full, without the white space around it; the machine is told to
/// start just that. No money moves.
pub proof fn a_rental_gets_the_whole_key(
    m: Market,
    i: int,
    a: int,
    req: CreateRentalRequestView,
    from: int,
    to: int,
    period: i64,
    now: i64,
)
    requires
        valid(m),
        0 <= i < m.machines.len(),
        0 <= a < m.accounts.len(),
        req.machine_id == m.machines[i].id,
        req.account_id == m.accounts[a].id,
        m.machines[i].online,
        forall|k: int|
            0 <= k < m.rentals.len() && (#[trigger] m.rentals[k]).machine_id == req.machine_id
                ==> m.rentals[k].status == RentalStatus::Stopped || m.rentals[k].status
                == RentalStatus::Failed,
        m.accounts[a].balance_sats >= m.machines[i].rate_sats_per_min,
        m.rentals.len() > 0 ==> m.rentals.last().id < i64::MAX,
        i64::MIN <= now + period <= i64::MAX,
        req.ssh_pubkey is Some,
        0 <= from < to <= req.ssh_pubkey->0.len(),
        forall|k: int| 0 <= k < from ==> is_space(#[trigger] req.ssh_pubkey->0[k]),
        forall|k: int|
            to <= k < req.ssh_pubkey->0.len() ==> is_space(#[trigger] req.ssh_pubkey->0[k]),
        !is_space(req.ssh_pubkey->0[from]),
        !is_space(req.ssh_pubkey->0[to - 1]),
    ensures
        ({
            let key = req.ssh_pubkey->0.subrange(from, to);
            let id = (if m.rentals.len() > 0 { m.rentals.last().id + 1 } else { 1 }) as i64;
            &&& rental_refusal(m, req) is None
            &&& after(m, Event::CreateRental { request: req, period, now }) == (Market {
                rentals: m.rentals.push(
                    RentalRowView {
                        id,
                        machine_id: m.machines[i].id,
                        account_id: m.accounts[a].id,
                        image: req.image,
                        ssh_pubkey: key,
                        status: RentalStatus::Provisioning,
                        kind: RentalKind::Ssh,
                        ssh_host: None,
                        ssh_port: None,
                        container_id: None,
                        error: None,
                        rate_sats_per_min: m.machines[i].rate_sats_per_min,
                        sats_charged: 0,
                        minutes_billed: 0,
                        paid_through: (now + period) as i64,
                        created_at: now,
                        ended_at: None,
                    },
                ),
                commands: m.commands.push(
                    CommandRowView {
                        machine_id: m.machines[i].id,
                        payload: CommandView::StartRental {
                            rental_id: id,
                            image: req.image,
                            ssh_pubkey: key,
                        },
                        delivered: false,
                        created_at: now,
                    },
                ),
                ..m
            })
        }),
{
    let k = req.ssh_pubkey->0;
    trimming_takes_white_space_only(k, from, to);
    lemma_granted(m, i, a, req, period, now);
}

/// A job of the host's own making needs no key: a request for a `metal:` image without
/// one, or with a blank one, is granted under the same conditions, with an empty key.
pub proof fn a_job_needs_no_key(
    m: Market,
    i: int,
    a: int,
    req: CreateRentalRequestView,
    job: Seq<char>,
    period: i64,
    now: i64,
)
    requires
        valid(m),
        0 <= i < m.machines.len(),
        0 <= a < m.accounts.len(),
        req.machine_id == m.machines[i].id,
        req.account_id == m.accounts[a].id,
        m.machines[i].online,
        forall|k: int|
            0 <= k < m.rentals.len() && (#[trigger] m.rentals[k]).machine_id == req.machine_id
                ==> m.rentals[k].status == RentalStatus::Stopped || m.rentals[k].status
                == RentalStatus::Failed,
        m.accounts[a].balance_sats >= m.machines[i].rate_sats_per_min,
        m.rentals.len() > 0 ==> m.rentals.last().id < i64::MAX,
        i64::MIN <= now + period <= i64::MAX,
        req.image == "metal:"@ + job,
        req.ssh_pubkey is Some ==> forall|k: int|
            0 <= k < req.ssh_pubkey->0.len() ==> is_space(#[trigger] req.ssh_pubkey->0[k]),
    ensures
        ({
            let n = after(m, Event::CreateRental { request: req, period, now });
            let id = (if m.rentals.len() > 0 { m.rentals.last().id + 1 } else { 1 }) as i64;
            &&& rental_refusal(m, req) is None
            &&& n.rentals.len() == m.rentals.len() + 1
            &&& n.rentals.last().id == id
            &&& n.rentals.last().image == req.image
            &&& n.rentals.last().ssh_pubkey == Seq::<char>::empty()
            &&& n.rentals.last().rate_sats_per_min == m.machines[i].rate_sats_per_min
            &&& n.commands == m.commands.push(
                CommandRowView {
                    machine_id: m.machines[i].id,
                    payload: CommandView::StartRental {
                        rental_id: id,
                        image: req.image,
                        ssh_pubkey: Seq::empty(),
                    },
                    delivered: false,
                    created_at: now,
                },
            )
        }),
{
    assert(req.image.take("metal:"@.len() as int) =~= "metal:"@);
    if req.ssh_pubkey is Some {
        only_white_space_trims_to_nothing(req.ssh_pubkey->0);
    }
    lemma_granted(m, i, a, req, period, now);
}

/// A rental is refused for a reason, and each reason has its own answer: 404 for a
/// machine or an account that is not there; then 400 where an image other than
/// `metal:` comes without a key; then 409 for a machine that is offline or that a live
/// rental holds; then 402 for an account that does not cover a minute.
pub proof fn a_rental_is_refused_for_a_reason(m: Market, req: CreateRentalRequestView)
    ensures
        ({
            let known_machine = exists|i: int|
                0 <= i < m.machines.len() && (#[trigger] m.machines[i]).id == req.machine_id;
            let known_account = exists|a: int|
                0 <= a < m.accounts.len() && (#[trigger] m.accounts[a]).id == req.account_id;
            &&& !known_machine ==> (rental_refusal(m, req) matches Some(e) && e.status == 404
                && e.message == "unknown machine"@)
            &&& known_machine && !known_account ==> (rental_refusal(m, req) matches Some(e)
                && e.status == 404 && e.message == "unknown account"@)
        }),
        refused(m, Event::CreateRental { request: req, period: 0, now: 0 }) <==> rental_refusal(
            m,
            req,
        ) is Some,
{
    lemma_position(m.machines, |x: MachineRowView| x.id == req.machine_id);
    lemma_position(m.accounts, |x: AccountRowView| x.id == req.account_id);
}

/// The answers to a request by a known account for a known machine.
pub proof fn a_known_tenant_is_refused_for_a_reason(
    m: Market,
    i: int,
    a: int,
    req: CreateRentalRequestView,
)
    requires
        valid(m),
        0 <= i < m.machines.len(),
        0 <= a < m.accounts.len(),
        req.machine_id == m.machines[i].id,
        req.account_id == m.accounts[a].id,
    ensures
        ({
            let blank = req.ssh_pubkey is None || forall|k: int|
                0 <= k < req.ssh_pubkey->0.len() ==> is_space(#[trigger] req.ssh_pubkey->0[k]);
            let keyed = !blank || exists|job: Seq<char>| req.image == #[trigger] ("metal:"@ + job);
            let busy = exists|k: int|
                0 <= k < m.rentals.len() && (#[trigger] m.rentals[k]).machine_id
                    == m.machines[i].id && m.rentals[k].status != RentalStatus::Stopped
                    && m.rentals[k].status != RentalStatus::Failed;
            let poor = m.accounts[a].balance_sats < m.machines[i].rate_sats_per_min;
            let refusal = rental_refusal(m, req);
            &&& !keyed ==> (refusal matches Some(e) && e.status == 400)
            &&& keyed && !m.machines[i].online ==> (refusal matches Some(e) && e.status == 409
                && e.message == "machine is offline"@)
            &&& keyed && m.machines[i].online && busy ==> (refusal matches Some(e) && e.status
                == 409 && e.message == "machine already rented"@)
            &&& keyed && m.machines[i].online && !busy && poor ==> (refusal matches Some(e)
                && e.status == 402)
            &&& keyed && m.machines[i].online && !busy && !poor && (m.rentals.len() > 0
                ==> m.rentals.last().id < i64::MAX) ==> refusal is None
        }),
{
    machines_are_found(m, i);
    accounts_are_found(m, a);
    if req.ssh_pubkey is Some {
        only_white_space_trims_to_nothing(req.ssh_pubkey->0);
    }
    if has_prefix(req.image, "metal:"@) {
        let job = req.image.skip("metal:"@.len() as int);
        assert(req.image =~= "metal:"@ + job);
    }
    if exists|job: Seq<char>| req.image == #[trigger] ("metal:"@ + job) {
        assert(req.image.take("metal:"@.len() as int) =~= "metal:"@);
    }
    if occupied(m, req.machine_id) {
        let k = choose|k: int|
            0 <= k < m.rentals.len() && holds_machine(#[trigger] m.rentals[k], req.machine_id);
        assert(m.rentals[k].machine_id == m.machines[i].id);
    } else {
        assert forall|k: int|
            0 <= k < m.rentals.len() && (#[trigger] m.rentals[k]).machine_id
                == m.machines[i].id implies m.rentals[k].status == RentalStatus::Stopped
            || m.rentals[k].status == RentalStatus::Failed by {
            assert(!holds_machine(m.rentals[k], req.machine_id));
        }
    }
}

/// A tenant's wish to stop a live rental sets it to being evicted and tells its machine
/// to stop it. A rental that is being evicted already, or has ended, stays as it is.
pub proof fn a_rental_is_stopped_on_request(m: Market, j: int, now: i64)
    requires
        valid(m),
        0 <= j < m.rentals.len(),
    ensures
        ({
            let r = m.rentals[j];
            let n = after(m, Event::DeleteRental { rental: r.id, now });
            &&& r.status == RentalStatus::Provisioning || r.status == RentalStatus::Running
                ==> n == (Market {
                rentals: m.rentals.update(
                    j,
                    RentalRowView { status: RentalStatus::Evicting, ..r },
                ),
                commands: m.commands.push(
                    CommandRowView {
                        machine_id: r.machine_id,
                        payload: CommandView::StopRental { rental_id: r.id },
                        delivered: false,
                        created_at: now,
                    },
                ),
                ..m
            })
            &&& r.status == RentalStatus::Evicting || r.status == RentalStatus::Stopped || r.status
                == RentalStatus::Failed ==> n == m
        }),
{
    rentals_are_found(m, j);
}

// Reports.

/// A report that does not end a live rental only tells of it: the rental of the calling
/// machine shows the machine's address and what was reported, a status only while it
/// has not ended or if the report says that it has. No money moves.
pub proof fn a_report_tells_of_a_rental(m: Market, i: int, j: int, req: ReportRequestView, now: i64)
    requires
        valid(m),
        0 <= i < m.machines.len(),
        0 <= j < m.rentals.len(),
        m.rentals[j].machine_id == m.machines[i].id,
        req.rental_id == m.rentals[j].id,
        ({
            let ended = m.rentals[j].status == RentalStatus::Stopped || m.rentals[j].status
                == RentalStatus::Failed;
            let ends = req.status == RentalStatus::Stopped || req.status == RentalStatus::Failed;
            ended || !ends
        }),
    ensures
        ({
            let authorization = Some("Bearer "@ + m.machines[i].agent_token);
            let r = m.rentals[j];
            let ended = r.status == RentalStatus::Stopped || r.status == RentalStatus::Failed;
            let ends = req.status == RentalStatus::Stopped || req.status == RentalStatus::Failed;
            &&& report_refusal(m, authorization, req, now) is None
            &&& after(m, Event::Report { authorization, report: req, now }) == (Market {
                rentals: m.rentals.update(
                    j,
                    RentalRowView {
                        status: if ended && !ends { r.status } else { req.status },
                        kind: if req.kind is Some { req.kind->0 } else { r.kind },
                        ssh_host: Some(m.machines[i].public_ip),
                        ssh_port: if req.ssh_port is Some {
                            Some(req.ssh_port->0 as i64)
                        } else {
                            None
                        },
                        container_id: if req.container_id is Some {
                            req.container_id
                        } else {
                            r.container_id
                        },
                        error: req.error,
                        ended_at: if ends { Some(now) } else { r.ended_at },
                        ..r
                    },
                ),
                ..m
            })
        }),
{
    the_bearer_is_the_machine(m, i);
    rentals_are_found(m, j);
}

/// A machine cannot report on a rental that is not its own: it is told that there is
/// none, and nothing changes.
pub proof fn a_machine_reports_on_its_own_rentals(
    m: Market,
    i: int,
    req: ReportRequestView,
    now: i64,
)
    requires
        valid(m),
        0 <= i < m.machines.len(),
        forall|j: int|
            0 <= j < m.rentals.len() && (#[trigger] m.rentals[j]).id == req.rental_id
                ==> m.rentals[j].machine_id != m.machines[i].id,
    ensures
        ({
            let authorization = Some("Bearer "@ + m.machines[i].agent_token);
            &&& report_refusal(m, authorization, req, now) matches Some(e)
            &&& e.status == 404
            &&& after(m, Event::Report { authorization, report: req, now }) == m
        }),
{
    the_bearer_is_the_machine(m, i);
    let id = m.machines[i].id;
    lemma_position_none(
        m.rentals,
        |x: RentalRowView| x.id == req.rental_id && x.machine_id == id,
    );
}

// Hosts.

/// A new host gets a row with all that it told of itself, the token made for it and the
/// next id, online from now on and with nothing owed.
pub proof fn a_new_host_gets_a_row(m: Market, req: RegisterRequestView, token: Seq<char>, now: i64)
    requires
        req.rate_sats_per_min >= 1,
        forall|i: int| 0 <= i < m.machines.len() ==> (#[trigger] m.machines[i]).host_id != req.host_id,
        forall|i: int| 0 <= i < m.machines.len() ==> (#[trigger] m.machines[i]).agent_token != token,
        m.machines.len() > 0 ==> m.machines.last().id < i64::MAX,
    ensures
        ({
            let id = (if m.machines.len() > 0 { m.machines.last().id + 1 } else { 1 }) as i64;
            &&& register_refusal(m, req, token) is None
            &&& register_reply(m, req, token) == (RegisterResponseView {
                machine_id: id,
                agent_token: token,
            })
            &&& after(m, Event::Register { registration: req, token, now }) == (Market {
                machines: m.machines.push(
                    MachineRowView {
                        id,
                        agent_token: token,
                        host_id: req.host_id,
                        gpu_name: req.gpu_name,
                        gpu_count: req.gpu_count as i64,
                        vram_mb: req.vram_mb,
                        cpu_name: req.cpu_name,
                        cpu_cores: req.cpu_cores as i64,
                        ram_mb: req.ram_mb,
                        disk_gb: req.disk_gb,
                        disk_type: req.disk_type,
                        public_ip: req.public_ip,
                        port_start: req.port_start as i64,
                        port_end: req.port_end as i64,
                        inet_down_mbps: req.inet_down_mbps,
                        inet_up_mbps: req.inet_up_mbps,
                        country: req.country,
                        dlperf: req.dlperf,
                        rate_sats_per_min: req.rate_sats_per_min,
                        payout_balance: 0,
                        online: true,
                        last_heartbeat: now,
                        hw_fingerprint: req.hw_fingerprint,
                        created_at: now,
                    },
                ),
                ..m
            })
        }),
{
    let host = req.host_id;
    lemma_position_none(m.machines, |x: MachineRowView| x.host_id == host);
    lemma_position_none(m.machines, |x: MachineRowView| x.agent_token == token);
}

/// A host that registers again keeps its id, its token, its age and what it is owed,
/// and gets the specs and the price that it tells of now. It is online.
pub proof fn a_known_host_is_refreshed(
    m: Market,
    i: int,
    req: RegisterRequestView,
    token: Seq<char>,
    now: i64,
)
    requires
        valid(m),
        0 <= i < m.machines.len(),
        req.host_id == m.machines[i].host_id,
        req.rate_sats_per_min >= 1,
    ensures
        ({
            let h = m.machines[i];
            &&& register_refusal(m, req, token) is None
            &&& register_reply(m, req, token) == (RegisterResponseView {
                machine_id: h.id,
                agent_token: h.agent_token,
            })
            &&& after(m, Event::Register { registration: req, token, now }) == (Market {
                machines: m.machines.update(
                    i,
                    MachineRowView {
                        id: h.id,
                        agent_token: h.agent_token,
                        host_id: h.host_id,
                        gpu_name: req.gpu_name,
                        gpu_count: req.gpu_count as i64,
                        vram_mb: req.vram_mb,
                        cpu_name: req.cpu_name,
                        cpu_cores: req.cpu_cores as i64,
                        ram_mb: req.ram_mb,
                        disk_gb: req.disk_gb,
                        disk_type: req.disk_type,
                        public_ip: req.public_ip,
                        port_start: req.port_start as i64,
                        port_end: req.port_end as i64,
                        inet_down_mbps: req.inet_down_mbps,
                        inet_up_mbps: req.inet_up_mbps,
                        country: req.country,
                        dlperf: req.dlperf,
                        rate_sats_per_min: req.rate_sats_per_min,
                        payout_balance: h.payout_balance,
                        online: true,
                        last_heartbeat: now,
                        hw_fingerprint: req.hw_fingerprint,
                        created_at: h.created_at,
                    },
                ),
                ..m
            })
        }),
{
    machines_are_found(m, i);
}

/// No host is for free: a registration at less than one sat per minute is refused, and
/// so is such a price for a host that is there. A price of one sat or more is taken,
/// for this machine and for rentals to come.
pub proof fn a_price_is_at_least_one_sat(
    m: Market,
    i: int,
    req: RegisterRequestView,
    token: Seq<char>,
    rate: i64,
    now: i64,
)
    requires
        valid(m),
        0 <= i < m.machines.len(),
    ensures
        req.rate_sats_per_min < 1 ==> {
            &&& register_refusal(m, req, token) matches Some(e)
            &&& e.status == 400
            &&& after(m, Event::Register { registration: req, token, now }) == m
        },
        ({
            let authorization = Some("Bearer "@ + m.machines[i].agent_token);
            let n = after(m, Event::Rate { authorization, rate });
            &&& rate < 1 ==> n == m && (rate_refusal(m, authorization, rate) matches Some(e)
                && e.status == 400)
            &&& rate >= 1 ==> rate_refusal(m, authorization, rate) is None && n == (Market {
                machines: m.machines.update(
                    i,
                    MachineRowView { rate_sats_per_min: rate, ..m.machines[i] },
                ),
                ..m
            })
        }),
{
    the_bearer_is_the_machine(m, i);
}

/// A heartbeat refreshes its own machine and delivers what waits for it: the machine
/// has been heard from now and is as much online as it says, its commands count as
/// delivered, and nothing else changes.
pub proof fn a_heartbeat_delivers_what_waits(m: Market, i: int, online: bool, now: i64)
    requires
        valid(m),
        0 <= i < m.machines.len(),
    ensures
        ({
            let authorization = Some("Bearer "@ + m.machines[i].agent_token);
            let n = after(m, Event::Heartbeat { authorization, online, now });
            &&& n == (Market { machines: n.machines, commands: n.commands, ..m })
            &&& n.machines == m.machines.update(
                i,
                MachineRowView { online, last_heartbeat: now, ..m.machines[i] },
            )
            &&& n.commands.len() == m.commands.len()
            &&& forall|c: int|
                0 <= c < m.commands.len() ==> #[trigger] n.commands[c] == (CommandRowView {
                    delivered: m.commands[c].delivered || m.commands[c].machine_id
                        == m.machines[i].id,
                    ..m.commands[c]
                })
        }),
{
    the_bearer_is_the_machine(m, i);
}

/// What a heartbeat is answered with is told command by command: one that waits for
/// the machine comes behind all that waited before it, and every other is passed over.
pub proof fn commands_wait_in_line(cs: Seq<CommandRowView>, c: CommandRowView, machine_id: i64)
    ensures
        waiting(Seq::empty(), machine_id) == Seq::<CommandView>::empty(),
        c.machine_id == machine_id && !c.delivered ==> waiting(cs.push(c), machine_id) == waiting(
            cs,
            machine_id,
        ).push(c.payload),
        c.machine_id != machine_id || c.delivered ==> waiting(cs.push(c), machine_id) == waiting(
            cs,
            machine_id,
        ),
{
    reveal(Seq::filter);
    let p = |c: CommandRowView| waits_for(c, machine_id);
    assert(cs.push(c).drop_last() =~= cs);
    assert(cs.push(c).last() == c);
    assert(waiting(Seq::empty(), machine_id) =~= Seq::<CommandView>::empty());
    if p(c) {
        assert(cs.push(c).filter(p) == cs.filter(p).push(c));
        assert(waiting(cs.push(c), machine_id) =~= waiting(cs, machine_id).push(c.payload));
    } else {
        assert(cs.push(c).filter(p) == cs.filter(p));
    }
}

/// A payout that was made is booked: nothing is owed to the machine any more, and the
/// ledger shows the sats that left. One whose payment failed changes nothing and is
/// answered with 502.
pub proof fn a_payout_is_booked(
    m: Market,
    i: int,
    due: PayoutDue,
    failure: Option<Seq<char>>,
    now: i64,
)
    requires
        valid(m),
        0 <= i < m.machines.len(),
        due.machine_id == m.machines[i].id,
        due.owed > 0,
    ensures
        ({
            let n = after(m, Event::Payout { due, failure, now });
            &&& failure is Some ==> n == m && (payout_refusal(m, due, failure) matches Some(e)
                && e.status == 502)
            &&& failure is None ==> payout_refusal(m, due, failure) is None && n == (Market {
                machines: m.machines.update(
                    i,
                    MachineRowView { payout_balance: 0, ..m.machines[i] },
                ),
                ledger: m.ledger.push(
                    LedgerRowView {
                        ts: now,
                        kind: LedgerKind::Payout,
                        delta_sats: (-due.owed) as i64,
                        account_id: None,
                        machine_id: Some(m.machines[i].id),
                        rental_id: None,
                        note: Some("payout"@),
                    },
                ),
                ..m
            })
        }),
{
    machines_are_found(m, i);
}

// Accounts.

/// A new account has the id made for it and nothing on it.
pub proof fn a_new_account_is_empty(m: Market, id: Seq<char>, now: i64)
    requires
        forall|a: int| 0 <= a < m.accounts.len() ==> (#[trigger] m.accounts[a]).id != id,
    ensures
        account_refusal(m, id) is None,
        after(m, Event::CreateAccount { account: id, now }) == (Market {
            accounts: m.accounts.push(AccountRowView { id, balance_sats: 0, created_at: now }),
            ..m
        }),
{
    lemma_position_none(m.accounts, |x: AccountRowView| x.id == id);
}

/// A deposit is an invoice of the whole amount until it is paid: it stands open for the
/// account, and no balance changes.
pub proof fn a_deposit_is_an_open_invoice(
    m: Market,
    a: int,
    sats: i64,
    invoice: InvoiceView,
    now: i64,
)
    requires
        valid(m),
        0 <= a < m.accounts.len(),
        sats >= 1,
        forall|k: int|
            0 <= k < m.invoices.len() ==> (#[trigger] m.invoices[k]).payment_hash
                != invoice.payment_hash,
    ensures
        ({
            let outcome = Ok::<InvoiceView, Seq<char>>(invoice);
            &&& invoice_refusal(m, m.accounts[a].id, sats, outcome) is None
            &&& after(m, Event::Deposit { account: m.accounts[a].id, sats, outcome, now }) == (
            Market {
                invoices: m.invoices.push(
                    InvoiceRowView {
                        payment_hash: invoice.payment_hash,
                        account_id: m.accounts[a].id,
                        sats,
                        bolt11: invoice.bolt11,
                        settled: false,
                        created_at: now,
                    },
                ),
                ..m
            })
        }),
{
    accounts_are_found(m, a);
    let hash = invoice.payment_hash;
    lemma_position_none(m.invoices, |x: InvoiceRowView| x.payment_hash == hash);
}

/// A deposit is refused for a reason: less than one sat with 400, an account that is
/// not there with 404, an invoice that could not be made with 502.
pub proof fn a_deposit_is_refused_for_a_reason(
    m: Market,
    id: Seq<char>,
    sats: i64,
    outcome: Result<InvoiceView, Seq<char>>,
)
    ensures
        ({
            let known = exists|a: int| 0 <= a < m.accounts.len() && (#[trigger] m.accounts[a]).id == id;
            let refusal = invoice_refusal(m, id, sats, outcome);
            &&& sats < 1 ==> (refusal matches Some(e) && e.status == 400)
            &&& sats >= 1 && !known ==> (refusal matches Some(e) && e.status == 404)
            &&& sats >= 1 && known && outcome is Err ==> (refusal matches Some(e) && e.status
                == 502)
        }),
{
    lemma_position(m.accounts, |x: AccountRowView| x.id == id);
}

} // verus!
