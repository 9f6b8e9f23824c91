//! Agent-facing handlers. All control traffic is started by the agent: commands
//! are queued here and delivered in the answer to a heartbeat.

use vstd::prelude::*;

use crate::api::{
    command_views, Command, CommandView, HeartbeatRequest, HeartbeatResponse, PayoutResponse,
    RateRequest, RegisterRequest, RegisterRequestView, RegisterResponse, RegisterResponseView,
    ReportRequest, ReportRequestView,
};
use crate::billing::{accrued, accrued_cost, elapsed_secs};
use crate::db::{
    account_pos, broken_reference, charge_entry, credit_entry, lemma_position, lemma_position_is,
    lemma_position_none, machine_of_host, machine_pos, machine_with_token, next_machine_id,
    opt_index, opt_str, position, record, record_charge, recorded, AccountRowView, CommandRowView,
    LedgerRowView, MachineRow, MachineRowView, Market, RentalRowView, Tables,
};
use crate::error::{refusal, ApiError, ApiErrorView};
use crate::laws::{after, Event};
use crate::model::{LedgerKind, RentalStatus};
use crate::routes::{authenticate, caller};
use crate::text::copy_opt;

verus! {

/// The row of a rental of a given machine.
pub open spec fn rental_of(m: Market, rental_id: i64, machine_id: i64) -> Option<int> {
    position(m.rentals, |x: RentalRowView| x.id == rental_id && x.machine_id == machine_id)
}

/// What a rental that ends at `now` costs an account with this balance: what has
/// accrued, but no more than there is.
pub open spec fn final_charge(r: RentalRowView, balance: int, now: int) -> int {
    let cost = accrued(r.created_at as int, now, r.rate_sats_per_min as int);
    if cost <= balance {
        cost
    } else {
        balance
    }
}

/// True when a report ends a rental that had not ended yet. Only then is it
/// charged for.
pub open spec fn settles(r: RentalRowView, req: ReportRequestView) -> bool {
    req.status.ended() && !r.status.ended()
}

/// The refusal of a report, if any.
pub open spec fn report_refusal(
    m: Market,
    authorization: Option<Seq<char>>,
    req: ReportRequestView,
    now: i64,
) -> Option<ApiErrorView> {
    match caller(m, authorization) {
        Err(e) => Some(e),
        Ok(i) => match rental_of(m, req.rental_id, m.machines[i].id) {
            None => Some(refusal(404, "no such rental for this machine"@)),
            Some(j) => if settles(m.rentals[j], req) {
                match account_pos(m, m.rentals[j].account_id) {
                    None => Some(refusal(500, "database error: the rental's account is missing"@)),
                    Some(a) => {
                        let charge = final_charge(
                            m.rentals[j],
                            m.accounts[a].balance_sats as int,
                            now as int,
                        );
                        if charge < i64::MIN || (charge > 0 && m.machines[i].payout_balance + charge
                            > i64::MAX) {
                            Some(refusal(500, "database error: an amount is out of range"@))
                        } else {
                            None
                        }
                    },
                }
            } else {
                None
            },
        },
    }
}

/// The status of a rental after a report. A rental that has ended stays ended,
/// whatever is reported of it.
pub open spec fn status_after(old_status: RentalStatus, reported: RentalStatus) -> RentalStatus {
    if old_status.ended() && !reported.ended() {
        old_status
    } else {
        reported
    }
}

/// The rental after a report, before any charge.
pub open spec fn reported_rental(
    r: RentalRowView,
    host: Seq<char>,
    req: ReportRequestView,
    now: i64,
) -> RentalRowView {
    RentalRowView {
        status: status_after(r.status, req.status),
        kind: match req.kind {
            Some(k) => k,
            None => r.kind,
        },
        ssh_host: Some(host),
        ssh_port: match req.ssh_port {
            Some(p) => Some(p as i64),
            None => None,
        },
        container_id: match req.container_id {
            Some(c) => Some(c),
            None => r.container_id,
        },
        error: req.error,
        ended_at: if req.status.ended() {
            Some(now)
        } else {
            r.ended_at
        },
        ..r
    }
}

/// Moves sats from an account to a host, with the two ledger entries of a charge.
pub open spec fn charged(
    m: Market,
    account: int,
    machine: int,
    rental_id: i64,
    sats: i64,
    now: i64,
) -> Market {
    let a = m.accounts[account];
    let h = m.machines[machine];
    Market {
        accounts: m.accounts.update(
            account,
            AccountRowView { balance_sats: (a.balance_sats - sats) as i64, ..a },
        ),
        machines: m.machines.update(
            machine,
            MachineRowView { payout_balance: (h.payout_balance + sats) as i64, ..h },
        ),
        ledger: m.ledger.push(charge_entry(now, a.id, rental_id, sats)).push(
            credit_entry(now, h.id, rental_id, sats),
        ),
        ..m
    }
}

/// The market after a report of machine row `i` on rental row `j`.
pub open spec fn report_effect(m: Market, i: int, j: int, req: ReportRequestView, now: i64) -> Market {
    let r = m.rentals[j];
    let seen = reported_rental(r, m.machines[i].public_ip, req, now);
    if settles(r, req) {
        let a = account_pos(m, r.account_id)->0;
        let charge = final_charge(r, m.accounts[a].balance_sats as int, now as int) as i64;
        let paid = if charge > 0 {
            charged(m, a, i, r.id, charge, now)
        } else {
            m
        };
        Market {
            rentals: m.rentals.update(
                j,
                RentalRowView {
                    sats_charged: charge,
                    minutes_billed: (elapsed_secs(r.created_at as int, now as int) / 60) as i64,
                    ..seen
                },
            ),
            ..paid
        }
    } else {
        Market { rentals: m.rentals.update(j, seen), ..m }
    }
}

/// The market after a report that is not refused.
pub open spec fn after_report(
    m: Market,
    authorization: Option<Seq<char>>,
    req: ReportRequestView,
    now: i64,
) -> Market {
    let i = caller(m, authorization)->Ok_0;
    report_effect(m, i, rental_of(m, req.rental_id, m.machines[i].id)->0, req, now)
}

/// Finds a rental of a given machine.
fn find_rental_of(tables: &Tables, rental_id: i64, machine_id: i64) -> (r: Option<usize>)
    ensures
        opt_index(r) == rental_of(tables@, rental_id, machine_id),
        r matches Some(j) ==> j < tables.rentals@.len() && tables.rentals@[j as int].id == rental_id
            && tables.rentals@[j as int].machine_id == machine_id,
{
    let ghost rows = tables@.rentals;
    let ghost p = |x: RentalRowView| x.id == rental_id && x.machine_id == machine_id;
    let mut i: usize = 0;
    while i < tables.rentals.len()
        invariant
            i <= tables.rentals@.len(),
            rows == tables@.rentals,
            p == (|x: RentalRowView| x.id == rental_id && x.machine_id == machine_id),
            forall|j: int| 0 <= j < i ==> !p(#[trigger] rows[j]),
        decreases tables.rentals@.len() - i,
    {
        proof {
            assert(rows[i as int] == tables.rentals@[i as int]@);
        }
        if tables.rentals[i].id == rental_id && tables.rentals[i].machine_id == machine_id {
            proof {
                lemma_position_is(rows, p, i as int);
            }
            return Some(i);
        }
        i += 1;
    }
    proof {
        lemma_position_none(rows, p);
    }
    None
}

/// `POST /agent/report`: the agent reports a command's outcome. A report that
/// ends a live rental charges for all of it, once; no other report moves money. A
/// rental that has ended stays ended.
pub fn report(
    tables: &mut Tables,
    authorization: Option<&str>,
    req: &ReportRequest,
    now: i64,
) -> (r: Result<(), ApiError>)
    ensures
        final(tables)@ == after(old(tables)@, Event::Report { authorization: opt_str(authorization), report: req@, now }),
        match report_refusal(old(tables)@, opt_str(authorization), req@, now) {
            Some(e) => r matches Err(x) && x@ == e && final(tables)@ == old(tables)@,
            None => r is Ok && final(tables)@ == after_report(
                old(tables)@,
                opt_str(authorization),
                req@,
                now,
            ),
        },
{
    let ghost before = tables@;
    let i: usize = match authenticate(tables, authorization) {
        Ok(i) => i,
        Err(e) => {
            return Err(e);
        },
    };
    let machine_id: i64 = tables.machines[i].id;
    let j: usize = match find_rental_of(tables, req.rental_id, machine_id) {
        Some(j) => j,
        None => {
            return Err(ApiError::not_found("no such rental for this machine"));
        },
    };
    let ghost rental = tables.rentals@[j as int]@;
    let ghost seen = reported_rental(rental, before.machines[i as int].public_ip, req@, now);
    proof {
        assert(before.rentals[j as int] == rental);
        assert(before.machines[i as int] == tables.machines@[i as int]@);
    }
    let terminal: bool = req.status.is_terminal();
    let settle: bool = terminal && !tables.rentals[j].status.is_terminal();
    let mut sats_charged: i64 = tables.rentals[j].sats_charged;
    let mut minutes_billed: i64 = tables.rentals[j].minutes_billed;
    if settle {
        let created: i64 = tables.rentals[j].created_at;
        let a: usize = match tables.account_pos(tables.rentals[j].account_id.as_str()) {
            Some(a) => a,
            None => {
                return Err(ApiError::internal("database error: the rental's account is missing"));
            },
        };
        proof {
            assert(before.accounts[a as int] == tables.accounts@[a as int]@);
        }
        let balance: i64 = tables.accounts[a].balance_sats;
        let cost: i128 = accrued_cost(created, now, tables.rentals[j].rate_sats_per_min);
        let due: i128 = if cost <= balance as i128 { cost } else { balance as i128 };
        if due < i64::MIN as i128 || (due > 0 && tables.machines[i].payout_balance as i128 + due
            > i64::MAX as i128) {
            return Err(ApiError::internal("database error: an amount is out of range"));
        }
        let charge: i64 = due as i64;
        if charge > 0 {
            let account_id = tables.rentals[j].account_id.clone();
            proof {
                lemma_position(before.machines, |x: MachineRowView| x.id == machine_id);
                lemma_position(before.rentals, |x: RentalRowView| x.id == req.rental_id);
            }
            match record_charge(tables, now, account_id.as_str(), machine_id, req.rental_id, charge) {
                Ok(_) => {},
                Err(e) => {
                    return Err(e);
                },
            }
            tables.accounts[a].balance_sats = balance - charge;
            tables.machines[i].payout_balance = tables.machines[i].payout_balance + charge;
            proof {
                assert(tables@ =~= charged(
                    before,
                    a as int,
                    i as int,
                    req.rental_id,
                    charge,
                    now,
                ));
            }
        }
        sats_charged = charge;
        minutes_billed = ((if now > created { now as i128 - created as i128 } else { 0 }) / 60) as i64;
    }
    let host = tables.machines[i].public_ip.clone();
    if terminal || !tables.rentals[j].status.is_terminal() {
        tables.rentals[j].status = req.status;
    }
    if req.kind.is_some() {
        tables.rentals[j].kind = req.kind.unwrap();
    }
    tables.rentals[j].ssh_host = Some(host);
    tables.rentals[j].ssh_port = match req.ssh_port {
        Some(p) => Some(p as i64),
        None => None,
    };
    if req.container_id.is_some() {
        tables.rentals[j].container_id = copy_opt(&req.container_id);
    }
    tables.rentals[j].error = copy_opt(&req.error);
    if terminal {
        tables.rentals[j].ended_at = Some(now);
    }
    tables.rentals[j].sats_charged = sats_charged;
    tables.rentals[j].minutes_billed = minutes_billed;
    proof {
        assert(tables@ =~= report_effect(before, i as int, j as int, req@, now));
    }
    Ok(())
}

/// The machine row that a registration makes or refreshes.
pub open spec fn registered(
    req: RegisterRequestView,
    id: i64,
    agent_token: Seq<char>,
    payout_balance: i64,
    created_at: i64,
    now: i64,
) -> MachineRowView {
    MachineRowView {
        id,
        agent_token,
        host_id: req.host_id,
        gpu_name: req.gpu_name,
        gpu_count: req.gpu_count as i64,
        vram_mb: req.vram_mb,
        cpu_name: req.cpu_name,
        cpu_cores: req.cpu_cores as i64,
        ram_mb: req.ram_mb,
        disk_gb: req.disk_gb,
        disk_type: req.disk_type,
        public_ip: req.public_ip,
        port_start: req.port_start as i64,
        port_end: req.port_end as i64,
        inet_down_mbps: req.inet_down_mbps,
        inet_up_mbps: req.inet_up_mbps,
        country: req.country,
        dlperf: req.dlperf,
        rate_sats_per_min: req.rate_sats_per_min,
        payout_balance,
        online: true,
        last_heartbeat: now,
        hw_fingerprint: req.hw_fingerprint,
        created_at,
    }
}

/// The refusal of a registration, if any. A fresh token is needed for a new host
/// only.
pub open spec fn register_refusal(
    m: Market,
    req: RegisterRequestView,
    token: Seq<char>,
) -> Option<ApiErrorView> {
    if req.rate_sats_per_min < 1 {
        Some(refusal(400, "rate_sats_per_min must be >= 1"@))
    } else if machine_of_host(m, req.host_id) is Some {
        None
    } else if machine_with_token(m, token) is Some {
        Some(refusal(500, "database error: the agent token is taken"@))
    } else if next_machine_id(m) is None {
        Some(refusal(500, "database error: no machine id is left"@))
    } else {
        None
    }
}

/// The market after a registration that is not refused.
pub open spec fn after_register(
    m: Market,
    req: RegisterRequestView,
    token: Seq<char>,
    now: i64,
) -> Market {
    match machine_of_host(m, req.host_id) {
        Some(i) => {
            let old_row = m.machines[i];
            Market {
                machines: m.machines.update(
                    i,
                    registered(
                        req,
                        old_row.id,
                        old_row.agent_token,
                        old_row.payout_balance,
                        old_row.created_at,
                        now,
                    ),
                ),
                ..m
            }
        },
        None => Market {
            machines: m.machines.push(registered(req, next_machine_id(m)->0, token, 0, now, now)),
            ..m
        },
    }
}

/// The answer to a registration that is not refused: a known host keeps its id
/// and its token.
pub open spec fn register_reply(
    m: Market,
    req: RegisterRequestView,
    token: Seq<char>,
) -> RegisterResponseView {
    match machine_of_host(m, req.host_id) {
        Some(i) => RegisterResponseView {
            machine_id: m.machines[i].id,
            agent_token: m.machines[i].agent_token,
        },
        None => RegisterResponseView { machine_id: next_machine_id(m)->0, agent_token: token },
    }
}

/// True when a known host reports fewer GPUs than before, which is a sign of
/// lost or removed hardware.
pub fn reports_less_hardware(tables: &Tables, req: &RegisterRequest) -> (r: bool)
    ensures
        r == (match machine_of_host(tables@, req.host_id@) {
            Some(i) => req.gpu_count < tables@.machines[i].gpu_count,
            None => false,
        }),
{
    match tables.machine_of_host(req.host_id.as_str()) {
        Some(i) => (req.gpu_count as i64) < tables.machines[i].gpu_count,
        None => false,
    }
}

fn machine_row(
    req: &RegisterRequest,
    id: i64,
    agent_token: String,
    payout_balance: i64,
    created_at: i64,
    now: i64,
) -> (r: MachineRow)
    ensures
        r@ == registered(req@, id, agent_token@, payout_balance, created_at, now),
{
    MachineRow {
        id,
        agent_token,
        host_id: req.host_id.clone(),
        gpu_name: req.gpu_name.clone(),
        gpu_count: req.gpu_count as i64,
        vram_mb: req.vram_mb,
        cpu_name: req.cpu_name.clone(),
        cpu_cores: req.cpu_cores as i64,
        ram_mb: req.ram_mb,
        disk_gb: req.disk_gb,
        disk_type: req.disk_type,
        public_ip: req.public_ip.clone(),
        port_start: req.port_start as i64,
        port_end: req.port_end as i64,
        inet_down_mbps: req.inet_down_mbps,
        inet_up_mbps: req.inet_up_mbps,
        country: copy_opt(&req.country),
        dlperf: req.dlperf,
        rate_sats_per_min: req.rate_sats_per_min,
        payout_balance,
        online: true,
        last_heartbeat: now,
        hw_fingerprint: req.hw_fingerprint.clone(),
        created_at,
    }
}

/// `POST /agent/register`: idempotent on `host_id`. A known host gets its specs
/// and rate refreshed and keeps its id and token; a new one gets `token`. Either
/// way the machine is online with a fresh heartbeat.
pub fn register(
    tables: &mut Tables,
    req: &RegisterRequest,
    token: String,
    now: i64,
) -> (r: Result<RegisterResponse, ApiError>)
    ensures
        final(tables)@ == after(old(tables)@, Event::Register { registration: req@, token: token@, now }),
        match register_refusal(old(tables)@, req@, token@) {
            Some(e) => r matches Err(x) && x@ == e && final(tables)@ == old(tables)@,
            None => r matches Ok(x) && x@ == register_reply(old(tables)@, req@, token@)
                && final(tables)@ == after_register(old(tables)@, req@, token@, now),
        },
{
    let ghost before = tables@;
    if req.rate_sats_per_min < 1 {
        return Err(ApiError::bad_request("rate_sats_per_min must be >= 1"));
    }
    match tables.machine_of_host(req.host_id.as_str()) {
        Some(i) => {
            proof {
                assert(before.machines[i as int] == tables.machines@[i as int]@);
            }
            let id: i64 = tables.machines[i].id;
            let kept = tables.machines[i].agent_token.clone();
            let row = machine_row(
                req,
                id,
                kept.clone(),
                tables.machines[i].payout_balance,
                tables.machines[i].created_at,
                now,
            );
            tables.machines[i] = row;
            proof {
                assert(tables@ =~= after_register(before, req@, token@, now));
            }
            Ok(RegisterResponse { machine_id: id, agent_token: kept })
        },
        None => {
            if tables.machine_with_token(token.as_str()).is_some() {
                return Err(ApiError::internal("database error: the agent token is taken"));
            }
            let id: i64 = match tables.next_machine_id() {
                Some(id) => id,
                None => {
                    return Err(ApiError::internal("database error: no machine id is left"));
                },
            };
            let row = machine_row(req, id, token.clone(), 0, now, now);
            tables.machines.push(row);
            proof {
                assert(tables@ =~= after_register(before, req@, token@, now));
            }
            Ok(RegisterResponse { machine_id: id, agent_token: token })
        },
    }
}

/// True for a command that waits for this machine's heartbeat.
pub open spec fn waits_for(c: CommandRowView, machine_id: i64) -> bool {
    c.machine_id == machine_id && !c.delivered
}

/// The commands that a heartbeat of this machine is answered with, oldest first.
pub open spec fn waiting(cs: Seq<CommandRowView>, machine_id: i64) -> Seq<CommandView> {
    cs.filter(|c: CommandRowView| waits_for(c, machine_id)).map_values(
        |c: CommandRowView| c.payload,
    )
}

/// The queue after all that waited for this machine has been delivered.
pub open spec fn drained(cs: Seq<CommandRowView>, machine_id: i64) -> Seq<CommandRowView> {
    cs.map_values(
        |c: CommandRowView|
            if waits_for(c, machine_id) {
                CommandRowView { delivered: true, ..c }
            } else {
                c
            },
    )
}

/// The market after a heartbeat of machine row `i`.
pub open spec fn heartbeat_effect(m: Market, i: int, online: bool, now: i64) -> Market {
    Market {
        machines: m.machines.update(
            i,
            MachineRowView { last_heartbeat: now, online, ..m.machines[i] },
        ),
        commands: drained(m.commands, m.machines[i].id),
        ..m
    }
}

/// `POST /agent/heartbeat`: refreshes liveness and hands out the queued commands,
/// marking them delivered. A command is delivered at most once.
pub fn heartbeat(
    tables: &mut Tables,
    authorization: Option<&str>,
    req: &HeartbeatRequest,
    now: i64,
) -> (r: Result<HeartbeatResponse, ApiError>)
    ensures
        final(tables)@ == after(old(tables)@, Event::Heartbeat { authorization: opt_str(authorization), online: req.online, now }),
        match caller(old(tables)@, opt_str(authorization)) {
            Err(e) => r matches Err(x) && x@ == e && final(tables)@ == old(tables)@,
            Ok(i) => r matches Ok(x) && command_views(x.commands@) == waiting(
                old(tables)@.commands,
                old(tables)@.machines[i].id,
            ) && final(tables)@ == heartbeat_effect(old(tables)@, i, req.online, now),
        },
{
    let ghost before = tables@;
    let i: usize = match authenticate(tables, authorization) {
        Ok(i) => i,
        Err(e) => {
            return Err(e);
        },
    };
    let machine_id: i64 = tables.machines[i].id;
    proof {
        assert(before.machines[i as int] == tables.machines@[i as int]@);
    }
    tables.machines[i].last_heartbeat = now;
    tables.machines[i].online = req.online;
    let ghost beaten = tables@;
    let ghost p = |c: CommandRowView| waits_for(c, machine_id);
    let mut commands: Vec<Command> = Vec::new();
    let mut k: usize = 0;
    let n: usize = tables.commands.len();
    proof {
        reveal(Seq::filter);
        assert(before.commands.take(0).filter(p) =~= Seq::empty());
        assert(waiting(before.commands.take(0), machine_id) =~= Seq::empty());
        assert(drained(before.commands.take(0), machine_id) + before.commands.skip(0)
            =~= before.commands);
    }
    while k < n
        invariant
            k <= n,
            n == tables.commands@.len(),
            n == before.commands.len(),
            p == (|c: CommandRowView| waits_for(c, machine_id)),
            tables@ == (Market { commands: tables@.commands, ..beaten }),
            tables@.commands == drained(before.commands.take(k as int), machine_id)
                + before.commands.skip(k as int),
            command_views(commands@) == waiting(before.commands.take(k as int), machine_id),
        decreases n - k,
    {
        let ghost head = before.commands.take(k as int);
        let ghost longer = before.commands.take(k + 1);
        let ghost now_commands = tables@.commands;
        proof {
            reveal(Seq::filter);
            assert(longer.drop_last() =~= head);
            assert(longer.last() == before.commands[k as int]);
            assert(tables@.commands[k as int] == before.commands[k as int]);
            assert(tables@.commands[k as int] == tables.commands@[k as int]@);
            assert(longer.filter(p) == if p(longer.last()) {
                head.filter(p).push(longer.last())
            } else {
                head.filter(p)
            });
        }
        if tables.commands[k].machine_id == machine_id && !tables.commands[k].delivered {
            let ghost shown = command_views(commands@);
            let payload = tables.commands[k].payload.copy();
            commands.push(payload);
            tables.commands[k].delivered = true;
            proof {
                assert(command_views(commands@) =~= shown.push(payload@));
                assert(waiting(longer, machine_id) =~= waiting(head, machine_id).push(
                    longer.last().payload,
                ));
                assert(tables@.commands =~= now_commands.update(
                    k as int,
                    CommandRowView { delivered: true, ..now_commands[k as int] },
                ));
            }
        }
        proof {
            assert(tables@.commands =~= drained(longer, machine_id) + before.commands.skip(k + 1));
            assert(tables@ =~= (Market { commands: tables@.commands, ..beaten }));
        }
        k += 1;
    }
    proof {
        assert(before.commands.take(n as int) =~= before.commands);
        assert(tables@ =~= heartbeat_effect(before, i as int, req.online, now));
    }
    Ok(HeartbeatResponse { commands })
}

/// The refusal of a price change, if any.
pub open spec fn rate_refusal(
    m: Market,
    authorization: Option<Seq<char>>,
    rate: i64,
) -> Option<ApiErrorView> {
    match caller(m, authorization) {
        Err(e) => Some(e),
        Ok(_) => if rate < 1 {
            Some(refusal(400, "rate_sats_per_min must be >= 1"@))
        } else {
            None
        },
    }
}

/// The market after machine row `i` got a new price.
pub open spec fn rate_effect(m: Market, i: int, rate: i64) -> Market {
    Market {
        machines: m.machines.update(
            i,
            MachineRowView { rate_sats_per_min: rate, ..m.machines[i] },
        ),
        ..m
    }
}

/// `POST /agent/rate`: updates the machine's price. Live rentals keep the rate
/// they were created with.
pub fn rate(tables: &mut Tables, authorization: Option<&str>, req: &RateRequest) -> (r: Result<
    (),
    ApiError,
>)
    ensures
        final(tables)@ == after(
            old(tables)@,
            Event::Rate { authorization: opt_str(authorization), rate: req.rate_sats_per_min },
        ),
        match rate_refusal(old(tables)@, opt_str(authorization), req.rate_sats_per_min) {
            Some(e) => r matches Err(x) && x@ == e && final(tables)@ == old(tables)@,
            None => r is Ok && final(tables)@ == rate_effect(
                old(tables)@,
                caller(old(tables)@, opt_str(authorization))->Ok_0,
                req.rate_sats_per_min,
            ),
        },
{
    let ghost before = tables@;
    let i: usize = match authenticate(tables, authorization) {
        Ok(i) => i,
        Err(e) => {
            return Err(e);
        },
    };
    if req.rate_sats_per_min < 1 {
        return Err(ApiError::bad_request("rate_sats_per_min must be >= 1"));
    }
    tables.machines[i].rate_sats_per_min = req.rate_sats_per_min;
    proof {
        assert(tables@ =~= rate_effect(before, i as int, req.rate_sats_per_min));
    }
    Ok(())
}

/// A payment that is about to be made: the machine and what it is owed.
#[derive(Debug, Clone, Copy, PartialEq, Eq, Structural)]
pub struct PayoutDue {
    pub machine_id: i64,
    pub owed: i64,
}

/// The first half of `POST /agent/payout`: what the calling machine is owed. The
/// host's invoice is then paid with it and the outcome handed to [`payout`].
pub fn payout_due(tables: &Tables, authorization: Option<&str>) -> (r: Result<PayoutDue, ApiError>)
    ensures
        match caller(tables@, opt_str(authorization)) {
            Err(e) => r matches Err(x) && x@ == e,
            Ok(i) => if tables@.machines[i].payout_balance <= 0 {
                r matches Err(x) && x@ == refusal(400, "nothing owed"@)
            } else {
                r == Ok::<PayoutDue, ApiError>(
                    PayoutDue {
                        machine_id: tables@.machines[i].id,
                        owed: tables@.machines[i].payout_balance,
                    },
                )
            },
        },
{
    let i: usize = match authenticate(tables, authorization) {
        Ok(i) => i,
        Err(e) => {
            return Err(e);
        },
    };
    let owed: i64 = tables.machines[i].payout_balance;
    if owed <= 0 {
        return Err(ApiError::bad_request("nothing owed"));
    }
    Ok(PayoutDue { machine_id: tables.machines[i].id, owed })
}

/// The ledger entry of a payout.
pub open spec fn payout_entry(due: PayoutDue, now: i64) -> LedgerRowView {
    LedgerRowView {
        ts: now,
        kind: LedgerKind::Payout,
        delta_sats: (-due.owed) as i64,
        account_id: None,
        machine_id: Some(due.machine_id),
        rental_id: None,
        note: Some("payout"@),
    }
}

/// Why a payment failed, if it did.
pub open spec fn failure_of(outcome: Result<(), String>) -> Option<Seq<char>> {
    match outcome {
        Ok(_) => None,
        Err(e) => Some(e@),
    }
}

/// The refusal of a payout, if any: the payment failed, or the machine is gone.
pub open spec fn payout_refusal(
    m: Market,
    due: PayoutDue,
    failure: Option<Seq<char>>,
) -> Option<ApiErrorView> {
    match failure {
        Some(e) => Some(refusal(502, "payout failed: "@ + e)),
        None => if machine_pos(m, due.machine_id) is None {
            Some(broken_reference())
        } else {
            None
        },
    }
}

/// The market after a payout that has been made.
pub open spec fn after_payout(m: Market, due: PayoutDue, now: i64) -> Market {
    let i = machine_pos(m, due.machine_id)->0;
    Market {
        machines: m.machines.update(i, MachineRowView { payout_balance: 0, ..m.machines[i] }),
        ..recorded(m, payout_entry(due, now))
    }
}

/// The second half of `POST /agent/payout`, after the attempt to pay: on success
/// nothing is owed any more; on failure all stays as it was.
pub fn payout(
    tables: &mut Tables,
    due: PayoutDue,
    outcome: Result<(), String>,
    now: i64,
) -> (r: Result<PayoutResponse, ApiError>)
    requires
        due.owed > 0,
    ensures
        final(tables)@ == after(
            old(tables)@,
            Event::Payout { due, failure: failure_of(outcome), now },
        ),
        match payout_refusal(old(tables)@, due, failure_of(outcome)) {
            Some(e) => r matches Err(x) && x@ == e && final(tables)@ == old(tables)@,
            None => r == Ok::<PayoutResponse, ApiError>(PayoutResponse { paid_sats: due.owed })
                && final(tables)@ == after_payout(old(tables)@, due, now),
        },
{
    let ghost before = tables@;
    match outcome {
        Err(e) => {
            let mut message = "payout failed: ".to_owned();
            message.push_str(e.as_str());
            return Err(ApiError::bad_gateway(message.as_str()));
        },
        Ok(_) => {},
    }
    match record(
        tables,
        now,
        LedgerKind::Payout,
        -due.owed,
        None,
        Some(due.machine_id),
        None,
        Some("payout"),
    ) {
        Ok(_) => {},
        Err(e) => {
            return Err(e);
        },
    }
    match tables.machine_pos(due.machine_id) {
        Some(i) => {
            tables.machines[i].payout_balance = 0;
            proof {
                assert(tables@ =~= after_payout(before, due, now));
            }
        },
        None => {},
    }
    Ok(PayoutResponse { paid_sats: due.owed })
}

} // verus!
