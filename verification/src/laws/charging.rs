//! Laws of what time costs: how an interval is charged for, what the end of a rental
//! moves, and when a rental is evicted. They speak of timestamps, rates and balances
//! as the rows hold them.

use vstd::prelude::*;

use super::lookup::{
    accounts_are_found, machines_are_found, rentals_are_found, the_bearer_is_the_machine,
};
use super::books::market_stays_valid;
use super::{account_known, after, machine_known, valid, Event};
use crate::api::{CommandView, ReportRequestView};
use crate::billing::{
    accrued, dangling, evicted, first_dangling, lemma_evicted_frame, over_budget, whole_part,
};
use crate::db::{
    lemma_position_none, AccountRowView, CommandRowView, LedgerRowView, MachineRowView, Market,
    RentalRowView,
};
use crate::model::{LedgerKind, RentalStatus};
use crate::routes::agent::report_refusal;

verus! {

/// Time costs its length times the rate: from `start` to `end` seconds at a price per
/// sixty of them, without the fraction, and nothing where the end is not later.
pub proof fn time_costs_its_length(start: int, end: int, rate: int)
    requires
        rate >= 0,
    ensures
        start <= end ==> accrued(start, end, rate) == ((end - start) * rate) / 60,
        end <= start ==> accrued(start, end, rate) == 0,
{
    let n = (end - start) * rate;
    if start <= end {
        assert(n >= 0) by (nonlinear_arith)
            requires
                n == (end - start) * rate,
                start <= end,
                rate >= 0,
        ;
    }
    assert(0 * rate == 0);
}

/// A division drops the fraction: the quotient is the largest whole number that is not
/// above it, and for a negative amount the same with the sign turned.
pub proof fn fractions_are_dropped(n: int, d: int)
    requires
        n >= 0,
        d > 0,
    ensures
        whole_part(n, d) * d <= n < (whole_part(n, d) + 1) * d,
        whole_part(-n, d) == -whole_part(n, d),
{
    vstd::arithmetic::div_mod::lemma_fundamental_div_mod(n, d);
    let k = n / d;
    assert(k * d <= n < (k + 1) * d) by (nonlinear_arith)
        requires
            n == d * k + n % d,
            0 <= n % d < d,
    ;
    if n == 0 {
        assert(0int / d == 0) by (nonlinear_arith)
            requires
                d > 0,
        ;
    }
}

/// Every further minute costs one rate more, however long a rental has run.
pub proof fn every_minute_costs_the_rate(start: int, end: int, minutes: int, rate: int)
    requires
        start <= end,
        minutes >= 0,
        rate >= 0,
    ensures
        accrued(start, end + 60 * minutes, rate) == accrued(start, end, rate) + minutes * rate,
{
    let n = (end - start) * rate;
    let k = minutes * rate;
    let later = (end + 60 * minutes - start) * rate;
    assert(later == n + 60 * k) by (nonlinear_arith)
        requires
            n == (end - start) * rate,
            k == minutes * rate,
            later == (end + 60 * minutes - start) * rate,
    ;
    time_costs_its_length(start, end, rate);
    time_costs_its_length(start, end + 60 * minutes, rate);
}

/// A later start costs as much as an earlier one that runs as long: only the length
/// of an interval counts.
pub proof fn only_the_length_counts(start: int, end: int, shift: int, rate: int)
    ensures
        accrued(start + shift, end + shift, rate) == accrued(start, end, rate),
{
}

/// A rate with the sign turned costs as much with the sign turned.
pub proof fn a_negative_rate_pays_back(start: int, end: int, rate: int)
    requires
        rate >= 0,
    ensures
        accrued(start, end, -rate) == -accrued(start, end, rate),
{
    let secs = if end > start { end - start } else { 0 };
    let n = secs * rate;
    assert(n >= 0 && secs * (-rate) == -n) by (nonlinear_arith)
        requires
            n == secs * rate,
            secs >= 0,
            rate >= 0,
    ;
}

/// The end of a rental is billed: the report of its own machine that it has stopped or
/// failed, while it was live, moves the price of the time since its creation, at its
/// own rate and without the fraction, from the account it was rented on to the machine
/// it ran on, but no more than the account holds. Both halves are booked, and the
/// rental shows the sats and the whole minutes. Nothing else changes.
pub proof fn the_end_of_a_rental_is_billed(
    m: Market,
    i: int,
    j: int,
    a: int,
    req: ReportRequestView,
    now: i64,
)
    requires
        valid(m),
        0 <= i < m.machines.len(),
        0 <= j < m.rentals.len(),
        0 <= a < m.accounts.len(),
        m.rentals[j].machine_id == m.machines[i].id,
        m.rentals[j].account_id == m.accounts[a].id,
        m.rentals[j].status != RentalStatus::Stopped,
        m.rentals[j].status != RentalStatus::Failed,
        req.rental_id == m.rentals[j].id,
        req.status == RentalStatus::Stopped || req.status == RentalStatus::Failed,
        ({
            let r = m.rentals[j];
            let secs = if now > r.created_at { now - r.created_at } else { 0 };
            let cost = (secs * r.rate_sats_per_min) / 60;
            let balance = m.accounts[a].balance_sats as int;
            m.machines[i].payout_balance + (if cost <= balance { cost } else { balance })
                <= i64::MAX
        }),
    ensures
        ({
            let authorization = Some("Bearer "@ + m.machines[i].agent_token);
            let n = after(m, Event::Report { authorization, report: req, now });
            let r = m.rentals[j];
            let secs = if now > r.created_at { now - r.created_at } else { 0 };
            let cost = (secs * r.rate_sats_per_min) / 60;
            let balance = m.accounts[a].balance_sats as int;
            let sats = if cost <= balance { cost } else { balance };
            &&& report_refusal(m, authorization, req, now) is None
            &&& 0 <= sats <= m.accounts[a].balance_sats
            &&& n.accounts == m.accounts.update(
                a,
                AccountRowView {
                    balance_sats: (m.accounts[a].balance_sats - sats) as i64,
                    ..m.accounts[a]
                },
            )
            &&& n.machines == m.machines.update(
                i,
                MachineRowView {
                    payout_balance: (m.machines[i].payout_balance + sats) as i64,
                    ..m.machines[i]
                },
            )
            &&& n.rentals == m.rentals.update(
                j,
                RentalRowView {
                    status: req.status,
                    kind: if req.kind is Some { req.kind->0 } else { r.kind },
                    ssh_host: Some(m.machines[i].public_ip),
                    ssh_port: if req.ssh_port is Some { Some(req.ssh_port->0 as i64) } else { None },
                    container_id: if req.container_id is Some {
                        req.container_id
                    } else {
                        r.container_id
                    },
                    error: req.error,
                    sats_charged: sats as i64,
                    minutes_billed: (secs / 60) as i64,
                    ended_at: Some(now),
                    ..r
                },
            )
            &&& sats == 0 ==> n.ledger == m.ledger
            &&& sats > 0 ==> n.ledger == m.ledger.push(
                LedgerRowView {
                    ts: now,
                    kind: LedgerKind::RentalCharge,
                    delta_sats: (-sats) as i64,
                    account_id: Some(m.accounts[a].id),
                    machine_id: None,
                    rental_id: Some(r.id),
                    note: None,
                },
            ).push(
                LedgerRowView {
                    ts: now,
                    kind: LedgerKind::HostCredit,
                    delta_sats: sats as i64,
                    account_id: None,
                    machine_id: Some(m.machines[i].id),
                    rental_id: Some(r.id),
                    note: None,
                },
            )
            &&& n.invoices == m.invoices
            &&& n.commands == m.commands
        }),
{
    let r = m.rentals[j];
    let rate = r.rate_sats_per_min as int;
    let secs = if now > r.created_at { now - r.created_at } else { 0 };
    the_bearer_is_the_machine(m, i);
    rentals_are_found(m, j);
    accounts_are_found(m, a);
    time_costs_its_length(r.created_at as int, now as int, rate);
    assert(secs * rate >= 0) by (nonlinear_arith)
        requires
            secs >= 0,
            rate >= 1,
    ;
    assert(0 * rate == 0);
    let cost = (secs * rate) / 60;
    let balance = m.accounts[a].balance_sats as int;
    let sats = if cost <= balance { cost } else { balance };
    let authorization = Some("Bearer "@ + m.machines[i].agent_token);
    let n = after(m, Event::Report { authorization, report: req, now });
    assert(accrued(r.created_at as int, now as int, rate) == (secs * rate) / 60);
    if sats == 0 {
        assert(n.accounts =~= m.accounts.update(
            a,
            AccountRowView {
                balance_sats: (m.accounts[a].balance_sats - sats) as i64,
                ..m.accounts[a]
            },
        ));
        assert(n.machines =~= m.machines.update(
            i,
            MachineRowView {
                payout_balance: (m.machines[i].payout_balance + sats) as i64,
                ..m.machines[i]
            },
        ));
    }
}


/// What it means to have outrun an account, over the rows.
proof fn lemma_over_budget(m: Market, i: int, j: int, a: int, now: i64, timeout: int)
    requires
        valid(m),
        0 <= i < m.machines.len(),
        0 <= j < m.rentals.len(),
        0 <= a < m.accounts.len(),
        m.rentals[j].machine_id == m.machines[i].id,
        m.rentals[j].account_id == m.accounts[a].id,
    ensures
        ({
            let r = m.rentals[j];
            let secs = if now > r.created_at { now - r.created_at } else { 0 };
            over_budget(m, r, now as int, timeout) <==> r.status == RentalStatus::Running && now
                - m.machines[i].last_heartbeat <= timeout && (secs * r.rate_sats_per_min) / 60
                > m.accounts[a].balance_sats
        }),
        !dangling(m, m.rentals[j], now as int, timeout),
{
    let r = m.rentals[j];
    let rate = r.rate_sats_per_min as int;
    let secs = if now > r.created_at { now - r.created_at } else { 0 };
    machines_are_found(m, i);
    accounts_are_found(m, a);
    time_costs_its_length(r.created_at as int, now as int, rate);
    assert(secs * rate >= 0) by (nonlinear_arith)
        requires
            secs >= 0,
            rate >= 1,
    ;
    assert(0 * rate == 0);
}

proof fn lemma_nothing_dangles(m: Market, now: i64, timeout: int)
    requires
        valid(m),
    ensures
        first_dangling(m, now as int, timeout) is None,
{
    let p = |r: RentalRowView| dangling(m, r, now as int, timeout);
    assert forall|j: int| 0 <= j < m.rentals.len() implies !p(#[trigger] m.rentals[j]) by {
        let r = m.rentals[j];
        assert(machine_known(m.machines, r.machine_id));
        assert(account_known(m.accounts, r.account_id));
        let i = choose|i: int|
            0 <= i < m.machines.len() && (#[trigger] m.machines[i]).id == r.machine_id;
        let a = choose|a: int|
            0 <= a < m.accounts.len() && (#[trigger] m.accounts[a]).id == r.account_id;
        lemma_over_budget(m, i, j, a, now, timeout);
    }
    lemma_position_none(m.rentals, p);
}

/// What a pass over the first `k` rentals queues and books.
proof fn lemma_evictions(m: Market, k: int, now: i64, timeout: int)
    requires
        0 <= k <= m.rentals.len(),
    ensures
        ({
            let n = evicted(m, k, now, timeout);
            &&& n.commands.len() >= m.commands.len()
            &&& n.ledger.len() - m.ledger.len() == n.commands.len() - m.commands.len()
            &&& forall|c: int|
                0 <= c < m.commands.len() ==> #[trigger] n.commands[c] == m.commands[c]
            &&& forall|l: int| 0 <= l < m.ledger.len() ==> #[trigger] n.ledger[l] == m.ledger[l]
            &&& forall|j: int|
                0 <= j < k && over_budget(m, #[trigger] m.rentals[j], now as int, timeout)
                    ==> exists|c: int|
                    #![trigger n.commands[c]]
                    m.commands.len() <= c < n.commands.len() && n.commands[c] == (CommandRowView {
                        machine_id: m.rentals[j].machine_id,
                        payload: CommandView::StopRental { rental_id: m.rentals[j].id },
                        delivered: false,
                        created_at: now,
                    })
            &&& forall|c: int|
                #![trigger n.commands[c]]
                m.commands.len() <= c < n.commands.len() ==> exists|j: int|
                    #![trigger m.rentals[j]]
                    0 <= j < k && over_budget(m, m.rentals[j], now as int, timeout)
                        && n.commands[c].payload == (CommandView::StopRental {
                        rental_id: m.rentals[j].id,
                    })
            &&& forall|l: int|
                m.ledger.len() <= l < n.ledger.len() ==> (#[trigger] n.ledger[l]).kind
                    == LedgerKind::Evict && n.ledger[l].delta_sats == 0
        }),
    decreases k,
{
    if k > 0 {
        lemma_evictions(m, k - 1, now, timeout);
        lemma_evicted_frame(m, k - 1, now, timeout);
        let before = evicted(m, k - 1, now, timeout);
        let n = evicted(m, k, now, timeout);
        let old_len = m.commands.len();
        assert forall|c: int| 0 <= c < before.commands.len() implies #[trigger] n.commands[c]
            == before.commands[c] by {}
        assert forall|j: int|
            0 <= j < k && over_budget(m, #[trigger] m.rentals[j], now as int, timeout) implies exists|
            c: int,
        |
            #![trigger n.commands[c]]
            old_len <= c < n.commands.len() && n.commands[c] == (CommandRowView {
                machine_id: m.rentals[j].machine_id,
                payload: CommandView::StopRental { rental_id: m.rentals[j].id },
                delivered: false,
                created_at: now,
            }) by {
            if j < k - 1 {
                let c = choose|c: int|
                    #![trigger before.commands[c]]
                    old_len <= c < before.commands.len() && before.commands[c] == (CommandRowView {
                        machine_id: m.rentals[j].machine_id,
                        payload: CommandView::StopRental { rental_id: m.rentals[j].id },
                        delivered: false,
                        created_at: now,
                    });
                assert(n.commands[c] == before.commands[c]);
            } else {
                assert(n.commands[n.commands.len() - 1].payload == (CommandView::StopRental {
                    rental_id: m.rentals[j].id,
                }));
            }
        }
        assert forall|c: int|
            #![trigger n.commands[c]]
            old_len <= c < n.commands.len() implies exists|j: int|
            #![trigger m.rentals[j]]
            0 <= j < k && over_budget(m, m.rentals[j], now as int, timeout)
                && n.commands[c].payload == (CommandView::StopRental {
                rental_id: m.rentals[j].id,
            }) by {
            if c < before.commands.len() {
                assert(before.commands[c] == n.commands[c]);
                let j = choose|j: int|
                    #![trigger m.rentals[j]]
                    0 <= j < k - 1 && over_budget(m, m.rentals[j], now as int, timeout)
                        && before.commands[c].payload == (CommandView::StopRental {
                        rental_id: m.rentals[j].id,
                    });
                assert(0 <= j < k);
            } else {
                assert(over_budget(m, m.rentals[k - 1], now as int, timeout));
            }
        }
    }
}

/// A rental is evicted just when it has outrun its account: of the running rentals on
/// hosts that are heard from, those whose time since creation, at the rate they were
/// rented at and without the fraction, costs more than their accounts hold. An evicted
/// rental says why and its machine is told to stop it; every other rental stays as it
/// is. The pass moves no money.
pub proof fn a_rental_is_evicted_when_it_has_outrun_its_account(
    m: Market,
    i: int,
    j: int,
    a: int,
    now: i64,
    timeout: int,
)
    requires
        valid(m),
        0 <= i < m.machines.len(),
        0 <= j < m.rentals.len(),
        0 <= a < m.accounts.len(),
        m.rentals[j].machine_id == m.machines[i].id,
        m.rentals[j].account_id == m.accounts[a].id,
    ensures
        ({
            let n = after(m, Event::EnforceBudgets { now, timeout });
            let r = m.rentals[j];
            let secs = if now > r.created_at { now - r.created_at } else { 0 };
            let out_of_funds = r.status == RentalStatus::Running && now
                - m.machines[i].last_heartbeat <= timeout && (secs * r.rate_sats_per_min) / 60
                > m.accounts[a].balance_sats;
            &&& first_dangling(m, now as int, timeout) is None
            &&& n.accounts == m.accounts && n.machines == m.machines && n.invoices == m.invoices
            &&& n.rentals.len() == m.rentals.len()
            &&& !out_of_funds ==> n.rentals[j] == r
            &&& out_of_funds ==> n.rentals[j] == (RentalRowView {
                status: RentalStatus::Evicting,
                error: Some("insufficient balance"@),
                ..r
            })
            &&& out_of_funds ==> exists|c: int|
                #![trigger n.commands[c]]
                m.commands.len() <= c < n.commands.len() && n.commands[c] == (CommandRowView {
                    machine_id: m.machines[i].id,
                    payload: CommandView::StopRental { rental_id: r.id },
                    delivered: false,
                    created_at: now,
                })
            &&& !out_of_funds ==> forall|c: int|
                m.commands.len() <= c < n.commands.len() ==> (#[trigger] n.commands[c]).payload != (
                CommandView::StopRental { rental_id: r.id })
            &&& forall|l: int|
                m.ledger.len() <= l < n.ledger.len() ==> (#[trigger] n.ledger[l]).kind
                    == LedgerKind::Evict && n.ledger[l].delta_sats == 0
        }),
{
    let n = after(m, Event::EnforceBudgets { now, timeout });
    let len = m.rentals.len() as int;
    lemma_nothing_dangles(m, now, timeout);
    lemma_over_budget(m, i, j, a, now, timeout);
    lemma_evicted_frame(m, len, now, timeout);
    lemma_evictions(m, len, now, timeout);
    if !over_budget(m, m.rentals[j], now as int, timeout) {
        assert forall|c: int| m.commands.len() <= c < n.commands.len() implies (
        #[trigger] n.commands[c]).payload != (CommandView::StopRental {
            rental_id: m.rentals[j].id,
        }) by {
            let k = choose|k: int|
                #![trigger m.rentals[k]]
                0 <= k < len && over_budget(m, m.rentals[k], now as int, timeout)
                    && n.commands[c].payload == (CommandView::StopRental {
                    rental_id: m.rentals[k].id,
                });
            if k < j {
                assert(m.rentals[k].id < m.rentals[j].id);
            } else if j < k {
                assert(m.rentals[j].id < m.rentals[k].id);
            }
        }
    }
}

/// Prices of machines are for rentals to come: what the pass over the budgets does to
/// the rentals at hand does not depend on them.
pub proof fn prices_to_come_evict_nobody(m: Market, i: int, rate: i64, now: i64, timeout: int)
    requires
        valid(m),
        0 <= i < m.machines.len(),
        rate >= 1,
    ensures
        ({
            let dearer = Market {
                machines: m.machines.update(
                    i,
                    MachineRowView { rate_sats_per_min: rate, ..m.machines[i] },
                ),
                ..m
            };
            let e = Event::EnforceBudgets { now, timeout };
            after(dearer, e).rentals == after(m, e).rentals
        }),
{
    let dearer = Market {
        machines: m.machines.update(
            i,
            MachineRowView { rate_sats_per_min: rate, ..m.machines[i] },
        ),
        ..m
    };
    let e = Event::EnforceBudgets { now, timeout };
    let len = m.rentals.len() as int;
    let authorization = Some("Bearer "@ + m.machines[i].agent_token);
    the_bearer_is_the_machine(m, i);
    assert(after(m, Event::Rate { authorization, rate }) == dearer);
    market_stays_valid(m, Event::Rate { authorization, rate });
    lemma_nothing_dangles(m, now, timeout);
    lemma_nothing_dangles(dearer, now, timeout);
    lemma_evicted_frame(m, len, now, timeout);
    lemma_evicted_frame(dearer, len, now, timeout);
    assert forall|j: int| 0 <= j < len implies after(dearer, e).rentals[j] == #[trigger] after(
        m,
        e,
    ).rentals[j] by {
        let r = m.rentals[j];
        assert(machine_known(m.machines, r.machine_id));
        assert(account_known(m.accounts, r.account_id));
        let h = choose|h: int|
            0 <= h < m.machines.len() && (#[trigger] m.machines[h]).id == r.machine_id;
        let a = choose|a: int|
            0 <= a < m.accounts.len() && (#[trigger] m.accounts[a]).id == r.account_id;
        assert(dearer.machines[h].id == r.machine_id);
        lemma_over_budget(m, h, j, a, now, timeout);
        lemma_over_budget(dearer, h, j, a, now, timeout);
    }
    assert(after(dearer, e).rentals =~= after(m, e).rentals);
}

} // verus!
