//! Laws of the books.

use vstd::prelude::*;

use super::{
    account_known, after, effect, history, machine_known, refused, valid, valid_accounts,
    valid_invoices, valid_machines, valid_rentals, Event,
};
use crate::api::{CreateRentalRequestView, RegisterRequestView, ReportRequestView};
use crate::billing::{
    accrued, dangling, elapsed_secs, evicted, first_dangling, lemma_evicted_frame, newly_paid,
    polled, settle_effect, settle_refusal,
};
use crate::db::{
    account_pos, lemma_position, machine_of_host, machine_pos, AccountRowView, InvoiceRowView,
    MachineRowView, Market, RentalRowView,
};
use crate::routes::agent::{
    after_register, after_report, final_charge, register_refusal, rental_of, report_refusal,
    settles,
};
use crate::routes::caller;
use crate::routes::tenant::{after_create_rental, rental_refusal};

verus! {

/// What a lookup by token finds.
pub proof fn lemma_caller(m: Market, authorization: Option<Seq<char>>)
    ensures
        caller(m, authorization) matches Ok(i) ==> 0 <= i < m.machines.len(),
{
    match authorization {
        Some(h) => {
            let token = h.skip("Bearer "@.len() as int);
            lemma_position(m.machines, |x: MachineRowView| x.agent_token == token);
        },
        None => {},
    }
}

/// A machine that keeps its id, token and host and stays within bounds keeps the
/// table valid.
proof fn lemma_machine_update(ms: Seq<MachineRowView>, i: int, h: MachineRowView)
    requires
        valid_machines(ms),
        0 <= i < ms.len(),
        h.id == ms[i].id,
        h.agent_token == ms[i].agent_token,
        h.host_id == ms[i].host_id,
        h.rate_sats_per_min >= 1,
        h.payout_balance >= 0,
    ensures
        valid_machines(ms.update(i, h)),
        forall|id: i64| machine_known(ms, id) ==> #[trigger] machine_known(ms.update(i, h), id),
{
    let after = ms.update(i, h);
    assert forall|id: i64| machine_known(ms, id) implies #[trigger] machine_known(after, id) by {
        let k = choose|k: int| 0 <= k < ms.len() && (#[trigger] ms[k]).id == id;
        assert(after[k].id == id);
    }
}

/// An account that keeps its id and is not overdrawn keeps the table valid.
proof fn lemma_account_update(s: Seq<AccountRowView>, i: int, a: AccountRowView)
    requires
        valid_accounts(s),
        0 <= i < s.len(),
        a.id == s[i].id,
        a.balance_sats >= 0,
    ensures
        valid_accounts(s.update(i, a)),
        forall|id: Seq<char>| account_known(s, id) ==> #[trigger] account_known(s.update(i, a), id),
{
    let after = s.update(i, a);
    assert forall|id: Seq<char>| account_known(s, id) implies #[trigger] account_known(after, id) by {
        let k = choose|k: int| 0 <= k < s.len() && (#[trigger] s[k]).id == id;
        assert(after[k].id == id);
    }
}

/// The cost of an interval is what accrued, without the fraction.
pub proof fn accrual_is_exact(start: int, end: int, rate: int)
    requires
        rate >= 0,
    ensures
        accrued(start, end, rate) >= 0,
        60 * accrued(start, end, rate) <= elapsed_secs(start, end) * rate < 60 * accrued(
            start,
            end,
            rate,
        ) + 60,
        end <= start ==> accrued(start, end, rate) == 0,
{
    let n = elapsed_secs(start, end) * rate;
    assert(n >= 0) by (nonlinear_arith)
        requires
            n == elapsed_secs(start, end) * rate,
            elapsed_secs(start, end) >= 0,
            rate >= 0,
    ;
    if end <= start {
        assert(n == 0) by (nonlinear_arith)
            requires
                n == elapsed_secs(start, end) * rate,
                elapsed_secs(start, end) == 0,
        ;
    }
}

/// Settling an invoice keeps the books valid.
pub proof fn lemma_settle_keeps_valid(m: Market, k: int, now: i64)
    requires
        valid(m),
        0 <= k < m.invoices.len(),
        settle_refusal(m, k) is None,
    ensures
        valid(settle_effect(m, k, now)),
{
    let n = settle_effect(m, k, now);
    let inv = m.invoices[k];
    lemma_position(m.accounts, |x: AccountRowView| x.id == inv.account_id);
    let a = account_pos(m, inv.account_id)->0;
    lemma_account_update(m.accounts, a, n.accounts[a]);
    assert(n.accounts =~= m.accounts.update(a, n.accounts[a]));
    assert(valid_rentals(n));
    assert(valid_invoices(n)) by {
        assert forall|i: int| 0 <= i < n.invoices.len() implies {
            let x = #[trigger] n.invoices[i];
            x.sats >= 1 && account_known(n.accounts, x.account_id)
        } by {
            assert(m.invoices[i].sats >= 1);
        }
    }
}

/// A poll keeps the books valid.
proof fn lemma_poll_keeps_valid(m: Market, paid: Seq<Seq<char>>, k: int, now: i64)
    requires
        valid(m),
        0 <= k,
    ensures
        valid(polled(m, paid, k, now).0),
    decreases m.invoices.len() - k,
{
    if k < m.invoices.len() {
        if newly_paid(m, paid, k) {
            if settle_refusal(m, k) is None {
                lemma_settle_keeps_valid(m, k, now);
                lemma_poll_keeps_valid(settle_effect(m, k, now), paid, k + 1, now);
            }
        } else {
            lemma_poll_keeps_valid(m, paid, k + 1, now);
        }
    }
}

/// Evictions keep the books valid.
proof fn lemma_evict_keeps_valid(m: Market, k: int, now: i64, timeout: int)
    requires
        valid(m),
        0 <= k <= m.rentals.len(),
    ensures
        valid(evicted(m, k, now, timeout)),
{
    lemma_evicted_frame(m, k, now, timeout);
    let n = evicted(m, k, now, timeout);
    assert forall|j: int| 0 <= j < n.rentals.len() implies {
        let r = #[trigger] n.rentals[j];
        r.id == m.rentals[j].id && r.rate_sats_per_min == m.rentals[j].rate_sats_per_min
            && r.machine_id == m.rentals[j].machine_id && r.account_id == m.rentals[j].account_id
    } by {
        if j < k {
        }
    }
    assert(valid_rentals(n)) by {
        assert forall|i: int, j: int|
            #![trigger n.rentals[i], n.rentals[j]]
            0 <= i < j < n.rentals.len() implies n.rentals[i].id < n.rentals[j].id by {
            assert(m.rentals[i].id < m.rentals[j].id);
        }
        assert forall|i: int| 0 <= i < n.rentals.len() implies {
            let r = #[trigger] n.rentals[i];
            r.rate_sats_per_min >= 1 && machine_known(n.machines, r.machine_id) && account_known(
                n.accounts,
                r.account_id,
            )
        } by {
            assert(m.rentals[i].rate_sats_per_min >= 1);
        }
    }
}

/// A registration keeps the books valid.
proof fn lemma_register_keeps_valid(
    m: Market,
    req: RegisterRequestView,
    token: Seq<char>,
    now: i64,
)
    requires
        valid(m),
        register_refusal(m, req, token) is None,
    ensures
        valid(after_register(m, req, token, now)),
{
    let n = after_register(m, req, token, now);
    lemma_position(m.machines, |x: MachineRowView| x.host_id == req.host_id);
    match machine_of_host(m, req.host_id) {
        Some(i) => {
            lemma_machine_update(m.machines, i, n.machines[i]);
            assert(n.machines =~= m.machines.update(i, n.machines[i]));
        },
        None => {
            lemma_position(m.machines, |x: MachineRowView| x.agent_token == token);
            let last = m.machines.len() as int;
            assert forall|i: int, j: int|
                #![trigger n.machines[i], n.machines[j]]
                0 <= i < j < n.machines.len() implies n.machines[i].id < n.machines[j].id
                && n.machines[i].agent_token != n.machines[j].agent_token && n.machines[i].host_id
                != n.machines[j].host_id by {
                if j == last {
                    assert(m.machines[i].id <= m.machines[last - 1].id) by {
                        if i < last - 1 {
                            assert(m.machines[i].id < m.machines[last - 1].id);
                        }
                    }
                } else {
                    assert(m.machines[i].id < m.machines[j].id);
                }
            }
            assert forall|id: i64| machine_known(m.machines, id) implies #[trigger] machine_known(
                n.machines,
                id,
            ) by {
                let k = choose|k: int| 0 <= k < m.machines.len() && (#[trigger] m.machines[k]).id == id;
                assert(n.machines[k].id == id);
            }
        },
    }
    assert(valid_machines(n.machines));
    assert(valid_rentals(n));
    assert(valid_invoices(n));
}

/// What a report that is not refused may rely on.
pub proof fn lemma_report_rows(
    m: Market,
    authorization: Option<Seq<char>>,
    req: ReportRequestView,
    now: i64,
)
    requires
        report_refusal(m, authorization, req, now) is None,
    ensures
        ({
            let i = caller(m, authorization)->Ok_0;
            let j = rental_of(m, req.rental_id, m.machines[i].id)->0;
            let r = m.rentals[j];
            &&& 0 <= i < m.machines.len()
            &&& 0 <= j < m.rentals.len()
            &&& r.id == req.rental_id
            &&& r.machine_id == m.machines[i].id
            &&& settles(r, req) ==> {
                let a = account_pos(m, r.account_id)->0;
                &&& account_pos(m, r.account_id) is Some
                &&& 0 <= a < m.accounts.len()
                &&& m.accounts[a].id == r.account_id
            }
        }),
{
    lemma_caller(m, authorization);
    let i = caller(m, authorization)->Ok_0;
    let machine_id = m.machines[i].id;
    lemma_position(
        m.rentals,
        |x: RentalRowView| x.id == req.rental_id && x.machine_id == machine_id,
    );
    let j = rental_of(m, req.rental_id, machine_id)->0;
    let account_id = m.rentals[j].account_id;
    lemma_position(m.accounts, |x: AccountRowView| x.id == account_id);
}

/// A report keeps the books valid.
proof fn lemma_report_keeps_valid(
    m: Market,
    authorization: Option<Seq<char>>,
    req: ReportRequestView,
    now: i64,
)
    requires
        valid(m),
        report_refusal(m, authorization, req, now) is None,
    ensures
        valid(after_report(m, authorization, req, now)),
{
    lemma_report_rows(m, authorization, req, now);
    let n = after_report(m, authorization, req, now);
    let i = caller(m, authorization)->Ok_0;
    let j = rental_of(m, req.rental_id, m.machines[i].id)->0;
    let r = m.rentals[j];
    if settles(r, req) {
        let a = account_pos(m, r.account_id)->0;
        accrual_is_exact(r.created_at as int, now as int, r.rate_sats_per_min as int);
        let charge = final_charge(r, m.accounts[a].balance_sats as int, now as int);
        if charge > 0 {
            lemma_account_update(m.accounts, a, n.accounts[a]);
            lemma_machine_update(m.machines, i, n.machines[i]);
            assert(n.accounts =~= m.accounts.update(a, n.accounts[a]));
            assert(n.machines =~= m.machines.update(i, n.machines[i]));
        }
    }
    assert(valid_machines(n.machines));
    assert(valid_accounts(n.accounts));
    assert(n.rentals =~= m.rentals.update(j, n.rentals[j]));
    assert forall|k: int| 0 <= k < n.rentals.len() implies {
        let x = #[trigger] n.rentals[k];
        x.id == m.rentals[k].id && x.rate_sats_per_min == m.rentals[k].rate_sats_per_min
            && x.machine_id == m.rentals[k].machine_id && x.account_id == m.rentals[k].account_id
    } by {}
    assert(valid_rentals(n)) by {
        assert forall|i: int, j: int|
            #![trigger n.rentals[i], n.rentals[j]]
            0 <= i < j < n.rentals.len() implies n.rentals[i].id < n.rentals[j].id by {
            assert(m.rentals[i].id < m.rentals[j].id);
        }
        assert forall|i: int| 0 <= i < n.rentals.len() implies {
            let r = #[trigger] n.rentals[i];
            r.rate_sats_per_min >= 1 && machine_known(n.machines, r.machine_id) && account_known(
                n.accounts,
                r.account_id,
            )
        } by {
            assert(m.rentals[i].rate_sats_per_min >= 1);
        }
    }
    assert(valid_invoices(n));
}

/// A new rental keeps the books valid.
proof fn lemma_create_rental_keeps_valid(
    m: Market,
    req: CreateRentalRequestView,
    period: i64,
    now: i64,
)
    requires
        valid(m),
        rental_refusal(m, req) is None,
    ensures
        valid(after_create_rental(m, req, period, now)),
{
    let n = after_create_rental(m, req, period, now);
    lemma_position(m.machines, |x: MachineRowView| x.id == req.machine_id);
    lemma_position(m.accounts, |x: AccountRowView| x.id == req.account_id);
    let i = machine_pos(m, req.machine_id)->0;
    let a = account_pos(m, req.account_id)->0;
    assert(machine_known(n.machines, req.machine_id)) by {
        assert(n.machines[i].id == req.machine_id);
    }
    assert(account_known(n.accounts, req.account_id)) by {
        assert(n.accounts[a].id == req.account_id);
    }
    let last = m.rentals.len() as int;
    assert(valid_rentals(n)) by {
        assert forall|i: int, j: int|
            #![trigger n.rentals[i], n.rentals[j]]
            0 <= i < j < n.rentals.len() implies n.rentals[i].id < n.rentals[j].id by {
            if j == last {
                if i < last - 1 {
                    assert(m.rentals[i].id < m.rentals[last - 1].id);
                }
            } else {
                assert(m.rentals[i].id < m.rentals[j].id);
            }
        }
        assert forall|k: int| 0 <= k < n.rentals.len() implies {
            let r = #[trigger] n.rentals[k];
            r.rate_sats_per_min >= 1 && machine_known(n.machines, r.machine_id) && account_known(
                n.accounts,
                r.account_id,
            )
        } by {
            if k < last {
                assert(m.rentals[k].rate_sats_per_min >= 1);
            } else {
                assert(m.machines[i].rate_sats_per_min >= 1);
            }
        }
    }
    assert(valid_invoices(n));
}

/// A new account or invoice keeps the books valid.
proof fn lemma_accounts_and_invoices_keep_valid(m: Market, e: Event)
    requires
        valid(m),
        !refused(m, e),
        e is CreateAccount || e is Deposit,
    ensures
        valid(effect(m, e)),
{
    let n = effect(m, e);
    match e {
        Event::CreateAccount { account: id, now } => {
            lemma_position(m.accounts, |x: AccountRowView| x.id == id);
            assert forall|k: Seq<char>| account_known(m.accounts, k) implies
                #[trigger] account_known(n.accounts, k) by {
                let i = choose|i: int| 0 <= i < m.accounts.len() && (#[trigger] m.accounts[i]).id == k;
                assert(n.accounts[i].id == k);
            }
            assert(valid_accounts(n.accounts));
            assert(valid_rentals(n));
            assert(valid_invoices(n));
        },
        Event::Deposit { account: id, sats, outcome, now } => {
            let hash = (outcome->Ok_0).payment_hash;
            lemma_position(m.invoices, |x: InvoiceRowView| x.payment_hash == hash);
            lemma_position(m.accounts, |x: AccountRowView| x.id == id);
            assert(account_known(n.accounts, id)) by {
                assert(n.accounts[account_pos(m, id)->0].id == id);
            }
            assert(valid_rentals(n));
            assert(valid_invoices(n));
        },
        _ => {},
    }
}

/// An event on a single machine or rental row keeps the books valid.
proof fn lemma_row_events_keep_valid(m: Market, e: Event)
    requires
        valid(m),
        !refused(m, e),
        e is Heartbeat || e is Rate || e is Payout || e is DeleteRental || e is MarkOffline,
    ensures
        valid(effect(m, e)),
{
    let n = effect(m, e);
    match e {
        Event::Heartbeat { authorization, online, now } => {
            lemma_caller(m, authorization);
            let i = caller(m, authorization)->Ok_0;
            lemma_machine_update(m.machines, i, n.machines[i]);
            assert(n.machines =~= m.machines.update(i, n.machines[i]));
        },
        Event::Rate { authorization, rate } => {
            lemma_caller(m, authorization);
            let i = caller(m, authorization)->Ok_0;
            lemma_machine_update(m.machines, i, n.machines[i]);
            assert(n.machines =~= m.machines.update(i, n.machines[i]));
        },
        Event::Payout { due, failure, now } => {
            lemma_position(m.machines, |x: MachineRowView| x.id == due.machine_id);
            let i = machine_pos(m, due.machine_id)->0;
            lemma_machine_update(m.machines, i, n.machines[i]);
            assert(n.machines =~= m.machines.update(i, n.machines[i]));
        },
        Event::DeleteRental { rental: id, now } => {
            lemma_position(m.rentals, |x: RentalRowView| x.id == id);
        },
        Event::MarkOffline { threshold } => {
            assert forall|k: i64| machine_known(m.machines, k) implies #[trigger] machine_known(
                n.machines,
                k,
            ) by {
                let i = choose|i: int| 0 <= i < m.machines.len() && (#[trigger] m.machines[i]).id == k;
                assert(n.machines[i].id == k);
            }
            assert forall|i: int| 0 <= i < n.machines.len() implies {
                let h = #[trigger] n.machines[i];
                h.id == m.machines[i].id && h.agent_token == m.machines[i].agent_token && h.host_id
                    == m.machines[i].host_id && h.rate_sats_per_min
                    == m.machines[i].rate_sats_per_min && h.payout_balance
                    == m.machines[i].payout_balance
            } by {}
            assert(valid_machines(n.machines)) by {
                assert forall|i: int, j: int|
                    #![trigger n.machines[i], n.machines[j]]
                    0 <= i < j < n.machines.len() implies n.machines[i].id < n.machines[j].id
                    && n.machines[i].agent_token != n.machines[j].agent_token
                    && n.machines[i].host_id != n.machines[j].host_id by {
                    assert(m.machines[i].id < m.machines[j].id);
                }
                assert forall|i: int| 0 <= i < n.machines.len() implies (
                #[trigger] n.machines[i]).rate_sats_per_min >= 1 && n.machines[i].payout_balance
                    >= 0 by {
                    assert(m.machines[i].rate_sats_per_min >= 1);
                }
            }
        },
        _ => {},
    }
    assert(valid_machines(n.machines));
    assert(valid_rentals(n)) by {
        assert forall|i: int| 0 <= i < n.rentals.len() implies {
            let r = #[trigger] n.rentals[i];
            r.rate_sats_per_min >= 1 && machine_known(n.machines, r.machine_id) && account_known(
                n.accounts,
                r.account_id,
            )
        } by {
            assert(m.rentals[i].rate_sats_per_min >= 1);
        }
    }
    assert(valid_invoices(n));
}

/// Every event keeps the books valid: keys stay unique, every row that is named
/// exists, prices stay at least one sat, and no balance and no debt to a host ever
/// becomes negative.
pub proof fn market_stays_valid(m: Market, e: Event)
    requires
        valid(m),
    ensures
        valid(after(m, e)),
{
    if !refused(m, e) {
        match e {
            Event::Register { registration: req, token, now } => {
                lemma_register_keeps_valid(m, req, token, now);
            },
            Event::Report { authorization, report: req, now } => {
                lemma_report_keeps_valid(m, authorization, req, now);
            },
            Event::CreateRental { request: req, period, now } => {
                lemma_create_rental_keeps_valid(m, req, period, now);
            },
            Event::PollInvoices { paid, now } => {
                lemma_poll_keeps_valid(m, paid, 0, now);
            },
            Event::EnforceBudgets { now, timeout } => {
                lemma_position(
                    m.rentals,
                    |r: RentalRowView| dangling(m, r, now as int, timeout),
                );
                let k = match first_dangling(m, now as int, timeout) {
                    None => m.rentals.len() as int,
                    Some(k) => k,
                };
                lemma_evict_keeps_valid(m, k, now, timeout);
            },
            Event::CreateAccount { .. } => {
                lemma_accounts_and_invoices_keep_valid(m, e);
            },
            Event::Deposit { .. } => {
                lemma_accounts_and_invoices_keep_valid(m, e);
            },
            _ => {
                lemma_row_events_keep_valid(m, e);
            },
        }
    }
}

/// Every market that comes about is valid.
pub proof fn every_history_is_valid(events: Seq<Event>)
    ensures
        valid(history(events)),
    decreases events.len(),
{
    if events.len() > 0 {
        every_history_is_valid(events.drop_last());
        market_stays_valid(history(events.drop_last()), events.last());
    }
}

} // verus!
