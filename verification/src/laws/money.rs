//! Laws of money: where the sats are, and what the ledger says of it.

use vstd::prelude::*;

use super::books::{accrual_is_exact, every_history_is_valid, lemma_caller, lemma_report_rows};
use super::{after, history, refused, valid, Event};
use crate::api::{CreateRentalRequestView, ReportRequestView};
use crate::billing::{
    accrued, dangling, elapsed_secs, evict_effect, evicted, first_dangling, lemma_evicted_frame,
    newly_paid, over_budget, polled, settle_effect, settle_refusal,
};
use crate::db::{
    account_pos, lemma_position, machine_of_host, machine_pos, AccountRowView, LedgerRowView,
    MachineRowView, Market, RentalRowView,
};
use crate::error::ApiErrorView;
use crate::routes::agent::{
    after_report, final_charge, rental_of, report_refusal, settles, PayoutDue,
};
use crate::routes::caller;
use crate::routes::tenant::after_create_rental;

verus! {

/// The sum of a number taken of each item.
pub open spec fn sum_of<T>(s: Seq<T>, f: spec_fn(T) -> int) -> int
    decreases s.len(),
{
    if s.len() == 0 {
        0
    } else {
        sum_of(s.drop_last(), f) + f(s.last())
    }
}

proof fn lemma_sum_push<T>(s: Seq<T>, x: T, f: spec_fn(T) -> int)
    ensures
        sum_of(s.push(x), f) == sum_of(s, f) + f(x),
{
    assert(s.push(x).drop_last() =~= s);
}

proof fn lemma_sum_update<T>(s: Seq<T>, i: int, x: T, f: spec_fn(T) -> int)
    requires
        0 <= i < s.len(),
    ensures
        sum_of(s.update(i, x), f) == sum_of(s, f) - f(s[i]) + f(x),
    decreases s.len(),
{
    let t = s.update(i, x);
    if i == s.len() - 1 {
        assert(t.drop_last() =~= s.drop_last());
    } else {
        assert(t.drop_last() =~= s.drop_last().update(i, x));
        lemma_sum_update(s.drop_last(), i, x, f);
    }
}

proof fn lemma_sum_same<T>(s: Seq<T>, t: Seq<T>, f: spec_fn(T) -> int)
    requires
        s.len() == t.len(),
        forall|i: int| 0 <= i < s.len() ==> f(#[trigger] s[i]) == f(t[i]),
    ensures
        sum_of(s, f) == sum_of(t, f),
    decreases s.len(),
{
    if s.len() > 0 {
        assert forall|i: int| 0 <= i < s.len() - 1 implies f(#[trigger] s.drop_last()[i]) == f(
            t.drop_last()[i],
        ) by {
            assert(f(s[i]) == f(t[i]));
        }
        lemma_sum_same(s.drop_last(), t.drop_last(), f);
        assert(f(s[s.len() - 1]) == f(t[s.len() - 1]));
    }
}

/// Sums of numbers that are not negative, and when they vanish.
proof fn lemma_sum_bounds<T>(s: Seq<T>, f: spec_fn(T) -> int)
    requires
        forall|i: int| 0 <= i < s.len() ==> f(#[trigger] s[i]) >= 0,
    ensures
        sum_of(s, f) >= 0,
        (sum_of(s, f) == 0) == (forall|i: int| 0 <= i < s.len() ==> f(#[trigger] s[i]) == 0),
    decreases s.len(),
{
    if s.len() > 0 {
        let d = s.drop_last();
        assert forall|i: int| 0 <= i < d.len() implies f(#[trigger] d[i]) >= 0 by {
            assert(f(s[i]) >= 0);
        }
        lemma_sum_bounds(d, f);
        let last = s.len() - 1;
        assert(f(s[last]) >= 0);
        if sum_of(s, f) == 0 {
            assert forall|i: int| 0 <= i < s.len() implies f(#[trigger] s[i]) == 0 by {
                if i < last {
                    assert(f(d[i]) == 0);
                }
            }
        } else if sum_of(d, f) != 0 {
            let k = choose|k: int| 0 <= k < d.len() && f(#[trigger] d[k]) != 0;
            assert(f(s[k]) != 0);
        } else {
            assert(f(s[last]) != 0);
        }
    }
}

/// What the tenants' accounts hold together.
pub open spec fn deposits_held(m: Market) -> int {
    sum_of(m.accounts, |a: AccountRowView| a.balance_sats as int)
}

/// What the hosts are owed together.
pub open spec fn owed_to_hosts(m: Market) -> int {
    sum_of(m.machines, |h: MachineRowView| h.payout_balance as int)
}

/// All sats that the marketplace holds for others.
pub open spec fn custody(m: Market) -> int {
    deposits_held(m) + owed_to_hosts(m)
}

/// The sum of all ledger entries.
pub open spec fn ledger_sum(m: Market) -> int {
    sum_of(m.ledger, |l: LedgerRowView| l.delta_sats as int)
}

/// What a ledger entry has to do with charges for rentals.
pub open spec fn charge_part(l: LedgerRowView) -> int {
    if l.kind is RentalCharge || l.kind is HostCredit {
        l.delta_sats as int
    } else {
        0
    }
}

/// The sum of the entries by which rentals are charged.
pub open spec fn charges_sum(m: Market) -> int {
    sum_of(m.ledger, |l: LedgerRowView| charge_part(l))
}

/// True unless the event books a payout of another amount than is owed by then.
pub open spec fn payout_is_current(m: Market, e: Event) -> bool {
    e matches Event::Payout { due, failure, now } ==> (machine_pos(m, due.machine_id) matches Some(i)
        ==> due.owed == m.machines[i].payout_balance)
}

proof fn lemma_settle_money(m: Market, k: int, now: i64)
    requires
        0 <= k < m.invoices.len(),
        settle_refusal(m, k) is None,
    ensures
        ledger_sum(settle_effect(m, k, now)) - custody(settle_effect(m, k, now)) == ledger_sum(m)
            - custody(m),
        charges_sum(settle_effect(m, k, now)) == charges_sum(m),
{
    let n = settle_effect(m, k, now);
    let id = m.invoices[k].account_id;
    lemma_position(m.accounts, |x: AccountRowView| x.id == id);
    let a = account_pos(m, id)->0;
    lemma_sum_update(m.accounts, a, n.accounts[a], |x: AccountRowView| x.balance_sats as int);
    lemma_sum_push(m.ledger, n.ledger.last(), |l: LedgerRowView| l.delta_sats as int);
    lemma_sum_push(m.ledger, n.ledger.last(), |l: LedgerRowView| charge_part(l));
}

proof fn lemma_poll_money(m: Market, paid: Seq<Seq<char>>, k: int, now: i64)
    requires
        0 <= k,
    ensures
        ({
            let n = polled(m, paid, k, now).0;
            ledger_sum(n) - custody(n) == ledger_sum(m) - custody(m) && charges_sum(n)
                == charges_sum(m)
        }),
    decreases m.invoices.len() - k,
{
    if k < m.invoices.len() {
        if newly_paid(m, paid, k) {
            if settle_refusal(m, k) is None {
                lemma_settle_money(m, k, now);
                lemma_poll_money(settle_effect(m, k, now), paid, k + 1, now);
            }
        } else {
            lemma_poll_money(m, paid, k + 1, now);
        }
    }
}

/// Evictions move no money: accounts and debts to hosts stay, and the ledger's
/// sum stays.
pub proof fn eviction_moves_no_money(m: Market, k: int, now: i64, timeout: int)
    requires
        0 <= k <= m.rentals.len(),
    ensures
        evicted(m, k, now, timeout).accounts == m.accounts,
        evicted(m, k, now, timeout).machines == m.machines,
        ledger_sum(evicted(m, k, now, timeout)) == ledger_sum(m),
        charges_sum(evicted(m, k, now, timeout)) == charges_sum(m),
    decreases k,
{
    lemma_evicted_frame(m, k, now, timeout);
    if k > 0 {
        eviction_moves_no_money(m, k - 1, now, timeout);
        let b = evicted(m, k - 1, now, timeout);
        if over_budget(m, m.rentals[k - 1], now as int, timeout) {
            let n = evict_effect(b, k - 1, now);
            lemma_sum_push(b.ledger, n.ledger.last(), |l: LedgerRowView| l.delta_sats as int);
            lemma_sum_push(b.ledger, n.ledger.last(), |l: LedgerRowView| charge_part(l));
        }
    }
}

proof fn lemma_report_money(
    m: Market,
    authorization: Option<Seq<char>>,
    req: ReportRequestView,
    now: i64,
)
    requires
        valid(m),
        report_refusal(m, authorization, req, now) is None,
    ensures
        ({
            let n = after_report(m, authorization, req, now);
            &&& ledger_sum(n) == ledger_sum(m)
            &&& custody(n) == custody(m)
            &&& charges_sum(n) == charges_sum(m)
        }),
{
    lemma_report_rows(m, authorization, req, now);
    let n = after_report(m, authorization, req, now);
    let i = caller(m, authorization)->Ok_0;
    let j = rental_of(m, req.rental_id, m.machines[i].id)->0;
    let r = m.rentals[j];
    if settles(r, req) {
        let a = account_pos(m, r.account_id)->0;
        accrual_is_exact(r.created_at as int, now as int, r.rate_sats_per_min as int);
        let charge = final_charge(r, m.accounts[a].balance_sats as int, now as int);
        if charge > 0 {
            lemma_sum_update(
                m.accounts,
                a,
                n.accounts[a],
                |x: AccountRowView| x.balance_sats as int,
            );
            lemma_sum_update(
                m.machines,
                i,
                n.machines[i],
                |x: MachineRowView| x.payout_balance as int,
            );
            let one = m.ledger.push(n.ledger[m.ledger.len() as int]);
            assert(n.ledger =~= one.push(n.ledger.last()));
            lemma_sum_push(m.ledger, one.last(), |l: LedgerRowView| l.delta_sats as int);
            lemma_sum_push(one, n.ledger.last(), |l: LedgerRowView| l.delta_sats as int);
            lemma_sum_push(m.ledger, one.last(), |l: LedgerRowView| charge_part(l));
            lemma_sum_push(one, n.ledger.last(), |l: LedgerRowView| charge_part(l));
        }
    }
}

proof fn lemma_owed_unchanged(m: Market, n: Market)
    requires
        n.machines.len() == m.machines.len(),
        forall|i: int|
            0 <= i < m.machines.len() ==> (#[trigger] m.machines[i]).payout_balance
                == n.machines[i].payout_balance,
    ensures
        owed_to_hosts(n) == owed_to_hosts(m),
{
    lemma_sum_same(m.machines, n.machines, |h: MachineRowView| h.payout_balance as int);
}

/// The ledger accounts for all sats held: no event makes its sum and what is held
/// for tenants and hosts drift apart. A payout is taken to book what is owed when
/// it is booked.
pub proof fn ledger_tracks_custody(m: Market, e: Event)
    requires
        valid(m),
        payout_is_current(m, e),
    ensures
        ledger_sum(after(m, e)) - custody(after(m, e)) == ledger_sum(m) - custody(m),
{
    let n = after(m, e);
    if !refused(m, e) {
        match e {
            Event::Register { registration: req, token, now } => {
                lemma_position(m.machines, |x: MachineRowView| x.host_id == req.host_id);
                match machine_of_host(m, req.host_id) {
                    Some(i) => {
                        lemma_owed_unchanged(m, n);
                    },
                    None => {
                        lemma_sum_push(
                            m.machines,
                            n.machines.last(),
                            |h: MachineRowView| h.payout_balance as int,
                        );
                    },
                }
            },
            Event::Heartbeat { authorization, online, now } => {
                lemma_caller(m, authorization);
                lemma_owed_unchanged(m, n);
            },
            Event::Rate { authorization, rate } => {
                lemma_caller(m, authorization);
                lemma_owed_unchanged(m, n);
            },
            Event::MarkOffline { threshold } => {
                lemma_owed_unchanged(m, n);
            },
            Event::Report { authorization, report: req, now } => {
                lemma_report_money(m, authorization, req, now);
            },
            Event::Payout { due, failure, now } => {
                lemma_position(m.machines, |x: MachineRowView| x.id == due.machine_id);
                let i = machine_pos(m, due.machine_id)->0;
                lemma_sum_update(
                    m.machines,
                    i,
                    n.machines[i],
                    |h: MachineRowView| h.payout_balance as int,
                );
                lemma_sum_push(m.ledger, n.ledger.last(), |l: LedgerRowView| l.delta_sats as int);
            },
            Event::CreateAccount { account: id, now } => {
                lemma_sum_push(
                    m.accounts,
                    n.accounts.last(),
                    |a: AccountRowView| a.balance_sats as int,
                );
            },
            Event::PollInvoices { paid, now } => {
                lemma_poll_money(m, paid, 0, now);
            },
            Event::EnforceBudgets { now, timeout } => {
                lemma_position(m.rentals, |r: RentalRowView| dangling(m, r, now as int, timeout));
                let k = match first_dangling(m, now as int, timeout) {
                    None => m.rentals.len() as int,
                    Some(k) => k,
                };
                eviction_moves_no_money(m, k, now, timeout);
            },
            _ => {},
        }
    }
}

/// The two halves of every charge cancel out: no event changes the sum of the
/// entries by which rentals are charged.
pub proof fn charges_cancel(m: Market, e: Event)
    requires
        valid(m),
    ensures
        charges_sum(after(m, e)) == charges_sum(m),
{
    let n = after(m, e);
    if !refused(m, e) {
        match e {
            Event::Report { authorization, report: req, now } => {
                lemma_report_money(m, authorization, req, now);
            },
            Event::Payout { due, failure, now } => {
                lemma_sum_push(m.ledger, n.ledger.last(), |l: LedgerRowView| charge_part(l));
            },
            Event::PollInvoices { paid, now } => {
                lemma_poll_money(m, paid, 0, now);
            },
            Event::EnforceBudgets { now, timeout } => {
                lemma_position(m.rentals, |r: RentalRowView| dangling(m, r, now as int, timeout));
                let k = match first_dangling(m, now as int, timeout) {
                    None => m.rentals.len() as int,
                    Some(k) => k,
                };
                eviction_moves_no_money(m, k, now, timeout);
            },
            _ => {},
        }
    }
}

/// True when every payout of a history books what is owed by then.
pub open spec fn payouts_are_current(events: Seq<Event>) -> bool
    decreases events.len(),
{
    events.len() > 0 ==> payouts_are_current(events.drop_last()) && payout_is_current(
        history(events.drop_last()),
        events.last(),
    )
}

/// The ledger sums up to what is held for tenants and hosts, and the charges sum up
/// to nothing, in every market that comes about while payouts book what is owed by
/// then.
pub proof fn every_history_balances(events: Seq<Event>)
    requires
        payouts_are_current(events),
    ensures
        ledger_sum(history(events)) == custody(history(events)),
        charges_sum(history(events)) == 0,
    decreases events.len(),
{
    if events.len() > 0 {
        let earlier = events.drop_last();
        every_history_balances(earlier);
        every_history_is_valid(earlier);
        ledger_tracks_custody(history(earlier), events.last());
        charges_cancel(history(earlier), events.last());
    }
}

/// The ledger reconciles to zero: while payouts book what is owed by then, its sum is
/// zero in just those markets in which all deposits have been spent and all hosts
/// have been paid out.
pub proof fn ledger_reconciles_to_zero(events: Seq<Event>)
    requires
        payouts_are_current(events),
    ensures
        ({
            let m = history(events);
            ledger_sum(m) == 0 <==> ((forall|i: int|
                0 <= i < m.accounts.len() ==> (#[trigger] m.accounts[i]).balance_sats == 0) && (
            forall|i: int|
                0 <= i < m.machines.len() ==> (#[trigger] m.machines[i]).payout_balance == 0))
        }),
{
    let m = history(events);
    every_history_balances(events);
    every_history_is_valid(events);
    let f = |a: AccountRowView| a.balance_sats as int;
    let g = |h: MachineRowView| h.payout_balance as int;
    assert forall|i: int| 0 <= i < m.accounts.len() implies f(#[trigger] m.accounts[i]) >= 0 by {}
    assert forall|i: int| 0 <= i < m.machines.len() implies g(#[trigger] m.machines[i]) >= 0 by {}
    lemma_sum_bounds(m.accounts, f);
    lemma_sum_bounds(m.machines, g);
    if ledger_sum(m) == 0 {
        assert forall|i: int| 0 <= i < m.accounts.len() implies (
        #[trigger] m.accounts[i]).balance_sats == 0 by {
            assert(f(m.accounts[i]) == 0);
        }
        assert forall|i: int| 0 <= i < m.machines.len() implies (
        #[trigger] m.machines[i]).payout_balance == 0 by {
            assert(g(m.machines[i]) == 0);
        }
    }
}

/// The row of the rental that a report is about.
pub open spec fn reported_row(
    m: Market,
    authorization: Option<Seq<char>>,
    req: ReportRequestView,
) -> int {
    rental_of(m, req.rental_id, m.machines[caller(m, authorization)->Ok_0].id)->0
}

/// A tenant is never overcharged: the report that ends a rental charges what the
/// elapsed time costs, without the fraction, or all that the account holds if that
/// is less; the account loses just that, the host gains just that, and the rental
/// shows it.
pub proof fn tenant_is_never_overcharged(
    m: Market,
    authorization: Option<Seq<char>>,
    req: ReportRequestView,
    now: i64,
)
    requires
        valid(m),
        report_refusal(m, authorization, req, now) is None,
        settles(m.rentals[reported_row(m, authorization, req)], req),
    ensures
        ({
            let n = after_report(m, authorization, req, now);
            let i = caller(m, authorization)->Ok_0;
            let j = reported_row(m, authorization, req);
            let r = m.rentals[j];
            let a = account_pos(m, r.account_id)->0;
            let charge = n.rentals[j].sats_charged;
            let cost = accrued(r.created_at as int, now as int, r.rate_sats_per_min as int);
            &&& 0 <= charge <= m.accounts[a].balance_sats
            &&& charge == if cost <= m.accounts[a].balance_sats {
                cost
            } else {
                m.accounts[a].balance_sats as int
            }
            &&& 60 * charge <= elapsed_secs(r.created_at as int, now as int) * r.rate_sats_per_min
            &&& n.accounts[a].balance_sats == m.accounts[a].balance_sats - charge
            &&& n.machines[i].payout_balance == m.machines[i].payout_balance + charge
            &&& n.rentals[j].minutes_billed == elapsed_secs(r.created_at as int, now as int) / 60
        }),
{
    lemma_report_rows(m, authorization, req, now);
    let r = m.rentals[reported_row(m, authorization, req)];
    accrual_is_exact(r.created_at as int, now as int, r.rate_sats_per_min as int);
}

/// Only the end of a rental is charged: a report on a rental that has ended, and a
/// report that does not end one, move no money and leave what was charged as it
/// was.
pub proof fn only_the_end_is_charged(
    m: Market,
    authorization: Option<Seq<char>>,
    req: ReportRequestView,
    now: i64,
)
    requires
        report_refusal(m, authorization, req, now) is None,
        m.rentals[reported_row(m, authorization, req)].status.ended() || !req.status.ended(),
    ensures
        ({
            let n = after_report(m, authorization, req, now);
            let j = reported_row(m, authorization, req);
            &&& n.accounts == m.accounts
            &&& n.machines == m.machines
            &&& n.ledger == m.ledger
            &&& n.rentals[j].sats_charged == m.rentals[j].sats_charged
            &&& n.rentals[j].minutes_billed == m.rentals[j].minutes_billed
        }),
{
    lemma_report_rows(m, authorization, req, now);
}

/// Renting moves no money: the whole rental is paid for when it stops.
pub proof fn renting_is_not_charged_up_front(
    m: Market,
    req: CreateRentalRequestView,
    period: i64,
    now: i64,
)
    ensures
        after_create_rental(m, req, period, now).accounts == m.accounts,
        after_create_rental(m, req, period, now).machines == m.machines,
        after_create_rental(m, req, period, now).ledger == m.ledger,
        custody(after_create_rental(m, req, period, now)) == custody(m),
        ledger_sum(after_create_rental(m, req, period, now)) == ledger_sum(m),
        after_create_rental(m, req, period, now).rentals.last().sats_charged == 0,
        after_create_rental(m, req, period, now).rentals.last().minutes_billed == 0,
{
}

/// A payout that was made leaves nothing owed to its machine and all others as
/// they were; one that failed changes nothing at all.
pub proof fn payout_is_all_or_nothing(
    m: Market,
    due: PayoutDue,
    failure: Option<Seq<char>>,
    now: i64,
)
    ensures
        ({
            let n = after(m, Event::Payout { due, failure, now });
            &&& failure is Some ==> n == m
            &&& failure is None ==> (machine_pos(m, due.machine_id) matches Some(i) ==> {
                &&& n.machines[i].payout_balance == 0
                &&& n.accounts == m.accounts
                &&& forall|k: int|
                    0 <= k < m.machines.len() && k != i ==> #[trigger] n.machines[k] == m.machines[k]
            })
        }),
{
    lemma_position(m.machines, |x: MachineRowView| x.id == due.machine_id);
}

proof fn lemma_polled_rows(m: Market, paid: Seq<Seq<char>>, k: int, now: i64)
    requires
        0 <= k,
    ensures
        ({
            let n = polled(m, paid, k, now);
            &&& n.0.invoices.len() == m.invoices.len()
            &&& forall|j: int|
                0 <= j < m.invoices.len() ==> (#[trigger] n.0.invoices[j]).payment_hash
                    == m.invoices[j].payment_hash && (m.invoices[j].settled
                    ==> n.0.invoices[j].settled)
            &&& n.1 is None ==> forall|j: int|
                k <= j < m.invoices.len() ==> !newly_paid(n.0, paid, j)
        }),
    decreases m.invoices.len() - k,
{
    if k < m.invoices.len() {
        if newly_paid(m, paid, k) {
            if settle_refusal(m, k) is None {
                let next = settle_effect(m, k, now);
                lemma_polled_rows(next, paid, k + 1, now);
                let n = polled(next, paid, k + 1, now);
                assert forall|j: int| 0 <= j < m.invoices.len() implies (
                #[trigger] n.0.invoices[j]).payment_hash == m.invoices[j].payment_hash && (
                m.invoices[j].settled ==> n.0.invoices[j].settled) by {
                    assert(next.invoices[j].payment_hash == m.invoices[j].payment_hash);
                }
                assert(next.invoices[k].settled);
                assert(n.0.invoices[k].settled);
            }
        } else {
            lemma_polled_rows(m, paid, k + 1, now);
            let n = polled(m, paid, k + 1, now);
            assert(n.0.invoices[k].payment_hash == m.invoices[k].payment_hash);
        }
    }
}

proof fn lemma_nothing_to_poll(m: Market, paid: Seq<Seq<char>>, k: int, now: i64)
    requires
        0 <= k,
        forall|j: int| k <= j < m.invoices.len() ==> !newly_paid(m, paid, j),
    ensures
        polled(m, paid, k, now) == (m, None::<ApiErrorView>),
    decreases m.invoices.len() - k,
{
    if k < m.invoices.len() {
        assert(!newly_paid(m, paid, k));
        lemma_nothing_to_poll(m, paid, k + 1, now);
    }
}

/// A paid invoice is credited once: after a poll that went through, another one
/// with the same payments changes nothing.
pub proof fn deposit_is_credited_once(m: Market, paid: Seq<Seq<char>>, now: i64, later: i64)
    requires
        polled(m, paid, 0, now).1 is None,
    ensures
        polled(polled(m, paid, 0, now).0, paid, 0, later) == (
            polled(m, paid, 0, now).0,
            None::<ApiErrorView>,
        ),
{
    lemma_polled_rows(m, paid, 0, now);
    lemma_nothing_to_poll(polled(m, paid, 0, now).0, paid, 0, later);
}

} // verus!
