//! Laws of renting: who holds a machine, on which terms, and what tenants see.

use vstd::prelude::*;

use super::books::lemma_report_rows;
use super::{after, history, machine_known, refused, valid, Event};
use crate::api::{CommandView, CreateRentalRequestView, RegisterRequestView, ReportRequestView};
use crate::billing::{
    after_mark_offline, dangling, evicted, first_dangling, heard_from, lemma_evicted_frame,
    newly_paid, over_budget, polled, settle_effect, settle_refusal,
};
use crate::db::{
    account_pos, holds_machine, lemma_position, lemma_position_is, machine_of_host, machine_pos, occupied,
    MachineRowView, Market, RentalRowView,
};
use crate::error::refusal;
use crate::model::{measure_key, Measure};
use crate::routes::agent::{
    after_register, after_report, heartbeat_effect, register_refusal, register_reply, rental_of,
    report_refusal,
};
use crate::routes::caller;
use crate::routes::ranking::{
    lemma_filter_keeps_rank, lemma_ranked_rows, ranked_rows, ranks_before,
};
use crate::routes::tenant::{
    after_create_rental, answer_rows, delete_effect, holds_name, offer_keys, offer_limit,
    offer_order, on_offer, rental_key, rental_refusal, rental_reply, rows_on_offer, OfferOrder,
    OffersQuery,
};
use crate::text::{fold, has_infix, opt_text, raise, stands_at};

verus! {

/// No machine is held by two rentals.
pub open spec fn one_tenant_each(m: Market) -> bool {
    forall|i: int, j: int|
        #![trigger m.rentals[i], m.rentals[j]]
        0 <= i < j < m.rentals.len() && m.rentals[i].status.occupies()
            && m.rentals[j].status.occupies() ==> m.rentals[i].machine_id != m.rentals[j].machine_id
}

proof fn lemma_poll_keeps_rentals(m: Market, paid: Seq<Seq<char>>, k: int, now: i64)
    requires
        0 <= k,
    ensures
        polled(m, paid, k, now).0.rentals == m.rentals,
    decreases m.invoices.len() - k,
{
    if k < m.invoices.len() {
        if newly_paid(m, paid, k) {
            if settle_refusal(m, k) is None {
                lemma_poll_keeps_rentals(settle_effect(m, k, now), paid, k + 1, now);
            }
        } else {
            lemma_poll_keeps_rentals(m, paid, k + 1, now);
        }
    }
}

/// The terms of a rental: everything but its state, its charge and what the agent
/// reports.
pub open spec fn same_terms(a: RentalRowView, b: RentalRowView) -> bool {
    &&& a.id == b.id
    &&& a.machine_id == b.machine_id
    &&& a.account_id == b.account_id
    &&& a.image == b.image
    &&& a.ssh_pubkey == b.ssh_pubkey
    &&& a.rate_sats_per_min == b.rate_sats_per_min
    &&& a.paid_through == b.paid_through
    &&& a.created_at == b.created_at
}

/// A rental keeps its terms for good, whatever its host does to its price: no
/// event changes the rate, the machine, the account, the image, the key or the
/// times of a rental, and none removes one.
pub proof fn a_rental_keeps_its_terms(m: Market, e: Event)
    ensures
        after(m, e).rentals.len() >= m.rentals.len(),
        forall|i: int|
            0 <= i < m.rentals.len() ==> same_terms(#[trigger] after(m, e).rentals[i], m.rentals[i]),
{
    if !refused(m, e) {
        match e {
            Event::PollInvoices { paid, now } => {
                lemma_poll_keeps_rentals(m, paid, 0, now);
            },
            Event::EnforceBudgets { now, timeout } => {
                lemma_position(m.rentals, |r: RentalRowView| dangling(m, r, now as int, timeout));
                let k = match first_dangling(m, now as int, timeout) {
                    None => m.rentals.len() as int,
                    Some(k) => k,
                };
                lemma_evicted_frame(m, k, now, timeout);
                assert forall|i: int| 0 <= i < m.rentals.len() implies same_terms(
                    #[trigger] evicted(m, k, now, timeout).rentals[i],
                    m.rentals[i],
                ) by {
                    if i < k {
                    }
                }
            },
            Event::Report { authorization, report: req, now } => {
                lemma_report_rows(m, authorization, req, now);
            },
            Event::DeleteRental { rental: id, now } => {
                lemma_position(m.rentals, |x: RentalRowView| x.id == id);
            },
            _ => {},
        }
    }
}

/// A machine has one tenant at a time.
pub proof fn a_machine_has_one_tenant(m: Market, e: Event)
    requires
        one_tenant_each(m),
    ensures
        one_tenant_each(after(m, e)),
{
    let n = after(m, e);
    a_rental_keeps_its_terms(m, e);
    if !refused(m, e) {
        match e {
            Event::CreateRental { request: req, period, now } => {
                let last = m.rentals.len() as int;
                assert forall|i: int, j: int|
                    #![trigger n.rentals[i], n.rentals[j]]
                    0 <= i < j < n.rentals.len() && n.rentals[i].status.occupies()
                        && n.rentals[j].status.occupies() implies n.rentals[i].machine_id
                    != n.rentals[j].machine_id by {
                    assert(n.rentals[i] == m.rentals[i]);
                    if j == last {
                        assert(!occupied(m, req.machine_id));
                        assert(!holds_machine(m.rentals[i], req.machine_id));
                    } else {
                        assert(n.rentals[j] == m.rentals[j]);
                    }
                }
            },
            Event::PollInvoices { paid, now } => {
                lemma_poll_keeps_rentals(m, paid, 0, now);
            },
            Event::EnforceBudgets { now, timeout } => {
                lemma_position(m.rentals, |r: RentalRowView| dangling(m, r, now as int, timeout));
                let k = match first_dangling(m, now as int, timeout) {
                    None => m.rentals.len() as int,
                    Some(k) => k,
                };
                lemma_evicted_frame(m, k, now, timeout);
                assert forall|i: int| 0 <= i < m.rentals.len() implies (
                #[trigger] n.rentals[i]).status.occupies() == m.rentals[i].status.occupies() by {
                    if i < k {
                    }
                }
                assert forall|i: int, j: int|
                    #![trigger n.rentals[i], n.rentals[j]]
                    0 <= i < j < n.rentals.len() && n.rentals[i].status.occupies()
                        && n.rentals[j].status.occupies() implies n.rentals[i].machine_id
                    != n.rentals[j].machine_id by {
                    assert(m.rentals[i].machine_id != m.rentals[j].machine_id);
                }
            },
            Event::Report { authorization, report: req, now } => {
                lemma_report_rows(m, authorization, req, now);
                let at = rental_of(m, req.rental_id, m.machines[caller(m, authorization)->Ok_0].id)->0;
                assert forall|i: int|
                    0 <= i < m.rentals.len() && (
                    #[trigger] n.rentals[i]).status.occupies() implies m.rentals[i].status.occupies() by {
                    if i == at {
                    }
                }
                assert forall|i: int, j: int|
                    #![trigger n.rentals[i], n.rentals[j]]
                    0 <= i < j < n.rentals.len() && n.rentals[i].status.occupies()
                        && n.rentals[j].status.occupies() implies n.rentals[i].machine_id
                    != n.rentals[j].machine_id by {
                    assert(m.rentals[i].machine_id != m.rentals[j].machine_id);
                }
            },
            Event::DeleteRental { rental: id, now } => {
                lemma_position(m.rentals, |x: RentalRowView| x.id == id);
                assert forall|i: int, j: int|
                    #![trigger n.rentals[i], n.rentals[j]]
                    0 <= i < j < n.rentals.len() && n.rentals[i].status.occupies()
                        && n.rentals[j].status.occupies() implies n.rentals[i].machine_id
                    != n.rentals[j].machine_id by {
                    assert(m.rentals[i].machine_id != m.rentals[j].machine_id);
                }
            },
            _ => {
                assert(n.rentals == m.rentals);
            },
        }
    }
}

/// A rental is made whole or not at all: a request that is refused leaves the market
/// as it was, and one that is granted adds just one rental, which waits to be
/// started, and one command that tells its machine to.
pub proof fn renting_is_all_or_nothing(
    m: Market,
    req: CreateRentalRequestView,
    period: i64,
    now: i64,
)
    ensures
        ({
            let e = Event::CreateRental { request: req, period, now };
            let n = after(m, e);
            let r = n.rentals.last();
            let c = n.commands.last();
            if refused(m, e) {
                n == m
            } else {
                &&& n.rentals == m.rentals.push(r)
                &&& n.commands == m.commands.push(c)
                &&& n == (Market { rentals: n.rentals, commands: n.commands, ..m })
                &&& r.machine_id == req.machine_id && r.account_id == req.account_id
                &&& r.status is Provisioning
                &&& r.created_at == now
                &&& r.rate_sats_per_min == m.machines[machine_pos(
                    m,
                    req.machine_id,
                )->0].rate_sats_per_min
                &&& c.machine_id == req.machine_id && !c.delivered
                &&& c.payload matches CommandView::StartRental { rental_id, image, ssh_pubkey }
                &&& rental_id == r.id && image == req.image && ssh_pubkey == r.ssh_pubkey
            }
        }),
{
    let n = after_create_rental(m, req, period, now);
    assert(n.rentals =~= m.rentals.push(n.rentals.last()));
    assert(n.commands =~= m.commands.push(n.commands.last()));
}

/// Marking tells silent hosts from the others: a host is online afterwards if it was
/// and has been heard from within the timeout, and nothing else changes.
pub proof fn marking_is_exact(m: Market, now: int, timeout: int, i: int)
    requires
        0 <= i < m.machines.len(),
    ensures
        ({
            let n = after(m, Event::MarkOffline { threshold: now - timeout });
            &&& n.machines.len() == m.machines.len()
            &&& n.machines[i].online <==> m.machines[i].online && now
                - m.machines[i].last_heartbeat <= timeout
            &&& n.machines[i] == (MachineRowView { online: n.machines[i].online, ..m.machines[i] })
            &&& n == (Market { machines: n.machines, ..m })
        }),
{
}

/// Marking twice at the same time is the same as marking once.
pub proof fn marking_is_idempotent(m: Market, now: int, timeout: int)
    ensures
        ({
            let e = Event::MarkOffline { threshold: now - timeout };
            after(after(m, e), e) == after(m, e)
        }),
{
    let e = Event::MarkOffline { threshold: now - timeout };
    assert(after(after(m, e), e).machines =~= after(m, e).machines);
}

/// A rented machine cannot be rented again: right after a rental, every further
/// request for the machine by a known account with a usable key is a conflict.
pub proof fn a_rented_machine_is_taken(
    m: Market,
    first: CreateRentalRequestView,
    second: CreateRentalRequestView,
    period: i64,
    now: i64,
)
    requires
        rental_refusal(m, first) is None,
        second.machine_id == first.machine_id,
        account_pos(m, second.account_id) is Some,
        rental_key(second) is Some,
    ensures
        rental_refusal(after_create_rental(m, first, period, now), second) == Some(
            refusal(409, "machine already rented"@),
        ),
{
    let n = after_create_rental(m, first, period, now);
    let last = m.rentals.len() as int;
    assert(holds_machine(n.rentals[last], second.machine_id));
    assert(occupied(n, second.machine_id));
}

/// The end of a rental frees its machine.
pub proof fn an_ended_rental_frees_its_machine(
    m: Market,
    authorization: Option<Seq<char>>,
    req: ReportRequestView,
    now: i64,
)
    requires
        one_tenant_each(m),
        report_refusal(m, authorization, req, now) is None,
        req.status.ended(),
        m.rentals[rental_of(
            m,
            req.rental_id,
            m.machines[caller(m, authorization)->Ok_0].id,
        )->0].status.occupies(),
    ensures
        !occupied(
            after_report(m, authorization, req, now),
            m.machines[caller(m, authorization)->Ok_0].id,
        ),
{
    lemma_report_rows(m, authorization, req, now);
    let n = after_report(m, authorization, req, now);
    let id = m.machines[caller(m, authorization)->Ok_0].id;
    let j = rental_of(m, req.rental_id, id)->0;
    assert forall|k: int| 0 <= k < n.rentals.len() implies !holds_machine(
        #[trigger] n.rentals[k],
        id,
    ) by {
        if k != j {
            assert(n.rentals[k] == m.rentals[k]);
            assert(m.rentals[j].machine_id == id);
            if k < j {
                assert(m.rentals[k].status.occupies() ==> m.rentals[k].machine_id
                    != m.rentals[j].machine_id);
            } else {
                assert(m.rentals[k].status.occupies() ==> m.rentals[j].machine_id
                    != m.rentals[k].machine_id);
            }
        }
    }
}

/// Asking twice to stop a rental is the same as asking once.
pub proof fn stopping_is_idempotent(m: Market, j: int, now: i64, later: i64)
    requires
        0 <= j < m.rentals.len(),
    ensures
        delete_effect(delete_effect(m, j, now), j, later) == delete_effect(m, j, now),
{
}

/// A rental on a host that has fallen silent is not evicted: the tenant does not
/// pay for what the host does not deliver.
pub proof fn a_silent_host_evicts_nobody(m: Market, k: int, j: int, now: i64, timeout: int)
    requires
        0 <= j < k <= m.rentals.len(),
        !heard_from(m, m.rentals[j], now as int, timeout),
    ensures
        evicted(m, k, now, timeout).rentals[j] == m.rentals[j],
{
    lemma_evicted_frame(m, k, now, timeout);
}

/// A tenant's SSH key never leaves the marketplace: what is shown of a rental does
/// not depend on it.
pub proof fn the_key_is_never_shown(r: RentalRowView, h: MachineRowView, key: Seq<char>)
    ensures
        rental_reply(RentalRowView { ssh_pubkey: key, ..r }, h) == rental_reply(r, h),
{
}

/// What a query is answered with, before the limit.
spec fn all_on_offer(m: Market, values: Seq<Measure>, q: OffersQuery) -> Seq<int> {
    rows_on_offer(m, ranked_rows(offer_keys(m, values, q)), q)
}

proof fn lemma_all_on_offer(m: Market, values: Seq<Measure>, q: OffersQuery)
    ensures
        forall|k: int|
            0 <= k < all_on_offer(m, values, q).len() ==> 0 <= #[trigger] all_on_offer(
                m,
                values,
                q,
            )[k] < m.machines.len() && on_offer(m, m.machines[all_on_offer(m, values, q)[k]], q),
        forall|i: int|
            0 <= i < m.machines.len() && on_offer(m, #[trigger] m.machines[i], q)
                ==> all_on_offer(m, values, q).contains(i),
        forall|j: int, k: int|
            0 <= j < k < all_on_offer(m, values, q).len() ==> ranks_before(
                offer_keys(m, values, q),
                #[trigger] all_on_offer(m, values, q)[j],
                #[trigger] all_on_offer(m, values, q)[k],
            ),
{
    let keys = offer_keys(m, values, q);
    let rows = ranked_rows(keys);
    let p = |i: int| on_offer(m, m.machines[i], q);
    let out = all_on_offer(m, values, q);
    lemma_ranked_rows(keys);
    lemma_filter_keeps_rank(keys, rows, p);
    assert forall|k: int| 0 <= k < out.len() implies 0 <= #[trigger] out[k] < m.machines.len()
        && on_offer(m, m.machines[out[k]], q) by {
        rows.lemma_filter_pred(p, k);
        assert(rows.contains(out[k]));
        let i = rows.index_of(out[k]);
        assert(rows[i] == out[k]);
    }
    assert forall|i: int|
        0 <= i < m.machines.len() && on_offer(m, #[trigger] m.machines[i], q) implies out.contains(
        i,
    ) by {
        assert(rows.contains(i));
        let k = rows.index_of(i);
        assert(p(rows[k]));
        rows.lemma_filter_contains(p, k);
    }
}

/// Only machines that are online, idle and within the query's bounds are offered.
pub proof fn only_idle_machines_are_offered(
    m: Market,
    values: Seq<Measure>,
    q: OffersQuery,
    k: int,
)
    requires
        0 <= k < answer_rows(m, values, q).len(),
    ensures
        ({
            let i = answer_rows(m, values, q)[k];
            &&& 0 <= i < m.machines.len()
            &&& m.machines[i].online
            &&& !occupied(m, m.machines[i].id)
            &&& on_offer(m, m.machines[i], q)
        }),
{
    lemma_all_on_offer(m, values, q);
    assert(answer_rows(m, values, q)[k] == all_on_offer(m, values, q)[k]);
}

/// Offers come in the order that the query asks for, and no machine comes twice:
/// under `rate` the cheaper machine is never behind the dearer one, under `dlperf`
/// the faster never behind the slower, and under `value` the one that costs less for
/// its performance never behind the one that costs more.
pub proof fn offers_come_in_order(
    m: Market,
    values: Seq<Measure>,
    q: OffersQuery,
    j: int,
    k: int,
)
    requires
        0 <= j < k < answer_rows(m, values, q).len(),
    ensures
        ({
            let a = answer_rows(m, values, q)[j];
            let b = answer_rows(m, values, q)[k];
            &&& a != b
            &&& match offer_order(opt_text(q.sort)) {
                OfferOrder::Rate => m.machines[a].rate_sats_per_min
                    <= m.machines[b].rate_sats_per_min,
                OfferOrder::Dlperf => measure_key(m.machines[a].dlperf) >= measure_key(
                    m.machines[b].dlperf,
                ),
                OfferOrder::Value => measure_key(values[a]) <= measure_key(values[b]),
            }
        }),
{
    lemma_all_on_offer(m, values, q);
    let all = all_on_offer(m, values, q);
    assert(answer_rows(m, values, q)[j] == all[j] && answer_rows(m, values, q)[k] == all[k]);
    assert(ranks_before(offer_keys(m, values, q), all[j], all[k]));
}

/// Nothing better is left out: a machine on offer that is not in the answer has no
/// place there, because the answer is full of machines that rank before it.
pub proof fn nothing_better_is_left_out(m: Market, values: Seq<Measure>, q: OffersQuery, i: int)
    requires
        0 <= i < m.machines.len(),
        on_offer(m, m.machines[i], q),
        !answer_rows(m, values, q).contains(i),
    ensures
        answer_rows(m, values, q).len() == offer_limit(q.limit),
        forall|k: int|
            0 <= k < answer_rows(m, values, q).len() ==> ranks_before(
                offer_keys(m, values, q),
                #[trigger] answer_rows(m, values, q)[k],
                i,
            ),
{
    lemma_all_on_offer(m, values, q);
    let all = all_on_offer(m, values, q);
    let answer = answer_rows(m, values, q);
    assert(all.contains(i));
    let at = all.index_of(i);
    if at < answer.len() {
        assert(answer[at] == i);
        assert(false);
    }
    assert forall|k: int| 0 <= k < answer.len() implies ranks_before(
        offer_keys(m, values, q),
        #[trigger] answer[k],
        i,
    ) by {
        assert(answer[k] == all[k]);
        assert(ranks_before(offer_keys(m, values, q), all[k], all[at]));
    }
}

/// A GPU is found by any part of its name, in whatever case the part is written.
pub proof fn a_part_of_a_name_finds_it(text: Seq<char>, part: Seq<char>)
    requires
        has_infix(text, part),
    ensures
        holds_name(text, part),
        holds_name(text, fold(part)),
        holds_name(text, raise(part)),
{
    let i = choose|i: int| #[trigger] stands_at(text, part, i);
    assert forall|k: int| 0 <= k < part.len() implies text[i + k] == #[trigger] part[k] by {
        assert(text.subrange(i, i + part.len())[k] == text[i + k]);
    }
    assert(fold(text).subrange(i, i + part.len()) =~= fold(part));
    assert(stands_at(fold(text), fold(part), i));
    assert(fold(fold(part)) =~= fold(part));
    assert(fold(raise(part)) =~= fold(part));
}

/// Registering again is harmless: the host keeps its id and its token, and but for
/// the time of the heartbeat the books are as after the first registration.
pub proof fn registration_is_idempotent(
    m: Market,
    req: RegisterRequestView,
    token: Seq<char>,
    now: i64,
    other_token: Seq<char>,
    later: i64,
)
    requires
        register_refusal(m, req, token) is None,
    ensures
        ({
            let once = after_register(m, req, token, now);
            let twice = after_register(once, req, other_token, later);
            &&& register_refusal(once, req, other_token) is None
            &&& register_reply(once, req, other_token) == register_reply(m, req, token)
            &&& machine_of_host(once, req.host_id) matches Some(i) && twice == (Market {
                machines: once.machines.update(
                    i,
                    MachineRowView { last_heartbeat: later, ..once.machines[i] },
                ),
                ..once
            })
        }),
{
    let p = |x: MachineRowView| x.host_id == req.host_id;
    let once = after_register(m, req, token, now);
    lemma_position(m.machines, p);
    let i = match machine_of_host(m, req.host_id) {
        Some(i) => i,
        None => m.machines.len() as int,
    };
    assert forall|j: int| 0 <= j < i implies !p(#[trigger] once.machines[j]) by {
        assert(once.machines[j] == m.machines[j]);
    }
    lemma_position_is(once.machines, p, i);
    let twice = after_register(once, req, other_token, later);
    assert(twice =~= (Market {
        machines: once.machines.update(
            i,
            MachineRowView { last_heartbeat: later, ..once.machines[i] },
        ),
        ..once
    }));
}

/// Only the agent ends a rental: every other event leaves a rental's status as it
/// is or starts its eviction.
pub proof fn only_the_agent_ends_a_rental(m: Market, e: Event, i: int)
    requires
        0 <= i < m.rentals.len(),
        !(e is Report),
    ensures
        ({
            let before = m.rentals[i].status;
            let now = after(m, e).rentals[i].status;
            now == before || (now is Evicting && (before is Provisioning || before is Running))
        }),
{
    if !refused(m, e) {
        match e {
            Event::PollInvoices { paid, now } => {
                lemma_poll_keeps_rentals(m, paid, 0, now);
            },
            Event::EnforceBudgets { now, timeout } => {
                lemma_position(m.rentals, |r: RentalRowView| dangling(m, r, now as int, timeout));
                let k = match first_dangling(m, now as int, timeout) {
                    None => m.rentals.len() as int,
                    Some(k) => k,
                };
                lemma_evicted_frame(m, k, now, timeout);
                if i < k {
                    assert(evicted(m, k, now, timeout).rentals[i] == after(m, e).rentals[i]);
                } else {
                    assert(evicted(m, k, now, timeout).rentals[i] == m.rentals[i]);
                }
            },
            Event::DeleteRental { rental: id, now } => {
                lemma_position(m.rentals, |x: RentalRowView| x.id == id);
            },
            _ => {},
        }
    }
}

/// A rental that has ended stays ended, whatever happens.
pub proof fn an_ended_rental_stays_ended(m: Market, e: Event, i: int)
    requires
        0 <= i < m.rentals.len(),
        m.rentals[i].status.ended(),
    ensures
        after(m, e).rentals[i].status.ended(),
{
    if e is Report {
        if !refused(m, e) {
            lemma_report_rows(m, e->Report_authorization, e->report, e->Report_now);
        }
    } else {
        only_the_agent_ends_a_rental(m, e, i);
    }
}

/// A rental within its budget is not evicted.
pub proof fn a_funded_rental_is_not_evicted(m: Market, k: int, j: int, now: i64, timeout: int)
    requires
        0 <= j < k <= m.rentals.len(),
        !over_budget(m, m.rentals[j], now as int, timeout),
    ensures
        evicted(m, k, now, timeout).rentals[j] == m.rentals[j],
{
    lemma_evicted_frame(m, k, now, timeout);
}

/// A host that registers for the first time is on offer at once, to every query
/// whose bounds it meets.
pub proof fn a_new_machine_is_on_offer(
    m: Market,
    req: RegisterRequestView,
    token: Seq<char>,
    now: i64,
    q: OffersQuery,
)
    requires
        valid(m),
        register_refusal(m, req, token) is None,
        machine_of_host(m, req.host_id) is None,
        q.gpu_name matches Some(name) ==> holds_name(req.gpu_name, name@),
        q.min_vram_mb matches Some(v) ==> req.vram_mb >= v,
        q.min_gpu_count matches Some(c) ==> req.gpu_count >= c,
        q.max_rate_sats_per_min matches Some(r) ==> req.rate_sats_per_min <= r,
    ensures
        ({
            let n = after_register(m, req, token, now);
            &&& machine_pos(n, register_reply(m, req, token).machine_id) == Some(
                m.machines.len() as int,
            )
            &&& on_offer(n, n.machines[m.machines.len() as int], q)
        }),
{
    let n = after_register(m, req, token, now);
    let id = register_reply(m, req, token).machine_id;
    let last = m.machines.len() as int;
    let p = |x: MachineRowView| x.id == id;
    assert forall|j: int| 0 <= j < last implies !p(#[trigger] n.machines[j]) by {
        assert(n.machines[j] == m.machines[j]);
        if j < last - 1 {
            assert(m.machines[j].id < m.machines[last - 1].id);
        }
    }
    lemma_position_is(n.machines, p, last);
    assert forall|k: int| 0 <= k < n.rentals.len() implies !holds_machine(
        #[trigger] n.rentals[k],
        id,
    ) by {
        let r = m.rentals[k];
        assert(machine_known(m.machines, r.machine_id));
        let j = choose|j: int| 0 <= j < m.machines.len() && (#[trigger] m.machines[j]).id
            == r.machine_id;
        assert(!p(n.machines[j]));
    }
}

/// A host that beats is not taken for silent: from the moment of the heartbeat, no
/// threshold up to that moment marks it offline.
pub proof fn a_heartbeat_keeps_a_host_online(m: Market, i: int, now: i64, threshold: int)
    requires
        0 <= i < m.machines.len(),
        threshold <= now,
    ensures
        after_mark_offline(heartbeat_effect(m, i, true, now), threshold).machines[i].online,
{
}

/// In every market that comes about, no machine has two tenants.
pub proof fn every_history_has_one_tenant_each(events: Seq<Event>)
    ensures
        one_tenant_each(history(events)),
    decreases events.len(),
{
    if events.len() > 0 {
        every_history_has_one_tenant_each(events.drop_last());
        a_machine_has_one_tenant(history(events.drop_last()), events.last());
    }
}

} // verus!
