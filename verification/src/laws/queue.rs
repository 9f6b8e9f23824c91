//! Laws of the command queue and of the audit trail.

use vstd::prelude::*;

use super::{after, refused, Event};
use crate::api::CommandView;
use crate::billing::{
    dangling, evicted, first_dangling, newly_paid, polled, settle_effect, settle_refusal,
};
use crate::db::{lemma_position, CommandRowView, Market, RentalRowView};
use crate::routes::agent::{drained, waiting, waits_for};

verus! {

/// A heartbeat empties the queue: the next one of the same machine is answered
/// with nothing, unless something was queued in between.
pub proof fn a_command_is_delivered_once(cs: Seq<CommandRowView>, machine_id: i64)
    ensures
        waiting(drained(cs, machine_id), machine_id) == Seq::<CommandView>::empty(),
    decreases cs.len(),
{
    reveal(Seq::filter);
    let after = drained(cs, machine_id);
    let p = |c: CommandRowView| waits_for(c, machine_id);
    if cs.len() > 0 {
        a_command_is_delivered_once(cs.drop_last(), machine_id);
        assert(after.drop_last() =~= drained(cs.drop_last(), machine_id));
        assert(!p(after.last()));
        let rest = after.drop_last().filter(p);
        assert(waiting(after.drop_last(), machine_id).len() == rest.len());
        assert(after.filter(p) == rest);
    }
    assert(waiting(after, machine_id) =~= Seq::<CommandView>::empty());
}

/// A heartbeat leaves what waits for other machines alone.
pub proof fn other_queues_are_left_alone(cs: Seq<CommandRowView>, machine_id: i64, other: i64)
    requires
        machine_id != other,
    ensures
        waiting(drained(cs, machine_id), other) == waiting(cs, other),
    decreases cs.len(),
{
    reveal(Seq::filter);
    let after = drained(cs, machine_id);
    let p = |c: CommandRowView| waits_for(c, other);
    let f = |c: CommandRowView| c.payload;
    if cs.len() > 0 {
        other_queues_are_left_alone(cs.drop_last(), machine_id, other);
        assert(after.drop_last() =~= drained(cs.drop_last(), machine_id));
        let a = after.drop_last().filter(p);
        let b = cs.drop_last().filter(p);
        assert(a.map_values(f) == b.map_values(f));
        if p(cs.last()) {
            assert(a.push(after.last()).map_values(f) =~= a.map_values(f).push(f(after.last())));
            assert(b.push(cs.last()).map_values(f) =~= b.map_values(f).push(f(cs.last())));
        }
    } else {
        assert(after =~= cs);
    }
}

/// A queued command is what the machine's next heartbeat is answered with last.
pub proof fn a_queued_command_is_delivered_next(
    cs: Seq<CommandRowView>,
    machine_id: i64,
    payload: CommandView,
    now: i64,
)
    ensures
        waiting(
            cs.push(CommandRowView { machine_id, payload, delivered: false, created_at: now }),
            machine_id,
        ) == waiting(cs, machine_id).push(payload),
{
    reveal(Seq::filter);
    let row = CommandRowView { machine_id, payload, delivered: false, created_at: now };
    let p = |c: CommandRowView| waits_for(c, machine_id);
    assert(cs.push(row).drop_last() =~= cs);
    assert(cs.push(row).filter(p) == cs.filter(p).push(row));
    assert(waiting(cs.push(row), machine_id) =~= waiting(cs, machine_id).push(payload));
}

/// True when `later` holds all of `earlier` at the front.
pub open spec fn extends<T>(later: Seq<T>, earlier: Seq<T>) -> bool {
    later.len() >= earlier.len() && forall|i: int|
        0 <= i < earlier.len() ==> #[trigger] later[i] == earlier[i]
}

/// True when `later` holds the commands of `earlier` at the front, with none of
/// the delivered ones taken back.
pub open spec fn queue_extends(later: Seq<CommandRowView>, earlier: Seq<CommandRowView>) -> bool {
    later.len() >= earlier.len() && forall|i: int|
        0 <= i < earlier.len() ==> {
            let c = #[trigger] later[i];
            &&& c.machine_id == earlier[i].machine_id
            &&& c.payload == earlier[i].payload
            &&& c.created_at == earlier[i].created_at
            &&& earlier[i].delivered ==> c.delivered
        }
}

proof fn lemma_poll_extends(m: Market, paid: Seq<Seq<char>>, k: int, now: i64)
    requires
        0 <= k,
    ensures
        extends(polled(m, paid, k, now).0.ledger, m.ledger),
        polled(m, paid, k, now).0.commands == m.commands,
        polled(m, paid, k, now).0.rentals == m.rentals,
    decreases m.invoices.len() - k,
{
    if k < m.invoices.len() {
        if newly_paid(m, paid, k) {
            if settle_refusal(m, k) is None {
                let next = settle_effect(m, k, now);
                lemma_poll_extends(next, paid, k + 1, now);
                let n = polled(next, paid, k + 1, now).0;
                assert forall|i: int| 0 <= i < m.ledger.len() implies #[trigger] n.ledger[i]
                    == m.ledger[i] by {
                    assert(next.ledger[i] == m.ledger[i]);
                }
            }
        } else {
            lemma_poll_extends(m, paid, k + 1, now);
        }
    }
}

proof fn lemma_evicted_extends(m: Market, k: int, now: i64, timeout: int)
    requires
        0 <= k <= m.rentals.len(),
    ensures
        extends(evicted(m, k, now, timeout).ledger, m.ledger),
        extends(evicted(m, k, now, timeout).commands, m.commands),
    decreases k,
{
    if k > 0 {
        lemma_evicted_extends(m, k - 1, now, timeout);
    }
}

/// The ledger is append-only: no event changes or removes an entry.
pub proof fn ledger_is_append_only(m: Market, e: Event)
    ensures
        extends(after(m, e).ledger, m.ledger),
{
    if !refused(m, e) {
        match e {
            Event::PollInvoices { paid, now } => {
                lemma_poll_extends(m, paid, 0, now);
            },
            Event::EnforceBudgets { now, timeout } => {
                lemma_position(m.rentals, |r: RentalRowView| dangling(m, r, now as int, timeout));
                let k = match first_dangling(m, now as int, timeout) {
                    None => m.rentals.len() as int,
                    Some(k) => k,
                };
                lemma_evicted_extends(m, k, now, timeout);
            },
            _ => {},
        }
    }
}

/// No event changes a queued command, drops it, or takes its delivery back.
pub proof fn delivery_is_never_taken_back(m: Market, e: Event)
    ensures
        queue_extends(after(m, e).commands, m.commands),
{
    if !refused(m, e) {
        match e {
            Event::PollInvoices { paid, now } => {
                lemma_poll_extends(m, paid, 0, now);
            },
            Event::EnforceBudgets { now, timeout } => {
                lemma_position(m.rentals, |r: RentalRowView| dangling(m, r, now as int, timeout));
                let k = match first_dangling(m, now as int, timeout) {
                    None => m.rentals.len() as int,
                    Some(k) => k,
                };
                lemma_evicted_extends(m, k, now, timeout);
            },
            _ => {},
        }
    }
}

} // verus!
