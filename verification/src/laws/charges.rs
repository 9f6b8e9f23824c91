//! The law of the single charge: a rental is paid for once, when it ends.

use vstd::prelude::*;

use super::books::{
    accrual_is_exact, every_history_is_valid, lemma_report_rows, market_stays_valid,
};
use super::queue::extends;
use super::tenancy::{a_rental_keeps_its_terms, an_ended_rental_stays_ended, same_terms};
use super::{after, history, refused, valid, Event};
use crate::api::ReportRequestView;
use crate::billing::{
    dangling, evicted, first_dangling, lemma_evicted_frame, newly_paid, polled, settle_effect,
    settle_refusal,
};
use crate::db::{account_pos, lemma_position, LedgerRowView, Market, RentalRowView};
use crate::model::LedgerKind;
use crate::routes::agent::{after_report, final_charge, report_refusal, rental_of, settles};
use crate::routes::caller;

verus! {

/// The two kinds of ledger entries by which a charge is booked.
pub open spec fn books_charges(kind: LedgerKind) -> bool {
    kind is RentalCharge || kind is HostCredit
}

/// True for an entry of a kind that is about a rental.
pub open spec fn entry_of(l: LedgerRowView, kind: LedgerKind, rental_id: i64) -> bool {
    l.kind == kind && l.rental_id == Some(rental_id)
}

/// What a charge of some sats changes in an entry of a kind: the account's half is
/// negative.
pub open spec fn booked_as(kind: LedgerKind, sats: i64) -> int {
    if kind is RentalCharge {
        -sats
    } else {
        sats as int
    }
}

/// True when every rental has been charged for at most once, by the books of one
/// kind: no two entries of the kind are about the same rental; an entry books what
/// its rental shows as charged; a rental that shows a charge has its entry; and a
/// rental that has not ended shows none.
pub open spec fn charged_once(m: Market, kind: LedgerKind) -> bool {
    &&& forall|k: int, l: int|
        #![trigger m.ledger[k], m.ledger[l]]
        0 <= k < l < m.ledger.len() && m.ledger[k].kind == kind && m.ledger[l].kind == kind
            ==> m.ledger[k].rental_id != m.ledger[l].rental_id
    &&& forall|k: int|
        0 <= k < m.ledger.len() && (#[trigger] m.ledger[k]).kind == kind ==> rental_known(
            m,
            m.ledger[k].rental_id,
        )
    &&& forall|k: int, i: int|
        #![trigger m.ledger[k], m.rentals[i]]
        0 <= k < m.ledger.len() && 0 <= i < m.rentals.len() && entry_of(
            m.ledger[k],
            kind,
            m.rentals[i].id,
        ) ==> m.rentals[i].sats_charged > 0 && m.ledger[k].delta_sats == booked_as(
            kind,
            m.rentals[i].sats_charged,
        )
    &&& forall|i: int|
        0 <= i < m.rentals.len() && (#[trigger] m.rentals[i]).sats_charged > 0 ==> has_entry(
            m,
            kind,
            m.rentals[i].id,
        )
    &&& forall|i: int|
        0 <= i < m.rentals.len() ==> (#[trigger] m.rentals[i]).sats_charged >= 0 && (
        !m.rentals[i].status.ended() ==> m.rentals[i].sats_charged == 0)
}

/// True when some rental has this id.
pub open spec fn rental_known(m: Market, id: Option<i64>) -> bool {
    exists|i: int| 0 <= i < m.rentals.len() && id == Some((#[trigger] m.rentals[i]).id)
}

/// True when the ledger holds an entry of a kind about a rental.
pub open spec fn has_entry(m: Market, kind: LedgerKind, rental_id: i64) -> bool {
    exists|k: int| 0 <= k < m.ledger.len() && entry_of(#[trigger] m.ledger[k], kind, rental_id)
}

/// True when a ledger has grown by entries of other kinds only.
spec fn grows_without(
    later: Seq<LedgerRowView>,
    earlier: Seq<LedgerRowView>,
    kind: LedgerKind,
) -> bool {
    &&& extends(later, earlier)
    &&& forall|k: int| earlier.len() <= k < later.len() ==> (#[trigger] later[k]).kind != kind
}

proof fn lemma_poll_is_quiet(m: Market, paid: Seq<Seq<char>>, k: int, now: i64, kind: LedgerKind)
    requires
        0 <= k,
        books_charges(kind),
    ensures
        grows_without(polled(m, paid, k, now).0.ledger, m.ledger, kind),
        polled(m, paid, k, now).0.rentals == m.rentals,
    decreases m.invoices.len() - k,
{
    if k < m.invoices.len() {
        if newly_paid(m, paid, k) {
            if settle_refusal(m, k) is None {
                let next = settle_effect(m, k, now);
                lemma_poll_is_quiet(next, paid, k + 1, now, kind);
                let n = polled(next, paid, k + 1, now).0;
                assert forall|i: int| 0 <= i < m.ledger.len() implies #[trigger] n.ledger[i]
                    == m.ledger[i] by {
                    assert(next.ledger[i] == m.ledger[i]);
                }
                assert forall|i: int| m.ledger.len() <= i < n.ledger.len() implies (
                #[trigger] n.ledger[i]).kind != kind by {
                    if i == m.ledger.len() {
                        assert(n.ledger[i] == next.ledger[i]);
                    }
                }
            }
        } else {
            lemma_poll_is_quiet(m, paid, k + 1, now, kind);
        }
    }
}

proof fn lemma_eviction_is_quiet(m: Market, k: int, now: i64, timeout: int, kind: LedgerKind)
    requires
        0 <= k <= m.rentals.len(),
        books_charges(kind),
    ensures
        grows_without(evicted(m, k, now, timeout).ledger, m.ledger, kind),
    decreases k,
{
    if k > 0 {
        lemma_eviction_is_quiet(m, k - 1, now, timeout, kind);
    }
}

/// A step that books no charge and leaves what rentals show as charged keeps the
/// law.
proof fn lemma_quiet_step(m: Market, n: Market, kind: LedgerKind)
    requires
        charged_once(m, kind),
        grows_without(n.ledger, m.ledger, kind),
        n.rentals.len() == m.rentals.len(),
        forall|i: int|
            0 <= i < m.rentals.len() ==> (#[trigger] n.rentals[i]).id == m.rentals[i].id
                && n.rentals[i].sats_charged == m.rentals[i].sats_charged && (
            m.rentals[i].status.ended() ==> n.rentals[i].status.ended()),
    ensures
        charged_once(n, kind),
{
    assert forall|k: int, l: int|
        #![trigger n.ledger[k], n.ledger[l]]
        0 <= k < l < n.ledger.len() && n.ledger[k].kind == kind && n.ledger[l].kind
            == kind implies n.ledger[k].rental_id != n.ledger[l].rental_id by {
        assert(l < m.ledger.len());
        assert(n.ledger[k] == m.ledger[k] && n.ledger[l] == m.ledger[l]);
    }
    assert forall|k: int|
        0 <= k < n.ledger.len() && (#[trigger] n.ledger[k]).kind == kind implies rental_known(
        n,
        n.ledger[k].rental_id,
    ) by {
        assert(n.ledger[k] == m.ledger[k]);
        let i = choose|i: int|
            0 <= i < m.rentals.len() && m.ledger[k].rental_id == Some((#[trigger] m.rentals[i]).id);
        assert(n.rentals[i].id == m.rentals[i].id);
    }
    assert forall|k: int, i: int|
        #![trigger n.ledger[k], n.rentals[i]]
        0 <= k < n.ledger.len() && 0 <= i < n.rentals.len() && entry_of(
            n.ledger[k],
            kind,
            n.rentals[i].id,
        ) implies n.rentals[i].sats_charged > 0 && n.ledger[k].delta_sats == booked_as(
        kind,
        n.rentals[i].sats_charged,
    ) by {
        assert(n.ledger[k] == m.ledger[k]);
        assert(entry_of(m.ledger[k], kind, m.rentals[i].id));
    }
    assert forall|i: int|
        0 <= i < n.rentals.len() && (#[trigger] n.rentals[i]).sats_charged > 0 implies has_entry(
        n,
        kind,
        n.rentals[i].id,
    ) by {
        assert(has_entry(m, kind, m.rentals[i].id));
        let k = choose|k: int|
            0 <= k < m.ledger.len() && entry_of(#[trigger] m.ledger[k], kind, m.rentals[i].id);
        assert(entry_of(n.ledger[k], kind, n.rentals[i].id));
    }
    assert forall|i: int| 0 <= i < n.rentals.len() implies (
    #[trigger] n.rentals[i]).sats_charged >= 0 && (!n.rentals[i].status.ended()
        ==> n.rentals[i].sats_charged == 0) by {
        assert(m.rentals[i].sats_charged >= 0);
    }
}

/// A new rental has no charge yet and an id that no entry names.
proof fn lemma_new_rental(m: Market, n: Market, r: RentalRowView, kind: LedgerKind)
    requires
        charged_once(m, kind),
        n.ledger == m.ledger,
        n.rentals == m.rentals.push(r),
        r.sats_charged == 0,
        forall|i: int| 0 <= i < m.rentals.len() ==> (#[trigger] m.rentals[i]).id != r.id,
    ensures
        charged_once(n, kind),
{
    let last = m.rentals.len() as int;
    assert forall|i: int| 0 <= i < last implies #[trigger] n.rentals[i] == m.rentals[i] by {}
    assert forall|k: int|
        0 <= k < n.ledger.len() && (#[trigger] n.ledger[k]).kind == kind implies rental_known(
        n,
        n.ledger[k].rental_id,
    ) by {
        assert(rental_known(m, m.ledger[k].rental_id));
        let i = choose|i: int|
            0 <= i < m.rentals.len() && m.ledger[k].rental_id == Some((#[trigger] m.rentals[i]).id);
        assert(n.rentals[i].id == m.rentals[i].id);
    }
    assert forall|k: int, i: int|
        #![trigger n.ledger[k], n.rentals[i]]
        0 <= k < n.ledger.len() && 0 <= i < n.rentals.len() && entry_of(
            n.ledger[k],
            kind,
            n.rentals[i].id,
        ) implies n.rentals[i].sats_charged > 0 && n.ledger[k].delta_sats == booked_as(
        kind,
        n.rentals[i].sats_charged,
    ) by {
        if i == last {
            assert(rental_known(m, m.ledger[k].rental_id));
            let j = choose|j: int|
                0 <= j < m.rentals.len() && m.ledger[k].rental_id == Some(
                    (#[trigger] m.rentals[j]).id,
                );
            assert(m.rentals[j].id != r.id);
        } else {
            assert(entry_of(m.ledger[k], kind, m.rentals[i].id));
        }
    }
    assert forall|i: int|
        0 <= i < n.rentals.len() && (#[trigger] n.rentals[i]).sats_charged > 0 implies has_entry(
        n,
        kind,
        n.rentals[i].id,
    ) by {
        assert(has_entry(m, kind, m.rentals[i].id));
        let k = choose|k: int|
            0 <= k < m.ledger.len() && entry_of(#[trigger] m.ledger[k], kind, m.rentals[i].id);
        assert(entry_of(n.ledger[k], kind, n.rentals[i].id));
    }
}

/// The end of a rental books its one charge.
proof fn lemma_settling_report(
    m: Market,
    authorization: Option<Seq<char>>,
    req: ReportRequestView,
    now: i64,
    kind: LedgerKind,
)
    requires
        valid(m),
        charged_once(m, kind),
        books_charges(kind),
        report_refusal(m, authorization, req, now) is None,
        settles(
            m.rentals[rental_of(
                m,
                req.rental_id,
                m.machines[caller(m, authorization)->Ok_0].id,
            )->0],
            req,
        ),
    ensures
        charged_once(after_report(m, authorization, req, now), kind),
{
    lemma_report_rows(m, authorization, req, now);
    let n = after_report(m, authorization, req, now);
    let h = caller(m, authorization)->Ok_0;
    let j = rental_of(m, req.rental_id, m.machines[h].id)->0;
    let r = m.rentals[j];
    let a = account_pos(m, r.account_id)->0;
    accrual_is_exact(r.created_at as int, now as int, r.rate_sats_per_min as int);
    let charge = final_charge(r, m.accounts[a].balance_sats as int, now as int);
    assert(r.sats_charged == 0);
    assert(charge >= 0);
    assert(n.rentals =~= m.rentals.update(j, n.rentals[j]));
    assert(n.rentals[j].id == r.id && n.rentals[j].sats_charged == charge
        && n.rentals[j].status.ended());
    let old_len = m.ledger.len() as int;
    if charge == 0 {
        assert(n.ledger == m.ledger);
        lemma_quiet_step(m, n, kind);
    } else {
        let at = if kind is RentalCharge { old_len } else { old_len + 1 };
        assert(n.ledger.len() == old_len + 2);
        assert(entry_of(n.ledger[at], kind, r.id));
        assert(n.ledger[at].delta_sats == booked_as(kind, charge as i64));
        assert forall|k: int| 0 <= k < n.ledger.len() && k != at && (#[trigger] n.ledger[k]).kind
            == kind implies k < old_len && n.ledger[k] == m.ledger[k] && n.ledger[k].rental_id
            != Some(r.id) by {
            assert(k < old_len);
            if m.ledger[k].rental_id == Some(r.id) {
                assert(entry_of(m.ledger[k], kind, m.rentals[j].id));
            }
        }
        assert forall|i: int| 0 <= i < n.rentals.len() && i != j implies n.rentals[i]
            == m.rentals[i] && (#[trigger] n.rentals[i]).id != r.id by {
            if i < j {
                assert(m.rentals[i].id < m.rentals[j].id);
            } else {
                assert(m.rentals[j].id < m.rentals[i].id);
            }
        }
        assert forall|k: int, l: int|
            #![trigger n.ledger[k], n.ledger[l]]
            0 <= k < l < n.ledger.len() && n.ledger[k].kind == kind && n.ledger[l].kind
                == kind implies n.ledger[k].rental_id != n.ledger[l].rental_id by {
            if k != at && l != at {
                assert(m.ledger[k].rental_id != m.ledger[l].rental_id);
            }
        }
        assert forall|k: int|
            0 <= k < n.ledger.len() && (#[trigger] n.ledger[k]).kind == kind implies rental_known(
            n,
            n.ledger[k].rental_id,
        ) by {
            if k == at {
                assert(n.rentals[j].id == r.id);
            } else {
                assert(rental_known(m, m.ledger[k].rental_id));
                let i = choose|i: int|
                    0 <= i < m.rentals.len() && m.ledger[k].rental_id == Some(
                        (#[trigger] m.rentals[i]).id,
                    );
                assert(n.rentals[i].id == m.rentals[i].id);
            }
        }
        assert forall|k: int, i: int|
            #![trigger n.ledger[k], n.rentals[i]]
            0 <= k < n.ledger.len() && 0 <= i < n.rentals.len() && entry_of(
                n.ledger[k],
                kind,
                n.rentals[i].id,
            ) implies n.rentals[i].sats_charged > 0 && n.ledger[k].delta_sats == booked_as(
            kind,
            n.rentals[i].sats_charged,
        ) by {
            if k != at {
                assert(i != j);
                assert(entry_of(m.ledger[k], kind, m.rentals[i].id));
            } else if i != j {
                assert(n.rentals[i].id != r.id);
            }
        }
        assert forall|i: int|
            0 <= i < n.rentals.len() && (
            #[trigger] n.rentals[i]).sats_charged > 0 implies has_entry(
            n,
            kind,
            n.rentals[i].id,
        ) by {
            if i != j {
                assert(n.rentals[i] == m.rentals[i]);
                assert(has_entry(m, kind, m.rentals[i].id));
                let k = choose|k: int|
                    0 <= k < m.ledger.len() && entry_of(
                        #[trigger] m.ledger[k],
                        kind,
                        m.rentals[i].id,
                    );
                assert(n.ledger[k] == m.ledger[k]);
                assert(entry_of(n.ledger[k], kind, n.rentals[i].id));
            }
        }
        assert forall|i: int| 0 <= i < n.rentals.len() implies (
        #[trigger] n.rentals[i]).sats_charged >= 0 && (!n.rentals[i].status.ended()
            ==> n.rentals[i].sats_charged == 0) by {
            assert(m.rentals[i].sats_charged >= 0);
        }
    }
}

/// A rental is charged for once: whatever happens, each rental has at most one
/// entry that debits its account and one that credits its host, both of just what
/// the rental shows as charged, and none before it has ended.
pub proof fn a_rental_is_charged_once(m: Market, e: Event, kind: LedgerKind)
    requires
        valid(m),
        books_charges(kind),
        charged_once(m, kind),
    ensures
        charged_once(after(m, e), kind),
{
    let n = after(m, e);
    a_rental_keeps_its_terms(m, e);
    assert forall|i: int| 0 <= i < m.rentals.len() implies (#[trigger] n.rentals[i]).id
        == m.rentals[i].id && (m.rentals[i].status.ended() ==> n.rentals[i].status.ended()) by {
        assert(same_terms(n.rentals[i], m.rentals[i]));
        if m.rentals[i].status.ended() {
            an_ended_rental_stays_ended(m, e, i);
        }
    }
    if !refused(m, e) {
        match e {
            Event::CreateRental { request, period, now } => {
                market_stays_valid(m, e);
                let last = m.rentals.len() as int;
                assert forall|i: int| 0 <= i < last implies (#[trigger] m.rentals[i]).id
                    != n.rentals[last].id by {
                    assert(n.rentals[i].id < n.rentals[last].id);
                    assert(n.rentals[i] == m.rentals[i]);
                }
                lemma_new_rental(m, n, n.rentals[last], kind);
            },
            Event::Report { authorization, report: req, now } => {
                lemma_report_rows(m, authorization, req, now);
                let j = rental_of(
                    m,
                    req.rental_id,
                    m.machines[caller(m, authorization)->Ok_0].id,
                )->0;
                if settles(m.rentals[j], req) {
                    lemma_settling_report(m, authorization, req, now, kind);
                } else {
                    lemma_quiet_step(m, n, kind);
                }
            },
            Event::PollInvoices { paid, now } => {
                lemma_poll_is_quiet(m, paid, 0, now, kind);
                lemma_quiet_step(m, n, kind);
            },
            Event::EnforceBudgets { now, timeout } => {
                lemma_position(m.rentals, |r: RentalRowView| dangling(m, r, now as int, timeout));
                let k = match first_dangling(m, now as int, timeout) {
                    None => m.rentals.len() as int,
                    Some(k) => k,
                };
                lemma_eviction_is_quiet(m, k, now, timeout, kind);
                lemma_evicted_frame(m, k, now, timeout);
                assert forall|i: int| 0 <= i < m.rentals.len() implies (
                #[trigger] n.rentals[i]).sats_charged == m.rentals[i].sats_charged by {
                    if i < k {
                        assert(evicted(m, k, now, timeout).rentals[i] == n.rentals[i]);
                    } else {
                        assert(evicted(m, k, now, timeout).rentals[i] == m.rentals[i]);
                    }
                }
                lemma_quiet_step(m, n, kind);
            },
            Event::DeleteRental { rental: id, now } => {
                lemma_position(m.rentals, |x: RentalRowView| x.id == id);
                lemma_quiet_step(m, n, kind);
            },
            _ => {
                lemma_quiet_step(m, n, kind);
            },
        }
    }
}

/// In every market that comes about, each rental has been charged for at most once.
pub proof fn every_history_charges_once(events: Seq<Event>, kind: LedgerKind)
    requires
        books_charges(kind),
    ensures
        charged_once(history(events), kind),
    decreases events.len(),
{
    if events.len() > 0 {
        let earlier = events.drop_last();
        every_history_charges_once(earlier, kind);
        every_history_is_valid(earlier);
        a_rental_is_charged_once(history(earlier), events.last(), kind);
    }
}

} // verus!
