//! Laws of deposits: a paid invoice is credited in full to its own account.

use vstd::prelude::*;

use super::books::lemma_settle_keeps_valid;
use super::lookup::accounts_are_found;
use super::{account_known, after, valid, Event};
use crate::billing::{newly_paid, polled, settle_effect, settle_refusal};
use crate::db::{AccountRowView, InvoiceRowView, LedgerRowView, Market};
use crate::model::LedgerKind;

verus! {

/// A settled invoice is credited in full: its account, and no other, gains just the
/// sats of the invoice, the ledger shows them as a deposit of that account, and the
/// invoice counts as settled. Nothing else changes.
pub proof fn a_settled_invoice_is_credited_in_full(m: Market, k: int, a: int, now: i64)
    requires
        valid(m),
        0 <= k < m.invoices.len(),
        0 <= a < m.accounts.len(),
        m.invoices[k].account_id == m.accounts[a].id,
        m.accounts[a].balance_sats + m.invoices[k].sats <= i64::MAX,
    ensures
        settle_refusal(m, k) is None,
        settle_effect(m, k, now) == (Market {
            invoices: m.invoices.update(k, InvoiceRowView { settled: true, ..m.invoices[k] }),
            accounts: m.accounts.update(
                a,
                AccountRowView {
                    balance_sats: (m.accounts[a].balance_sats + m.invoices[k].sats) as i64,
                    ..m.accounts[a]
                },
            ),
            ledger: m.ledger.push(
                LedgerRowView {
                    ts: now,
                    kind: LedgerKind::Deposit,
                    delta_sats: m.invoices[k].sats,
                    account_id: Some(m.accounts[a].id),
                    machine_id: None,
                    rental_id: None,
                    note: Some("deposit"@),
                },
            ),
            ..m
        }),
{
    accounts_are_found(m, a);
}

/// The sats of the invoices from row `k` on that are open, paid, and of one account.
pub open spec fn paid_in(
    invoices: Seq<InvoiceRowView>,
    paid: Seq<Seq<char>>,
    account_id: Seq<char>,
    k: int,
) -> int
    decreases invoices.len() - k,
{
    if k < 0 || k >= invoices.len() {
        0
    } else {
        let x = invoices[k];
        (if !x.settled && paid.contains(x.payment_hash) && x.account_id == account_id {
            x.sats as int
        } else {
            0
        }) + paid_in(invoices, paid, account_id, k + 1)
    }
}

/// The deposits of the invoices from row `k` on that are open and paid, one by one.
pub open spec fn deposits_of(
    invoices: Seq<InvoiceRowView>,
    paid: Seq<Seq<char>>,
    now: i64,
    k: int,
) -> Seq<LedgerRowView>
    decreases invoices.len() - k,
{
    if k < 0 || k >= invoices.len() {
        Seq::empty()
    } else {
        let x = invoices[k];
        (if !x.settled && paid.contains(x.payment_hash) {
            seq![
                LedgerRowView {
                    ts: now,
                    kind: LedgerKind::Deposit,
                    delta_sats: x.sats,
                    account_id: Some(x.account_id),
                    machine_id: None,
                    rental_id: None,
                    note: Some("deposit"@),
                },
            ]
        } else {
            Seq::empty()
        }) + deposits_of(invoices, paid, now, k + 1)
    }
}

/// Only the rows from `k` on count.
proof fn lemma_later_rows(
    x: Seq<InvoiceRowView>,
    y: Seq<InvoiceRowView>,
    paid: Seq<Seq<char>>,
    account_id: Seq<char>,
    now: i64,
    k: int,
)
    requires
        0 <= k,
        x.len() == y.len(),
        forall|j: int| k <= j < x.len() ==> #[trigger] x[j] == y[j],
    ensures
        paid_in(x, paid, account_id, k) == paid_in(y, paid, account_id, k),
        deposits_of(x, paid, now, k) == deposits_of(y, paid, now, k),
    decreases x.len() - k,
{
    if k < x.len() {
        assert(x[k] == y[k]);
        lemma_later_rows(x, y, paid, account_id, now, k + 1);
    }
}

proof fn lemma_paid_in_is_not_negative(
    x: Seq<InvoiceRowView>,
    paid: Seq<Seq<char>>,
    account_id: Seq<char>,
    k: int,
)
    requires
        forall|j: int| 0 <= j < x.len() ==> (#[trigger] x[j]).sats >= 1,
    ensures
        paid_in(x, paid, account_id, k) >= 0,
    decreases x.len() - k,
{
    if 0 <= k < x.len() {
        assert(x[k].sats >= 1);
        lemma_paid_in_is_not_negative(x, paid, account_id, k + 1);
    }
}

proof fn lemma_poll(m: Market, paid: Seq<Seq<char>>, k: int, now: i64)
    requires
        valid(m),
        0 <= k,
        forall|a: int|
            0 <= a < m.accounts.len() ==> (#[trigger] m.accounts[a]).balance_sats + paid_in(
                m.invoices,
                paid,
                m.accounts[a].id,
                k,
            ) <= i64::MAX,
    ensures
        ({
            let n = polled(m, paid, k, now).0;
            &&& polled(m, paid, k, now).1 is None
            &&& n.machines == m.machines && n.rentals == m.rentals && n.commands == m.commands
            &&& n.ledger == m.ledger + deposits_of(m.invoices, paid, now, k)
            &&& n.invoices.len() == m.invoices.len()
            &&& forall|j: int|
                0 <= j < m.invoices.len() ==> #[trigger] n.invoices[j] == (InvoiceRowView {
                    settled: m.invoices[j].settled || (k <= j && paid.contains(
                        m.invoices[j].payment_hash,
                    )),
                    ..m.invoices[j]
                })
            &&& n.accounts.len() == m.accounts.len()
            &&& forall|a: int|
                0 <= a < m.accounts.len() ==> #[trigger] n.accounts[a] == (AccountRowView {
                    balance_sats: (m.accounts[a].balance_sats + paid_in(
                        m.invoices,
                        paid,
                        m.accounts[a].id,
                        k,
                    )) as i64,
                    ..m.accounts[a]
                })
        }),
    decreases m.invoices.len() - k,
{
    if k >= m.invoices.len() {
        assert(m.ledger + Seq::<LedgerRowView>::empty() =~= m.ledger);
        assert forall|a: int| 0 <= a < m.accounts.len() implies #[trigger] m.accounts[a] == (
        AccountRowView {
            balance_sats: (m.accounts[a].balance_sats + 0) as i64,
            ..m.accounts[a]
        }) by {}
    } else if newly_paid(m, paid, k) {
        let x = m.invoices[k];
        assert(account_known(m.accounts, x.account_id));
        let b = choose|b: int| 0 <= b < m.accounts.len() && (#[trigger] m.accounts[b]).id
            == x.account_id;
        assert forall|j: int| 0 <= j < m.invoices.len() implies (
        #[trigger] m.invoices[j]).sats >= 1 by {}
        lemma_paid_in_is_not_negative(m.invoices, paid, x.account_id, k + 1);
        assert(m.accounts[b].balance_sats + paid_in(m.invoices, paid, m.accounts[b].id, k)
            <= i64::MAX);
        a_settled_invoice_is_credited_in_full(m, k, b, now);
        let next = settle_effect(m, k, now);
        lemma_settle_keeps_valid(m, k, now);
        assert forall|a: int| 0 <= a < next.accounts.len() implies (
        #[trigger] next.accounts[a]).balance_sats + paid_in(
            next.invoices,
            paid,
            next.accounts[a].id,
            k + 1,
        ) == m.accounts[a].balance_sats + paid_in(m.invoices, paid, m.accounts[a].id, k) by {
            lemma_later_rows(next.invoices, m.invoices, paid, m.accounts[a].id, now, k + 1);
            if a != b {
                assert(m.accounts[a].id != m.accounts[b].id);
            }
        }
        assert forall|a: int| 0 <= a < next.accounts.len() implies (
        #[trigger] next.accounts[a]).balance_sats + paid_in(
            next.invoices,
            paid,
            next.accounts[a].id,
            k + 1,
        ) <= i64::MAX by {
            assert(m.accounts[a].balance_sats + paid_in(m.invoices, paid, m.accounts[a].id, k)
                <= i64::MAX);
        }
        lemma_poll(next, paid, k + 1, now);
        lemma_later_rows(next.invoices, m.invoices, paid, x.account_id, now, k + 1);
        let n = polled(next, paid, k + 1, now).0;
        let rest = deposits_of(m.invoices, paid, now, k + 1);
        assert(n.ledger =~= m.ledger + deposits_of(m.invoices, paid, now, k));
        assert forall|j: int| 0 <= j < m.invoices.len() implies #[trigger] n.invoices[j] == (
        InvoiceRowView {
            settled: m.invoices[j].settled || (k <= j && paid.contains(m.invoices[j].payment_hash)),
            ..m.invoices[j]
        }) by {
            assert(next.invoices[j].payment_hash == m.invoices[j].payment_hash);
        }
        assert forall|a: int| 0 <= a < m.accounts.len() implies #[trigger] n.accounts[a] == (
        AccountRowView {
            balance_sats: (m.accounts[a].balance_sats + paid_in(
                m.invoices,
                paid,
                m.accounts[a].id,
                k,
            )) as i64,
            ..m.accounts[a]
        }) by {
            assert(next.accounts[a].id == m.accounts[a].id);
        }
    } else {
        assert(deposits_of(m.invoices, paid, now, k) =~= deposits_of(
            m.invoices,
            paid,
            now,
            k + 1,
        ));
        lemma_poll(m, paid, k + 1, now);
    }
}

/// A poll credits what was paid: every account gains the sats of its invoices that were
/// open and have been paid, each of these counts as settled and is in the ledger as a
/// deposit, and everything else stays as it was.
pub proof fn a_poll_credits_what_was_paid(m: Market, paid: Seq<Seq<char>>, now: i64)
    requires
        valid(m),
        forall|a: int|
            0 <= a < m.accounts.len() ==> (#[trigger] m.accounts[a]).balance_sats + paid_in(
                m.invoices,
                paid,
                m.accounts[a].id,
                0,
            ) <= i64::MAX,
    ensures
        ({
            let n = after(m, Event::PollInvoices { paid, now });
            &&& polled(m, paid, 0, now).1 is None
            &&& n.machines == m.machines && n.rentals == m.rentals && n.commands == m.commands
            &&& n.ledger == m.ledger + deposits_of(m.invoices, paid, now, 0)
            &&& n.invoices.len() == m.invoices.len()
            &&& forall|j: int|
                0 <= j < m.invoices.len() ==> #[trigger] n.invoices[j] == (InvoiceRowView {
                    settled: m.invoices[j].settled || paid.contains(m.invoices[j].payment_hash),
                    ..m.invoices[j]
                })
            &&& n.accounts.len() == m.accounts.len()
            &&& forall|a: int|
                0 <= a < m.accounts.len() ==> #[trigger] n.accounts[a] == (AccountRowView {
                    balance_sats: (m.accounts[a].balance_sats + paid_in(
                        m.invoices,
                        paid,
                        m.accounts[a].id,
                        0,
                    )) as i64,
                    ..m.accounts[a]
                })
        }),
{
    lemma_poll(m, paid, 0, now);
}

} // verus!
