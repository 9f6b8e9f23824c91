//! The billing ticker: settle invoices, mark silent hosts offline, and enforce
//! budgets. Money moves when a rental stops, not per period: the single charge
//! is applied by the report that ends the rental. The ticker moves no money but
//! deposits; it only evicts a rental whose accrued cost has outrun its account.

use vstd::prelude::*;

use crate::api::{Command, CommandView};
use crate::db::{
    account_pos, broken_reference, lemma_position, lemma_position_is, lemma_position_none,
    machine_pos, position, queued, record, recorded, AccountRowView, InvoiceRowView, LedgerRowView,
    MachineRowView, Market, RentalRowView, Tables,
};
use crate::error::{refusal, ApiError, ApiErrorView};
use crate::laws::{after, Event};
use crate::model::{LedgerKind, RentalStatus};
use crate::state::BillingConfig;
use crate::text::same_text;

verus! {

/// The quotient of a division by a positive number, cut toward zero.
pub open spec fn whole_part(n: int, d: int) -> int {
    if n >= 0 {
        n / d
    } else {
        -((-n) / d)
    }
}

/// The seconds between two instants, none when they are in the wrong order.
pub open spec fn elapsed_secs(start: int, end: int) -> int {
    if end > start {
        end - start
    } else {
        0
    }
}

/// The cost of an interval in whole sats at a rate per minute.
pub open spec fn accrued(start: int, end: int, rate: int) -> int {
    whole_part(elapsed_secs(start, end) * rate, 60)
}

/// The cost of an interval, in integers wide enough for every interval and rate.
pub fn accrued_cost(start: i64, end: i64, rate_sats_per_min: i64) -> (r: i128)
    ensures
        r == accrued(start as int, end as int, rate_sats_per_min as int),
{
    let elapsed: i128 = if end > start { end as i128 - start as i128 } else { 0 };
    let rate: i128 = rate_sats_per_min as i128;
    proof {
        assert(-0x8000_0000_0000_0000_0000_0000_0000_0000 < elapsed * rate
            < 0x8000_0000_0000_0000_0000_0000_0000_0000) by (nonlinear_arith)
            requires
                0 <= elapsed <= 0xffff_ffff_ffff_ffff,
                -0x8000_0000_0000_0000 <= rate <= 0x7fff_ffff_ffff_ffff,
        ;
    }
    elapsed * rate / 60
}

/// Prorated charge for an interval, in whole sats: `elapsed seconds × rate ÷ 60`.
/// Fractions of a sat are dropped, never rounded up, so the tenant is never
/// overcharged. An interval that runs backwards costs nothing.
pub fn accrued_charge(start: i64, end: i64, rate_sats_per_min: i64) -> (r: i64)
    requires
        i64::MIN <= end - start <= i64::MAX,
        i64::MIN <= elapsed_secs(start as int, end as int) * rate_sats_per_min <= i64::MAX,
    ensures
        r == accrued(start as int, end as int, rate_sats_per_min as int),
{
    let elapsed: i64 = if end > start { end - start } else { 0 };
    elapsed * rate_sats_per_min / 60
}

/// The ledger entry of a deposit.
pub open spec fn deposit_entry(account_id: Seq<char>, sats: i64, now: i64) -> LedgerRowView {
    LedgerRowView {
        ts: now,
        kind: LedgerKind::Deposit,
        delta_sats: sats,
        account_id: Some(account_id),
        machine_id: None,
        rental_id: None,
        note: Some("deposit"@),
    }
}

/// The refusal to settle the invoice of row `k`, if any.
pub open spec fn settle_refusal(m: Market, k: int) -> Option<ApiErrorView> {
    match account_pos(m, m.invoices[k].account_id) {
        None => Some(broken_reference()),
        Some(a) => {
            let balance = m.accounts[a].balance_sats + m.invoices[k].sats;
            if i64::MIN <= balance <= i64::MAX {
                None
            } else {
                Some(refusal(500, "database error: an amount is out of range"@))
            }
        },
    }
}

/// The market after the invoice of row `k` has been settled: it is marked, and
/// its sats are on the account and in the ledger.
pub open spec fn settle_effect(m: Market, k: int, now: i64) -> Market {
    let inv = m.invoices[k];
    let a = account_pos(m, inv.account_id)->0;
    Market {
        invoices: m.invoices.update(k, InvoiceRowView { settled: true, ..inv }),
        accounts: m.accounts.update(
            a,
            AccountRowView {
                balance_sats: (m.accounts[a].balance_sats + inv.sats) as i64,
                ..m.accounts[a]
            },
        ),
        ledger: m.ledger.push(deposit_entry(inv.account_id, inv.sats, now)),
        ..m
    }
}

/// The texts of a list of strings.
pub open spec fn texts(v: Seq<String>) -> Seq<Seq<char>> {
    v.map_values(|s: String| s@)
}

/// True when the invoice of row `k` is newly paid.
pub open spec fn newly_paid(m: Market, paid: Seq<Seq<char>>, k: int) -> bool {
    !m.invoices[k].settled && paid.contains(m.invoices[k].payment_hash)
}

/// Settles the newly paid invoices from row `k` on, one by one, up to the first
/// that cannot be settled.
pub open spec fn polled(m: Market, paid: Seq<Seq<char>>, k: int, now: i64) -> (
    Market,
    Option<ApiErrorView>,
)
    decreases m.invoices.len() - k,
{
    if k < 0 || k >= m.invoices.len() {
        (m, None)
    } else if newly_paid(m, paid, k) {
        match settle_refusal(m, k) {
            Some(e) => (m, Some(e)),
            None => polled(settle_effect(m, k, now), paid, k + 1, now),
        }
    } else {
        polled(m, paid, k + 1, now)
    }
}

/// The payment hashes of the invoices that are not settled yet.
pub fn pending_invoices(tables: &Tables) -> (r: Vec<String>)
    ensures
        texts(r@) == tables@.invoices.filter(|x: InvoiceRowView| !x.settled).map_values(
            |x: InvoiceRowView| x.payment_hash,
        ),
{
    let ghost rows = tables@.invoices;
    let ghost p = |x: InvoiceRowView| !x.settled;
    let ghost f = |x: InvoiceRowView| x.payment_hash;
    let mut out: Vec<String> = Vec::new();
    let mut k: usize = 0;
    proof {
        reveal(Seq::filter);
        assert(texts(out@) =~= rows.take(0).filter(p).map_values(f));
    }
    while k < tables.invoices.len()
        invariant
            k <= tables.invoices@.len(),
            rows == tables@.invoices,
            p == (|x: InvoiceRowView| !x.settled),
            f == (|x: InvoiceRowView| x.payment_hash),
            texts(out@) == rows.take(k as int).filter(p).map_values(f),
        decreases tables.invoices@.len() - k,
    {
        let ghost head = rows.take(k as int);
        let ghost longer = rows.take(k + 1);
        proof {
            reveal(Seq::filter);
            assert(longer.drop_last() =~= head);
            assert(longer.last() == tables.invoices@[k as int]@);
            assert(longer.filter(p) == if p(longer.last()) {
                head.filter(p).push(longer.last())
            } else {
                head.filter(p)
            });
            assert(head.filter(p).push(longer.last()).map_values(f) =~= head.filter(p).map_values(
                f,
            ).push(longer.last().payment_hash));
        }
        if !tables.invoices[k].settled {
            let ghost shown = texts(out@);
            let hash = tables.invoices[k].payment_hash.clone();
            out.push(hash);
            proof {
                assert(texts(out@) =~= shown.push(hash@));
            }
        }
        k += 1;
    }
    proof {
        assert(rows.take(k as int) =~= rows);
    }
    out
}

fn listed(list: &Vec<String>, text: &str) -> (r: bool)
    ensures
        r == texts(list@).contains(text@),
{
    let mut i: usize = 0;
    while i < list.len()
        invariant
            i <= list@.len(),
            forall|k: int| 0 <= k < i ==> #[trigger] list@[k]@ != text@,
        decreases list@.len() - i,
    {
        if same_text(list[i].as_str(), text) {
            proof {
                assert(texts(list@)[i as int] == text@);
            }
            return true;
        }
        i += 1;
    }
    proof {
        assert forall|k: int| 0 <= k < texts(list@).len() implies texts(list@)[k] != text@ by {
            assert(texts(list@)[k] == list@[k]@);
        }
    }
    false
}

/// Settles the invoice of row `k`: credits the account and records a deposit.
pub fn settle_invoice(tables: &mut Tables, k: usize, now: i64) -> (r: Result<(), ApiError>)
    requires
        k < old(tables)@.invoices.len(),
    ensures
        match settle_refusal(old(tables)@, k as int) {
            Some(e) => r matches Err(x) && x@ == e && final(tables)@ == old(tables)@,
            None => r is Ok && final(tables)@ == settle_effect(old(tables)@, k as int, now),
        },
{
    let ghost before = tables@;
    proof {
        assert(before.invoices[k as int] == tables.invoices@[k as int]@);
    }
    let account_id = tables.invoices[k].account_id.clone();
    let sats: i64 = tables.invoices[k].sats;
    let a: usize = match tables.account_pos(account_id.as_str()) {
        Some(a) => a,
        None => {
            return Err(ApiError::internal("database error: a referenced row does not exist"));
        },
    };
    proof {
        assert(before.accounts[a as int] == tables.accounts@[a as int]@);
    }
    let balance: i128 = tables.accounts[a].balance_sats as i128 + sats as i128;
    if balance < i64::MIN as i128 || balance > i64::MAX as i128 {
        return Err(ApiError::internal("database error: an amount is out of range"));
    }
    match record(
        tables,
        now,
        LedgerKind::Deposit,
        sats,
        Some(account_id.as_str()),
        None,
        None,
        Some("deposit"),
    ) {
        Ok(_) => {},
        Err(e) => {
            return Err(e);
        },
    }
    tables.invoices[k].settled = true;
    tables.accounts[a].balance_sats = balance as i64;
    proof {
        assert(tables@ =~= settle_effect(before, k as int, now));
    }
    Ok(())
}

/// Settles the newly paid invoices: credits each account and records a deposit.
/// `paid` holds the payment hashes that the Lightning backend calls settled.
pub fn poll_invoices(tables: &mut Tables, paid: &Vec<String>, now: i64) -> (r: Result<
    (),
    ApiError,
>)
    ensures
        final(tables)@ == after(
            old(tables)@,
            Event::PollInvoices { paid: texts(paid@), now },
        ),
        final(tables)@ == polled(old(tables)@, texts(paid@), 0, now).0,
        match polled(old(tables)@, texts(paid@), 0, now).1 {
            None => r is Ok,
            Some(e) => r matches Err(x) && x@ == e,
        },
{
    let ghost before = tables@;
    let mut k: usize = 0;
    while k < tables.invoices.len()
        invariant
            k <= tables.invoices@.len(),
            before == old(tables)@,
            polled(before, texts(paid@), 0, now) == polled(tables@, texts(paid@), k as int, now),
        decreases tables.invoices@.len() - k,
    {
        let ghost m = tables@;
        proof {
            assert(m.invoices[k as int] == tables.invoices@[k as int]@);
        }
        if !tables.invoices[k].settled && listed(paid, tables.invoices[k].payment_hash.as_str()) {
            match settle_invoice(tables, k, now) {
                Ok(_) => {
                    proof {
                        assert(tables.invoices@.len() == tables@.invoices.len());
                    }
                },
                Err(e) => {
                    return Err(e);
                },
            }
        }
        k += 1;
    }
    Ok(())
}

/// True for an online machine that has not been heard from since `threshold`.
pub open spec fn silent(h: MachineRowView, threshold: int) -> bool {
    h.online && h.last_heartbeat < threshold
}

/// The market after the silent hosts have been marked offline.
pub open spec fn after_mark_offline(m: Market, threshold: int) -> Market {
    Market {
        machines: m.machines.map_values(
            |h: MachineRowView|
                if silent(h, threshold) {
                    MachineRowView { online: false, ..h }
                } else {
                    h
                },
        ),
        ..m
    }
}

/// A host silent for longer than the heartbeat timeout goes offline.
pub fn mark_offline(tables: &mut Tables, billing: &BillingConfig, now: i64)
    requires
        i64::MIN <= now - (billing.heartbeat_timeout as i64) <= i64::MAX,
    ensures
        final(tables)@ == after(
            old(tables)@,
            Event::MarkOffline { threshold: now - (billing.heartbeat_timeout as i64) },
        ),
        final(tables)@ == after_mark_offline(
            old(tables)@,
            now - (billing.heartbeat_timeout as i64),
        ),
{
    let threshold: i64 = now - billing.heartbeat_timeout_secs();
    let ghost before = tables@;
    let ghost goal = after_mark_offline(before, threshold as int).machines;
    let n: usize = tables.machines.len();
    let mut i: usize = 0;
    while i < n
        invariant
            i <= n,
            n == tables.machines@.len(),
            n == before.machines.len(),
            goal == after_mark_offline(before, threshold as int).machines,
            tables@ == (Market { machines: tables@.machines, ..before }),
            forall|k: int| 0 <= k < i ==> #[trigger] tables@.machines[k] == goal[k],
            forall|k: int| i <= k < n ==> #[trigger] tables@.machines[k] == before.machines[k],
        decreases n - i,
    {
        let ghost m = tables@;
        proof {
            assert(m.machines[i as int] == tables.machines@[i as int]@);
        }
        if tables.machines[i].online && tables.machines[i].last_heartbeat < threshold {
            tables.machines[i].online = false;
            proof {
                assert(tables@.machines =~= m.machines.update(i as int, goal[i as int]));
                assert(tables@ =~= (Market { machines: tables@.machines, ..before }));
            }
        }
        i += 1;
    }
    proof {
        assert(tables@.machines =~= goal);
        assert(tables@ =~= after_mark_offline(before, threshold as int));
    }
}

/// True when the machine of a rental has been heard from within the timeout. The
/// clock of a rental on a silent host stands still.
pub open spec fn heard_from(m: Market, r: RentalRowView, now: int, timeout: int) -> bool {
    machine_pos(m, r.machine_id) matches Some(i) && now - m.machines[i].last_heartbeat <= timeout
}

/// True for a running rental that names a machine or an account that is not there.
pub open spec fn dangling(m: Market, r: RentalRowView, now: int, timeout: int) -> bool {
    r.status is Running && (machine_pos(m, r.machine_id) is None || (heard_from(m, r, now, timeout)
        && account_pos(m, r.account_id) is None))
}

/// True for a running rental on a live host whose accrued cost is more than its
/// account holds.
pub open spec fn over_budget(m: Market, r: RentalRowView, now: int, timeout: int) -> bool {
    &&& r.status is Running
    &&& heard_from(m, r, now, timeout)
    &&& account_pos(m, r.account_id) matches Some(a)
    &&& accrued(r.created_at as int, now, r.rate_sats_per_min as int) > m.accounts[a].balance_sats
}

/// The ledger entry of an eviction. It moves nothing.
pub open spec fn evict_entry(r: RentalRowView, now: i64) -> LedgerRowView {
    LedgerRowView {
        ts: now,
        kind: LedgerKind::Evict,
        delta_sats: 0,
        account_id: Some(r.account_id),
        machine_id: None,
        rental_id: Some(r.id),
        note: Some("insufficient balance"@),
    }
}

/// The market after the rental of row `k` has been evicted: it is on its way out,
/// and the command to stop it waits for its machine.
pub open spec fn evict_effect(m: Market, k: int, now: i64) -> Market {
    let r = m.rentals[k];
    queued(
        recorded(
            Market {
                rentals: m.rentals.update(
                    k,
                    RentalRowView {
                        status: RentalStatus::Evicting,
                        error: Some("insufficient balance"@),
                        ..r
                    },
                ),
                ..m
            },
            evict_entry(r, now),
        ),
        r.machine_id,
        CommandView::StopRental { rental_id: r.id },
        now,
    )
}

/// The market after the first `k` rentals have been held to their budgets.
pub open spec fn evicted(m: Market, k: int, now: i64, timeout: int) -> Market
    decreases k,
{
    if k <= 0 {
        m
    } else {
        let before = evicted(m, k - 1, now, timeout);
        if over_budget(m, m.rentals[k - 1], now as int, timeout) {
            evict_effect(before, k - 1, now)
        } else {
            before
        }
    }
}

/// The row of the first rental that the pass over the budgets stumbles on.
pub open spec fn first_dangling(m: Market, now: int, timeout: int) -> Option<int> {
    position(m.rentals, |r: RentalRowView| dangling(m, r, now, timeout))
}

/// Evictions leave machines, accounts, invoices and the later rentals alone.
pub proof fn lemma_evicted_frame(m: Market, k: int, now: i64, timeout: int)
    requires
        0 <= k <= m.rentals.len(),
    ensures
        evicted(m, k, now, timeout).machines == m.machines,
        evicted(m, k, now, timeout).accounts == m.accounts,
        evicted(m, k, now, timeout).invoices == m.invoices,
        evicted(m, k, now, timeout).rentals.len() == m.rentals.len(),
        forall|j: int|
            k <= j < m.rentals.len() ==> #[trigger] evicted(m, k, now, timeout).rentals[j]
                == m.rentals[j],
        forall|j: int|
            0 <= j < k ==> #[trigger] evicted(m, k, now, timeout).rentals[j] == (if over_budget(
                m,
                m.rentals[j],
                now as int,
                timeout,
            ) {
                RentalRowView {
                    status: RentalStatus::Evicting,
                    error: Some("insufficient balance"@),
                    ..m.rentals[j]
                }
            } else {
                m.rentals[j]
            }),
    decreases k,
{
    if k > 0 {
        lemma_evicted_frame(m, k - 1, now, timeout);
    }
}

/// Evicts every running rental whose accrued cost has outgrown its account: the
/// command to stop it is queued, so that the charge at its end, which the balance
/// caps, settles it and frees the machine. No money moves here. A rental on a
/// silent host is left alone. The pass ends at the first rental that names a
/// missing machine or account.
pub fn enforce_budgets(tables: &mut Tables, billing: &BillingConfig, now: i64) -> (r: Result<
    (),
    ApiError,
>)
    ensures
        final(tables)@ == after(
            old(tables)@,
            Event::EnforceBudgets { now, timeout: billing.heartbeat_timeout as i64 as int },
        ),
        match first_dangling(old(tables)@, now as int, billing.heartbeat_timeout as i64 as int) {
            None => r is Ok && final(tables)@ == evicted(
                old(tables)@,
                old(tables)@.rentals.len() as int,
                now,
                billing.heartbeat_timeout as i64 as int,
            ),
            Some(k) => r matches Err(x) && x@ == broken_reference() && final(tables)@ == evicted(
                old(tables)@,
                k,
                now,
                billing.heartbeat_timeout as i64 as int,
            ),
        },
{
    let timeout: i64 = billing.heartbeat_timeout_secs();
    let ghost before = tables@;
    let ghost p = |r: RentalRowView| dangling(before, r, now as int, timeout as int);
    let n: usize = tables.rentals.len();
    let mut k: usize = 0;
    while k < n
        invariant
            k <= n,
            n == tables.rentals@.len(),
            n == before.rentals.len(),
            before == old(tables)@,
            timeout == billing.heartbeat_timeout as i64,
            p == (|r: RentalRowView| dangling(before, r, now as int, timeout as int)),
            tables@ == evicted(before, k as int, now, timeout as int),
            forall|j: int| 0 <= j < k ==> !p(#[trigger] before.rentals[j]),
        decreases n - k,
    {
        let ghost m = tables@;
        proof {
            lemma_evicted_frame(before, k as int, now, timeout as int);
            assert(m.rentals[k as int] == tables.rentals@[k as int]@);
        }
        let ghost rental = before.rentals[k as int];
        if tables.rentals[k].status == RentalStatus::Running {
            let machine_id: i64 = tables.rentals[k].machine_id;
            let i: usize = match tables.machine_pos(machine_id) {
                Some(i) => i,
                None => {
                    proof {
                        lemma_position_is(before.rentals, p, k as int);
                    }
                    return Err(ApiError::internal("database error: a referenced row does not exist"));
                },
            };
            proof {
                assert(m.machines[i as int] == tables.machines@[i as int]@);
            }
            if now as i128 - tables.machines[i].last_heartbeat as i128 <= timeout as i128 {
                let a: usize = match tables.account_pos(tables.rentals[k].account_id.as_str()) {
                    Some(a) => a,
                    None => {
                        proof {
                            lemma_position_is(before.rentals, p, k as int);
                        }
                        return Err(
                            ApiError::internal("database error: a referenced row does not exist"),
                        );
                    },
                };
                proof {
                    assert(m.accounts[a as int] == tables.accounts@[a as int]@);
                }
                let cost: i128 = accrued_cost(
                    tables.rentals[k].created_at,
                    now,
                    tables.rentals[k].rate_sats_per_min,
                );
                if cost > tables.accounts[a].balance_sats as i128 {
                    let id: i64 = tables.rentals[k].id;
                    let account_id = tables.rentals[k].account_id.clone();
                    proof {
                        lemma_position(m.rentals, |x: RentalRowView| x.id == id);
                    }
                    match record(
                        tables,
                        now,
                        LedgerKind::Evict,
                        0,
                        Some(account_id.as_str()),
                        None,
                        Some(id),
                        Some("insufficient balance"),
                    ) {
                        Ok(_) => {},
                        Err(e) => {
                            return Err(e);
                        },
                    }
                    tables.rentals[k].status = RentalStatus::Evicting;
                    tables.rentals[k].error = Some("insufficient balance".to_owned());
                    tables.queue(machine_id, Command::StopRental { rental_id: id }, now);
                    proof {
                        assert(tables@ =~= evict_effect(m, k as int, now));
                        assert(tables.rentals@.len() == tables@.rentals.len());
                    }
                }
            }
        }
        k += 1;
    }
    proof {
        lemma_position_none(before.rentals, p);
    }
    Ok(())
}

/// One pass of the ticker: settle invoices, mark silent hosts offline, enforce
/// budgets. A pass that fails keeps what it had done.
pub fn tick(
    tables: &mut Tables,
    billing: &BillingConfig,
    paid: &Vec<String>,
    now: i64,
) -> (r: Result<(), ApiError>)
    requires
        i64::MIN <= now - (billing.heartbeat_timeout as i64) <= i64::MAX,
    ensures
        final(tables)@ == ticked(
            old(tables)@,
            texts(paid@),
            now,
            billing.heartbeat_timeout as i64 as int,
        ).0,
        match ticked(old(tables)@, texts(paid@), now, billing.heartbeat_timeout as i64 as int).1 {
            None => r is Ok,
            Some(e) => r matches Err(x) && x@ == e,
        },
{
    match poll_invoices(tables, paid, now) {
        Ok(_) => {},
        Err(e) => {
            return Err(e);
        },
    }
    mark_offline(tables, billing, now);
    enforce_budgets(tables, billing, now)
}

/// What a pass of the ticker does, and the error it ends with, if any.
pub open spec fn ticked(m: Market, paid: Seq<Seq<char>>, now: i64, timeout: int) -> (
    Market,
    Option<ApiErrorView>,
) {
    match polled(m, paid, 0, now) {
        (settled, Some(e)) => (settled, Some(e)),
        (settled, None) => {
            let marked = after_mark_offline(settled, now - timeout);
            match first_dangling(marked, now as int, timeout) {
                None => (evicted(marked, marked.rentals.len() as int, now, timeout), None),
                Some(k) => (evicted(marked, k, now, timeout), Some(broken_reference())),
            }
        },
    }
}

} // verus!
