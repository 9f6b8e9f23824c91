//! What holds of the marketplace as a whole.
//!
//! [`Event`] lists everything that changes the books and [`after`] says what each
//! of them does, over the same functions by which the handlers are described. The
//! laws speak of every market and every event, and of every history of events.

pub mod answers;
pub mod books;
pub mod charges;
pub mod charging;
pub mod deposits;
pub mod hosting;
pub mod lookup;
pub mod money;
pub mod queue;
pub mod requests;
pub mod screens;
pub mod tenancy;
pub mod texts;
pub mod views;

use vstd::prelude::*;

use crate::api::{CreateRentalRequestView, RegisterRequestView, ReportRequestView};
use crate::billing::{after_mark_offline, evicted, first_dangling, polled, ticked};
use crate::db::{empty_market, rental_pos, AccountRowView, MachineRowView, Market};
use crate::lightning::InvoiceView;
use crate::routes::agent::{
    after_payout, after_register, after_report, heartbeat_effect, payout_refusal, rate_effect,
    rate_refusal, register_refusal, report_refusal, PayoutDue,
};
use crate::routes::caller;
use crate::routes::tenant::{
    account_refusal, after_create_account, after_create_rental, after_deposit, delete_effect,
    invoice_refusal, rental_refusal,
};

verus! {

/// Everything that changes the books.
pub enum Event {
    Register { registration: RegisterRequestView, token: Seq<char>, now: i64 },
    Heartbeat { authorization: Option<Seq<char>>, online: bool, now: i64 },
    Report { authorization: Option<Seq<char>>, report: ReportRequestView, now: i64 },
    Rate { authorization: Option<Seq<char>>, rate: i64 },
    Payout { due: PayoutDue, failure: Option<Seq<char>>, now: i64 },
    CreateAccount { account: Seq<char>, now: i64 },
    Deposit { account: Seq<char>, sats: i64, outcome: Result<InvoiceView, Seq<char>>, now: i64 },
    CreateRental { request: CreateRentalRequestView, period: i64, now: i64 },
    DeleteRental { rental: i64, now: i64 },
    PollInvoices { paid: Seq<Seq<char>>, now: i64 },
    MarkOffline { threshold: int },
    EnforceBudgets { now: i64, timeout: int },
}

/// True when an event is refused. The pass over the budgets never is as a whole.
pub open spec fn refused(m: Market, e: Event) -> bool {
    match e {
        Event::Register { registration: req, token, now } => register_refusal(m, req, token) is Some,
        Event::Heartbeat { authorization, online, now } => caller(m, authorization) is Err,
        Event::Report { authorization, report: req, now } => report_refusal(m, authorization, req, now) is Some,
        Event::Rate { authorization, rate } => rate_refusal(m, authorization, rate) is Some,
        Event::Payout { due, failure, now } => payout_refusal(m, due, failure) is Some,
        Event::CreateAccount { account: id, now } => account_refusal(m, id) is Some,
        Event::Deposit { account: id, sats, outcome, now } => invoice_refusal(m, id, sats, outcome) is Some,
        Event::CreateRental { request: req, period, now } => rental_refusal(m, req) is Some,
        Event::DeleteRental { rental: id, now } => rental_pos(m, id) is None,
        _ => false,
    }
}

/// What an event that is not refused does.
pub open spec fn effect(m: Market, e: Event) -> Market {
    match e {
        Event::Register { registration: req, token, now } => after_register(m, req, token, now),
        Event::Heartbeat { authorization, online, now } => heartbeat_effect(
            m,
            caller(m, authorization)->Ok_0,
            online,
            now,
        ),
        Event::Report { authorization, report: req, now } => after_report(m, authorization, req, now),
        Event::Rate { authorization, rate } => rate_effect(m, caller(m, authorization)->Ok_0, rate),
        Event::Payout { due, failure, now } => after_payout(m, due, now),
        Event::CreateAccount { account: id, now } => after_create_account(m, id, now),
        Event::Deposit { account: id, sats, outcome, now } => after_deposit(m, id, sats, outcome->Ok_0, now),
        Event::CreateRental { request: req, period, now } => after_create_rental(m, req, period, now),
        Event::DeleteRental { rental: id, now } => delete_effect(m, rental_pos(m, id)->0, now),
        Event::PollInvoices { paid, now } => polled(m, paid, 0, now).0,
        Event::MarkOffline { threshold } => after_mark_offline(m, threshold),
        Event::EnforceBudgets { now, timeout } => match first_dangling(m, now as int, timeout) {
            None => evicted(m, m.rentals.len() as int, now, timeout),
            Some(k) => evicted(m, k, now, timeout),
        },
    }
}

/// The market after an event. A refused one changes nothing.
pub open spec fn after(m: Market, e: Event) -> Market {
    if refused(m, e) {
        m
    } else {
        effect(m, e)
    }
}

/// The market after a history of events, from nothing.
pub open spec fn history(events: Seq<Event>) -> Market
    decreases events.len(),
{
    if events.len() == 0 {
        empty_market()
    } else {
        after(history(events.drop_last()), events.last())
    }
}

/// What every market keeps to: keys are unique, rows that are named exist, prices
/// are at least one sat and nobody owes or is owed a negative amount.
pub open spec fn valid(m: Market) -> bool {
    &&& valid_machines(m.machines)
    &&& valid_accounts(m.accounts)
    &&& valid_rentals(m)
    &&& valid_invoices(m)
}

/// Machines: ids rise, tokens and hosts are unique, prices are at least one sat
/// and what is owed is not negative.
pub open spec fn valid_machines(ms: Seq<MachineRowView>) -> bool {
    &&& forall|i: int, j: int|
        #![trigger ms[i], ms[j]]
        0 <= i < j < ms.len() ==> ms[i].id < ms[j].id && ms[i].agent_token != ms[j].agent_token
            && ms[i].host_id != ms[j].host_id
    &&& forall|i: int|
        0 <= i < ms.len() ==> (#[trigger] ms[i]).rate_sats_per_min >= 1 && ms[i].payout_balance >= 0
}

/// Accounts: ids are unique and balances are not negative.
pub open spec fn valid_accounts(s: Seq<AccountRowView>) -> bool {
    &&& forall|i: int, j: int|
        #![trigger s[i], s[j]]
        0 <= i < j < s.len() ==> s[i].id != s[j].id
    &&& forall|i: int| 0 <= i < s.len() ==> (#[trigger] s[i]).balance_sats >= 0
}

/// True when some machine has this id.
pub open spec fn machine_known(ms: Seq<MachineRowView>, id: i64) -> bool {
    exists|i: int| 0 <= i < ms.len() && (#[trigger] ms[i]).id == id
}

/// True when some account has this id.
pub open spec fn account_known(s: Seq<AccountRowView>, id: Seq<char>) -> bool {
    exists|i: int| 0 <= i < s.len() && (#[trigger] s[i]).id == id
}

/// Rentals: ids rise, rates are at least one sat, and machine and account exist.
pub open spec fn valid_rentals(m: Market) -> bool {
    &&& forall|i: int, j: int|
        #![trigger m.rentals[i], m.rentals[j]]
        0 <= i < j < m.rentals.len() ==> m.rentals[i].id < m.rentals[j].id
    &&& forall|i: int|
        0 <= i < m.rentals.len() ==> {
            let r = #[trigger] m.rentals[i];
            r.rate_sats_per_min >= 1 && machine_known(m.machines, r.machine_id) && account_known(
                m.accounts,
                r.account_id,
            )
        }
}

/// Invoices: payment hashes are unique, amounts are at least one sat, and the
/// account exists.
pub open spec fn valid_invoices(m: Market) -> bool {
    &&& forall|i: int, j: int|
        #![trigger m.invoices[i], m.invoices[j]]
        0 <= i < j < m.invoices.len() ==> m.invoices[i].payment_hash != m.invoices[j].payment_hash
    &&& forall|i: int|
        0 <= i < m.invoices.len() ==> {
            let x = #[trigger] m.invoices[i];
            x.sats >= 1 && account_known(m.accounts, x.account_id)
        }
}

/// A pass of the ticker is a poll, a marking and a pass over the budgets, in this
/// order; a poll that fails ends it.
pub proof fn a_tick_is_three_events(m: Market, paid: Seq<Seq<char>>, now: i64, timeout: int)
    ensures
        ({
            let polled_market = after(m, Event::PollInvoices { paid, now });
            let marked = after(polled_market, Event::MarkOffline { threshold: now - timeout });
            ticked(m, paid, now, timeout).0 == if polled(m, paid, 0, now).1 is Some {
                polled_market
            } else {
                after(marked, Event::EnforceBudgets { now, timeout })
            }
        }),
{
}

} // verus!
