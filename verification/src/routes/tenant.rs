//! Tenant-facing handlers: offers, accounts, rentals and health.

use vstd::prelude::*;

use crate::api::{
    offer_views, AccountResponse, AccountResponseView, Command, CommandView, CreateAccountResponse,
    CreateRentalRequest, CreateRentalRequestView, CreateRentalResponse, DeleteRentalResponse,
    DepositRequest, DepositResponse, DepositResponseView, HealthResponse, HealthResponseView, Offer,
    OfferView, OffersResponse, RentalResponse, RentalResponseView,
};
use crate::billing::whole_part;
use crate::db::{
    account_pos, invoice_pos, machine_pos, next_rental_id, occupied, queued, rental_pos, AccountRow,
    AccountRowView, InvoiceRow, InvoiceRowView, MachineRow, MachineRowView, Market, RentalRow,
    RentalRowView, Tables,
};
use crate::error::{refusal, ApiError, ApiErrorView};
use crate::laws::{after, Event};
use crate::lightning::{Invoice, InvoiceView};
use crate::model::{
    http_status_image, is_http_status_image, measure_key, Measure, RentalKind, RentalStatus,
};
use crate::routes::ranking::{rank, ranked_rows, row_numbers};
use crate::state::BillingConfig;
use crate::text::{
    chars_of, copy_opt, decimal, decimal_text, fold, folded, has_infix, opt_text, same_text, stands_at,
    trim, trimmed,
};

verus! {

/// `GET /health`.
pub fn health(ln_backend_name: &str) -> (r: HealthResponse)
    ensures
        r@ == (HealthResponseView { ok: true, ln_backend: ln_backend_name@ }),
{
    HealthResponse { ok: true, ln_backend: ln_backend_name.to_owned() }
}

/// The SSH key that a rental gets: the one sent, without the space around it; no
/// key for an image of the HTTP-status tier; otherwise the key is missing.
pub open spec fn rental_key(req: CreateRentalRequestView) -> Option<Seq<char>> {
    match req.ssh_pubkey {
        Some(k) => if trimmed(k).len() > 0 {
            Some(trimmed(k))
        } else {
            keyless(req.image)
        },
        None => keyless(req.image),
    }
}

/// The empty key, for images that need none.
pub open spec fn keyless(image: Seq<char>) -> Option<Seq<char>> {
    if http_status_image(image) {
        Some(Seq::empty())
    } else {
        None
    }
}

/// The refusal of a rental, if any. The reasons are tried in this order.
pub open spec fn rental_refusal(m: Market, req: CreateRentalRequestView) -> Option<ApiErrorView> {
    match (machine_pos(m, req.machine_id), account_pos(m, req.account_id)) {
        (None, _) => Some(refusal(404, "unknown machine"@)),
        (Some(_), None) => Some(refusal(404, "unknown account"@)),
        (Some(i), Some(a)) => if rental_key(req) is None {
            Some(
                refusal(
                    400,
                    "ssh_pubkey is required for this image (only metal: images may omit it)"@,
                ),
            )
        } else if !m.machines[i].online {
            Some(refusal(409, "machine is offline"@))
        } else if occupied(m, req.machine_id) {
            Some(refusal(409, "machine already rented"@))
        } else if m.accounts[a].balance_sats < m.machines[i].rate_sats_per_min {
            Some(refusal(402, "balance below one minute at the machine's rate"@))
        } else if next_rental_id(m) is None {
            Some(refusal(500, "database error: no rental id is left"@))
        } else {
            None
        },
    }
}

/// The row of a new rental. Its rate is the machine's rate of this moment and
/// stays; nothing is charged yet.
pub open spec fn new_rental(
    m: Market,
    req: CreateRentalRequestView,
    period: i64,
    now: i64,
) -> RentalRowView {
    RentalRowView {
        id: next_rental_id(m)->0,
        machine_id: req.machine_id,
        account_id: req.account_id,
        image: req.image,
        ssh_pubkey: rental_key(req)->0,
        status: RentalStatus::Provisioning,
        kind: RentalKind::Ssh,
        ssh_host: None,
        ssh_port: None,
        container_id: None,
        error: None,
        rate_sats_per_min: m.machines[machine_pos(m, req.machine_id)->0].rate_sats_per_min,
        sats_charged: 0,
        minutes_billed: 0,
        paid_through: (now + period) as i64,
        created_at: now,
        ended_at: None,
    }
}

/// The market after a rental that is not refused: one more rental, and the
/// command to start it in the machine's queue.
pub open spec fn after_create_rental(
    m: Market,
    req: CreateRentalRequestView,
    period: i64,
    now: i64,
) -> Market {
    let r = new_rental(m, req, period, now);
    queued(
        Market { rentals: m.rentals.push(r), ..m },
        req.machine_id,
        CommandView::StartRental { rental_id: r.id, image: req.image, ssh_pubkey: r.ssh_pubkey },
        now,
    )
}

/// The SSH key that a rental gets, or none when it is missing.
fn key_for(req: &CreateRentalRequest) -> (r: Option<String>)
    ensures
        opt_text(r) == rental_key(req@),
{
    if let Some(k) = &req.ssh_pubkey {
        let key = trim(k.as_str());
        if !key.as_str().is_empty() {
            return Some(key);
        }
    }
    if is_http_status_image(req.image.as_str()) {
        let none = String::new();
        proof {
            assert(none@ =~= Seq::empty());
        }
        Some(none)
    } else {
        None
    }
}

/// `POST /rentals`. Nothing is charged at creation: the account must cover one
/// minute, and the whole rental is charged for when it stops.
pub fn create_rental(
    tables: &mut Tables,
    billing: &BillingConfig,
    req: &CreateRentalRequest,
    now: i64,
) -> (r: Result<CreateRentalResponse, ApiError>)
    requires
        i64::MIN <= now + (billing.bill_period as i64) <= i64::MAX,
    ensures
        final(tables)@ == after(
            old(tables)@,
            Event::CreateRental { request: req@, period: billing.bill_period as i64, now },
        ),
        match rental_refusal(old(tables)@, req@) {
            Some(e) => r matches Err(x) && x@ == e && final(tables)@ == old(tables)@,
            None => {
                let row = new_rental(old(tables)@, req@, billing.bill_period as i64, now);
                &&& r == Ok::<CreateRentalResponse, ApiError>(
                    CreateRentalResponse {
                        rental_id: row.id,
                        status: RentalStatus::Provisioning,
                        rate_sats_per_min: row.rate_sats_per_min,
                    },
                )
                &&& final(tables)@ == after_create_rental(
                    old(tables)@,
                    req@,
                    billing.bill_period as i64,
                    now,
                )
            },
        },
        r matches Ok(x) ==> final(tables)@.rentals.len() == old(tables)@.rentals.len() + 1
            && x.rental_id == final(tables)@.rentals.last().id && x.status
            == final(tables)@.rentals.last().status && x.rate_sats_per_min
            == final(tables)@.rentals.last().rate_sats_per_min,
{
    let ghost before = tables@;
    let period: i64 = billing.bill_period_secs();
    let i: usize = match tables.machine_pos(req.machine_id) {
        Some(i) => i,
        None => {
            return Err(ApiError::not_found("unknown machine"));
        },
    };
    let a: usize = match tables.account_pos(req.account_id.as_str()) {
        Some(a) => a,
        None => {
            return Err(ApiError::not_found("unknown account"));
        },
    };
    proof {
        assert(before.machines[i as int] == tables.machines@[i as int]@);
        assert(before.accounts[a as int] == tables.accounts@[a as int]@);
    }
    let ssh_pubkey = match key_for(req) {
        Some(k) => k,
        None => {
            return Err(
                ApiError::bad_request(
                    "ssh_pubkey is required for this image (only metal: images may omit it)",
                ),
            );
        },
    };
    if !tables.machines[i].online {
        return Err(ApiError::conflict("machine is offline"));
    }
    if tables.occupied(req.machine_id) {
        return Err(ApiError::conflict("machine already rented"));
    }
    let rate: i64 = tables.machines[i].rate_sats_per_min;
    if tables.accounts[a].balance_sats < rate {
        return Err(ApiError::payment_required("balance below one minute at the machine's rate"));
    }
    let rental_id: i64 = match tables.next_rental_id() {
        Some(id) => id,
        None => {
            return Err(ApiError::internal("database error: no rental id is left"));
        },
    };
    let row = RentalRow {
        id: rental_id,
        machine_id: req.machine_id,
        account_id: req.account_id.clone(),
        image: req.image.clone(),
        ssh_pubkey: ssh_pubkey.clone(),
        status: RentalStatus::Provisioning,
        kind: RentalKind::Ssh,
        ssh_host: None,
        ssh_port: None,
        container_id: None,
        error: None,
        rate_sats_per_min: rate,
        sats_charged: 0,
        minutes_billed: 0,
        paid_through: now + period,
        created_at: now,
        ended_at: None,
    };
    tables.rentals.push(row);
    proof {
        assert(row@ == new_rental(before, req@, period, now));
        assert(tables@ =~= (Market { rentals: before.rentals.push(row@), ..before }));
    }
    let command = Command::StartRental { rental_id, image: req.image.clone(), ssh_pubkey };
    tables.queue(req.machine_id, command, now);
    Ok(CreateRentalResponse { rental_id, status: RentalStatus::Provisioning, rate_sats_per_min: rate })
}

/// The line by which a tenant logs in, for an SSH box whose host and port are
/// known.
pub open spec fn login_line(r: RentalRowView) -> Option<Seq<char>> {
    match (r.kind, r.ssh_host, r.ssh_port) {
        (RentalKind::Ssh, Some(host), Some(port)) => Some(
            "ssh -p "@ + decimal(port as int) + " root@"@ + host,
        ),
        _ => None,
    }
}

/// What a tenant sees of a rental on a machine.
pub open spec fn rental_reply(r: RentalRowView, h: MachineRowView) -> RentalResponseView {
    RentalResponseView {
        id: r.id,
        machine_id: r.machine_id,
        account_id: r.account_id,
        image: r.image,
        status: r.status,
        kind: r.kind,
        gpu_name: h.gpu_name,
        gpu_count: h.gpu_count as i32,
        ssh_host: r.ssh_host,
        ssh_port: match r.ssh_port {
            Some(p) => Some(p as i32),
            None => None,
        },
        ssh_command: login_line(r),
        rate_sats_per_min: r.rate_sats_per_min,
        sats_charged: r.sats_charged,
        minutes_billed: r.minutes_billed,
        paid_through: r.paid_through,
        error: r.error,
        created_at: r.created_at,
        ended_at: r.ended_at,
    }
}

/// The line by which a tenant logs in.
fn login_text(r: &RentalRow) -> (line: Option<String>)
    ensures
        opt_text(line) == login_line(r@),
{
    match (&r.kind, &r.ssh_host, &r.ssh_port) {
        (RentalKind::Ssh, Some(host), Some(port)) => {
            let mut line = "ssh -p ".to_owned();
            line.push_str(decimal_text(*port).as_str());
            line.push_str(" root@");
            line.push_str(host.as_str());
            Some(line)
        },
        _ => None,
    }
}

/// `GET /rentals/{id}`.
pub fn get_rental(tables: &Tables, id: i64) -> (r: Result<RentalResponse, ApiError>)
    ensures
        match rental_pos(tables@, id) {
            None => r matches Err(x) && x@ == refusal(404, "unknown rental"@),
            Some(j) => match machine_pos(tables@, tables@.rentals[j].machine_id) {
                None => r matches Err(x) && x@ == refusal(
                    500,
                    "database error: the rental's machine is missing"@,
                ),
                Some(i) => r matches Ok(x) && x@ == rental_reply(
                    tables@.rentals[j],
                    tables@.machines[i],
                ),
            },
        },
{
    let j: usize = match tables.rental_pos(id) {
        Some(j) => j,
        None => {
            return Err(ApiError::not_found("unknown rental"));
        },
    };
    proof {
        assert(tables@.rentals[j as int] == tables.rentals@[j as int]@);
    }
    let rental: &RentalRow = &tables.rentals[j];
    let i: usize = match tables.machine_pos(rental.machine_id) {
        Some(i) => i,
        None => {
            return Err(ApiError::internal("database error: the rental's machine is missing"));
        },
    };
    proof {
        assert(tables@.machines[i as int] == tables.machines@[i as int]@);
    }
    Ok(
        RentalResponse {
            id: rental.id,
            machine_id: rental.machine_id,
            account_id: rental.account_id.clone(),
            image: rental.image.clone(),
            status: rental.status,
            kind: rental.kind,
            gpu_name: tables.machines[i].gpu_name.clone(),
            gpu_count: tables.machines[i].gpu_count as i32,
            ssh_host: copy_opt(&rental.ssh_host),
            ssh_port: match rental.ssh_port {
                Some(p) => Some(p as i32),
                None => None,
            },
            ssh_command: login_text(rental),
            rate_sats_per_min: rental.rate_sats_per_min,
            sats_charged: rental.sats_charged,
            minutes_billed: rental.minutes_billed,
            paid_through: rental.paid_through,
            error: copy_opt(&rental.error),
            created_at: rental.created_at,
            ended_at: rental.ended_at,
        },
    )
}

/// True for a rental that is on its way out or gone: asking to stop it changes
/// nothing.
pub open spec fn stopping(status: RentalStatus) -> bool {
    status.ended() || status is Evicting
}

/// The market after a tenant asked to stop the rental of row `j`.
pub open spec fn delete_effect(m: Market, j: int, now: i64) -> Market {
    let r = m.rentals[j];
    if stopping(r.status) {
        m
    } else {
        queued(
            Market {
                rentals: m.rentals.update(
                    j,
                    RentalRowView { status: RentalStatus::Evicting, ..r },
                ),
                ..m
            },
            r.machine_id,
            CommandView::StopRental { rental_id: r.id },
            now,
        )
    }
}

/// `DELETE /rentals/{id}`: starts the eviction and queues the command to stop.
/// Idempotent for rentals that have ended or are being evicted.
pub fn delete_rental(tables: &mut Tables, id: i64, now: i64) -> (r: Result<
    DeleteRentalResponse,
    ApiError,
>)
    ensures
        final(tables)@ == after(old(tables)@, Event::DeleteRental { rental: id, now }),
        match rental_pos(old(tables)@, id) {
            None => r matches Err(x) && x@ == refusal(404, "unknown rental"@) && final(tables)@
                == old(tables)@,
            Some(j) => r == Ok::<DeleteRentalResponse, ApiError>(
                DeleteRentalResponse { rental_id: id, status: final(tables)@.rentals[j].status },
            ) && final(tables)@ == delete_effect(old(tables)@, j, now),
        },
{
    let ghost before = tables@;
    let j: usize = match tables.rental_pos(id) {
        Some(j) => j,
        None => {
            return Err(ApiError::not_found("unknown rental"));
        },
    };
    proof {
        assert(before.rentals[j as int] == tables.rentals@[j as int]@);
    }
    let status: RentalStatus = tables.rentals[j].status;
    if status.is_terminal() || status == RentalStatus::Evicting {
        return Ok(DeleteRentalResponse { rental_id: id, status });
    }
    let machine_id: i64 = tables.rentals[j].machine_id;
    tables.rentals[j].status = RentalStatus::Evicting;
    proof {
        assert(tables@ =~= (Market {
            rentals: before.rentals.update(
                j as int,
                RentalRowView { status: RentalStatus::Evicting, ..before.rentals[j as int] },
            ),
            ..before
        }));
    }
    tables.queue(machine_id, Command::StopRental { rental_id: id }, now);
    Ok(DeleteRentalResponse { rental_id: id, status: RentalStatus::Evicting })
}

/// `POST /accounts`: an account with nothing on it. The id must be new.
pub fn create_account(tables: &mut Tables, id: String, now: i64) -> (r: Result<
    CreateAccountResponse,
    ApiError,
>)
    ensures
        final(tables)@ == after(old(tables)@, Event::CreateAccount { account: id@, now }),
        match account_refusal(old(tables)@, id@) {
            Some(e) => r matches Err(x) && x@ == e && final(tables)@ == old(tables)@,
            None => r matches Ok(x) && x.account_id@ == id@ && final(tables)@
                == after_create_account(old(tables)@, id@, now),
        },
{
    let ghost before = tables@;
    if tables.account_pos(id.as_str()).is_some() {
        return Err(ApiError::internal("database error: the account id is taken"));
    }
    let row = AccountRow { id: id.clone(), balance_sats: 0, created_at: now };
    tables.accounts.push(row);
    proof {
        assert(tables@ =~= after_create_account(before, id@, now));
    }
    Ok(CreateAccountResponse { account_id: id })
}

/// The refusal of a new account, if any.
pub open spec fn account_refusal(m: Market, id: Seq<char>) -> Option<ApiErrorView> {
    if account_pos(m, id) is Some {
        Some(refusal(500, "database error: the account id is taken"@))
    } else {
        None
    }
}

/// The market with one more account.
pub open spec fn after_create_account(m: Market, id: Seq<char>, now: i64) -> Market {
    Market {
        accounts: m.accounts.push(AccountRowView { id, balance_sats: 0, created_at: now }),
        ..m
    }
}

/// What an account's running rentals cost together per minute.
pub open spec fn burn(rentals: Seq<RentalRowView>, account_id: Seq<char>) -> int
    decreases rentals.len(),
{
    if rentals.len() == 0 {
        0
    } else {
        let r = rentals.last();
        burn(rentals.drop_last(), account_id) + if r.account_id == account_id && r.status is Running {
            r.rate_sats_per_min as int
        } else {
            0
        }
    }
}

/// What a tenant sees of an account.
pub open spec fn account_reply(a: AccountRowView, burn: i64) -> AccountResponseView {
    AccountResponseView {
        account_id: a.id,
        balance_sats: a.balance_sats,
        burn_sats_per_min: burn,
        runway_minutes: if burn > 0 {
            Some(whole_part(a.balance_sats as int, burn as int) as i64)
        } else {
            None
        },
    }
}

/// `GET /accounts/{id}`.
pub fn get_account(tables: &Tables, id: &str) -> (r: Result<AccountResponse, ApiError>)
    ensures
        match account_pos(tables@, id@) {
            None => r matches Err(x) && x@ == refusal(404, "unknown account"@),
            Some(a) => {
                let total = burn(tables@.rentals, id@);
                if i64::MIN <= total <= i64::MAX {
                    r matches Ok(x) && x@ == account_reply(tables@.accounts[a], total as i64)
                } else {
                    r matches Err(x) && x@ == refusal(
                        500,
                        "database error: an amount is out of range"@,
                    )
                }
            },
        },
{
    let a: usize = match tables.account_pos(id) {
        Some(a) => a,
        None => {
            return Err(ApiError::not_found("unknown account"));
        },
    };
    proof {
        assert(tables@.accounts[a as int] == tables.accounts@[a as int]@);
    }
    let ghost rows = tables@.rentals;
    let n: usize = tables.rentals.len();
    let mut total: i128 = 0;
    let mut k: usize = 0;
    while k < n
        invariant
            k <= n,
            n == tables.rentals@.len(),
            rows == tables@.rentals,
            total == burn(rows.take(k as int), id@),
            -0x8000_0000_0000_0000 * k <= total <= 0x7fff_ffff_ffff_ffff * k,
        decreases n - k,
    {
        proof {
            let longer = rows.take(k + 1);
            assert(longer.drop_last() =~= rows.take(k as int));
            assert(longer.last() == tables.rentals@[k as int]@);
        }
        if same_text(tables.rentals[k].account_id.as_str(), id) && tables.rentals[k].status
            == RentalStatus::Running {
            total = total + tables.rentals[k].rate_sats_per_min as i128;
        }
        k += 1;
    }
    proof {
        assert(rows.take(n as int) =~= rows);
    }
    if total < i64::MIN as i128 || total > i64::MAX as i128 {
        return Err(ApiError::internal("database error: an amount is out of range"));
    }
    let burn_sats_per_min: i64 = total as i64;
    let balance_sats: i64 = tables.accounts[a].balance_sats;
    let runway_minutes: Option<i64> = if burn_sats_per_min > 0 {
        proof {
            lemma_quotient_fits(balance_sats, burn_sats_per_min);
        }
        Some(balance_sats / burn_sats_per_min)
    } else {
        None
    };
    Ok(
        AccountResponse {
            account_id: tables.accounts[a].id.clone(),
            balance_sats,
            burn_sats_per_min,
            runway_minutes,
        },
    )
}

/// A quotient by a positive number is no larger than the dividend.
proof fn lemma_quotient_fits(n: i64, d: i64)
    requires
        d > 0,
    ensures
        i64::MIN <= whole_part(n as int, d as int) <= i64::MAX,
{
    if n >= 0 {
        vstd::arithmetic::div_mod::lemma_div_is_ordered_by_denominator(n as int, 1, d as int);
        vstd::arithmetic::div_mod::lemma_div_pos_is_pos(n as int, d as int);
    } else {
        vstd::arithmetic::div_mod::lemma_div_is_ordered_by_denominator(-n, 1, d as int);
        vstd::arithmetic::div_mod::lemma_div_pos_is_pos(-n, d as int);
    }
}

/// The memo of a deposit invoice.
pub open spec fn deposit_text(id: Seq<char>) -> Seq<char> {
    "deposit for "@ + id
}

/// The refusal of a deposit before any invoice exists.
pub open spec fn deposit_refusal(m: Market, id: Seq<char>, sats: i64) -> Option<ApiErrorView> {
    if sats < 1 {
        Some(refusal(400, "deposit must be >= 1 sat"@))
    } else if account_pos(m, id) is None {
        Some(refusal(404, "unknown account"@))
    } else {
        None
    }
}

/// The first half of `POST /accounts/{id}/deposit`: the memo of the invoice that
/// is to be created. What became of it is handed to [`deposit`].
pub fn deposit_memo(tables: &Tables, id: &str, req: &DepositRequest) -> (r: Result<
    String,
    ApiError,
>)
    ensures
        match deposit_refusal(tables@, id@, req.sats) {
            Some(e) => r matches Err(x) && x@ == e,
            None => r matches Ok(memo) && memo@ == deposit_text(id@),
        },
{
    if req.sats < 1 {
        return Err(ApiError::bad_request("deposit must be >= 1 sat"));
    }
    if tables.account_pos(id).is_none() {
        return Err(ApiError::not_found("unknown account"));
    }
    let mut memo = "deposit for ".to_owned();
    memo.push_str(id);
    Ok(memo)
}

/// What became of an invoice that was asked for.
pub open spec fn invoice_outcome(r: Result<Invoice, String>) -> Result<InvoiceView, Seq<char>> {
    match r {
        Ok(i) => Ok(i@),
        Err(e) => Err(e@),
    }
}

/// The refusal of a deposit, given what became of its invoice.
pub open spec fn invoice_refusal(
    m: Market,
    id: Seq<char>,
    sats: i64,
    outcome: Result<InvoiceView, Seq<char>>,
) -> Option<ApiErrorView> {
    match deposit_refusal(m, id, sats) {
        Some(e) => Some(e),
        None => match outcome {
            Err(e) => Some(refusal(502, "invoice creation failed: "@ + e)),
            Ok(i) => if invoice_pos(m, i.payment_hash) is Some {
                Some(refusal(500, "database error: the payment hash is taken"@))
            } else {
                None
            },
        },
    }
}

/// The market with one more unpaid invoice.
pub open spec fn after_deposit(
    m: Market,
    id: Seq<char>,
    sats: i64,
    invoice: InvoiceView,
    now: i64,
) -> Market {
    Market {
        invoices: m.invoices.push(
            InvoiceRowView {
                payment_hash: invoice.payment_hash,
                account_id: id,
                sats,
                bolt11: invoice.bolt11,
                settled: false,
                created_at: now,
            },
        ),
        ..m
    }
}

/// `POST /accounts/{id}/deposit`, given what became of the invoice. The balance
/// grows only once the invoice is paid.
pub fn deposit(
    tables: &mut Tables,
    id: &str,
    req: &DepositRequest,
    outcome: Result<Invoice, String>,
    now: i64,
) -> (r: Result<DepositResponse, ApiError>)
    ensures
        final(tables)@ == after(
            old(tables)@,
            Event::Deposit {
                account: id@,
                sats: req.sats,
                outcome: invoice_outcome(outcome),
                now,
            },
        ),
        match invoice_refusal(old(tables)@, id@, req.sats, invoice_outcome(outcome)) {
            Some(e) => r matches Err(x) && x@ == e && final(tables)@ == old(tables)@,
            None => {
                let invoice = invoice_outcome(outcome)->Ok_0;
                &&& r matches Ok(x)
                &&& x@ == (DepositResponseView {
                    bolt11: invoice.bolt11,
                    payment_hash: invoice.payment_hash,
                    sats: req.sats,
                })
                &&& final(tables)@ == after_deposit(old(tables)@, id@, req.sats, invoice, now)
            },
        },
{
    let ghost before = tables@;
    if let Err(e) = deposit_memo(tables, id, req) {
        return Err(e);
    }
    let invoice = match outcome {
        Ok(i) => i,
        Err(e) => {
            let mut message = "invoice creation failed: ".to_owned();
            message.push_str(e.as_str());
            return Err(ApiError::bad_gateway(message.as_str()));
        },
    };
    if tables.invoice_pos(invoice.payment_hash.as_str()).is_some() {
        return Err(ApiError::internal("database error: the payment hash is taken"));
    }
    let row = InvoiceRow {
        payment_hash: invoice.payment_hash.clone(),
        account_id: id.to_owned(),
        sats: req.sats,
        bolt11: invoice.bolt11.clone(),
        settled: false,
        created_at: now,
    };
    tables.invoices.push(row);
    proof {
        assert(tables@ =~= after_deposit(before, id@, req.sats, invoice@, now));
    }
    Ok(
        DepositResponse {
            bolt11: invoice.bolt11,
            payment_hash: invoice.payment_hash,
            sats: req.sats,
        },
    )
}

/// A status in single quotes.
pub open spec fn quoted(s: RentalStatus) -> Seq<char> {
    "'"@ + s.name() + "'"@
}

/// The occupying ones among some statuses as a list for a query.
pub open spec fn occupying_list(ss: Seq<RentalStatus>) -> Seq<char>
    decreases ss.len(),
{
    if ss.len() == 0 {
        Seq::empty()
    } else {
        let head = occupying_list(ss.drop_last());
        if !ss.last().occupies() {
            head
        } else if head.len() == 0 {
            quoted(ss.last())
        } else {
            head + ","@ + quoted(ss.last())
        }
    }
}

/// The occupying statuses as a list for a query.
pub fn occupying_in_list() -> (r: String)
    ensures
        r@ == occupying_list(RentalStatus::ALL@),
{
    let all: [RentalStatus; 5] = RentalStatus::ALL;
    let mut out = String::new();
    let mut k: usize = 0;
    proof {
        assert(out@ =~= occupying_list(all@.take(0)));
    }
    while k < 5
        invariant
            k <= 5,
            all@ == RentalStatus::ALL@,
            all@.len() == 5,
            out@ == occupying_list(all@.take(k as int)),
        decreases 5 - k,
    {
        proof {
            assert(all@.take(k + 1).drop_last() =~= all@.take(k as int));
        }
        if all[k].occupies_machine() {
            if !out.as_str().is_empty() {
                out.push_str(",");
            }
            out.push_str("'");
            out.push_str(all[k].as_str());
            out.push_str("'");
            proof {
                let head = occupying_list(all@.take(k as int));
                let item = quoted(all@[k as int]);
                assert(out@ =~= if head.len() == 0 { item } else { head + ","@ + item });
            }
        }
        k += 1;
    }
    proof {
        assert(all@.take(5) =~= all@);
    }
    out
}

/// What a tenant asks of the offer index.
#[derive(Debug, Clone, PartialEq, Eq)]
pub struct OffersQuery {
    pub gpu_name: Option<String>,
    pub min_vram_mb: Option<i64>,
    pub min_gpu_count: Option<i64>,
    pub max_rate_sats_per_min: Option<i64>,
    pub sort: Option<String>,
    pub limit: Option<i64>,
}

/// The orders in which offers can be listed.
#[derive(Debug, Clone, Copy, PartialEq, Eq, Structural)]
pub enum OfferOrder {
    /// Cheapest first.
    Rate,
    /// Fastest first.
    Dlperf,
    /// Fewest sats per unit of performance first.
    Value,
}

/// The order that a query asks for; value unless it names another.
pub open spec fn offer_order(sort: Option<Seq<char>>) -> OfferOrder {
    if sort == Some("rate"@) {
        OfferOrder::Rate
    } else if sort == Some("dlperf"@) {
        OfferOrder::Dlperf
    } else {
        OfferOrder::Value
    }
}

/// The largest number of offers in one answer: two hundred, or fewer if so asked,
/// but never fewer than one.
pub open spec fn offer_limit(limit: Option<i64>) -> int {
    match limit {
        None => 200,
        Some(l) => if l < 1 {
            1
        } else if l > 200 {
            200
        } else {
            l as int
        },
    }
}

impl OffersQuery {
    /// The order that the query asks for.
    pub fn order(&self) -> (r: OfferOrder)
        ensures
            r == offer_order(opt_text(self.sort)),
    {
        match &self.sort {
            Some(s) => if same_text(s.as_str(), "rate") {
                OfferOrder::Rate
            } else if same_text(s.as_str(), "dlperf") {
                OfferOrder::Dlperf
            } else {
                OfferOrder::Value
            },
            None => OfferOrder::Value,
        }
    }

    /// The largest number of offers in the answer.
    pub fn answer_limit(&self) -> (r: usize)
        ensures
            r == offer_limit(self.limit),
    {
        match self.limit {
            None => 200,
            Some(l) => if l < 1 {
                1
            } else if l > 200 {
                200
            } else {
                l as usize
            },
        }
    }
}

/// True when a machine is on offer: online, idle and within the query's bounds.
pub open spec fn on_offer(m: Market, h: MachineRowView, q: OffersQuery) -> bool {
    &&& h.online
    &&& !occupied(m, h.id)
    &&& q.gpu_name matches Some(name) ==> holds_name(h.gpu_name, name@)
    &&& q.min_vram_mb matches Some(v) ==> h.vram_mb >= v
    &&& q.min_gpu_count matches Some(c) ==> h.gpu_count >= c
    &&& q.max_rate_sats_per_min matches Some(r) ==> h.rate_sats_per_min <= r
}

/// The offer of a machine.
pub open spec fn offer_of(h: MachineRowView) -> OfferView {
    OfferView {
        machine_id: h.id,
        gpu_name: h.gpu_name,
        gpu_count: h.gpu_count as i32,
        vram_mb: h.vram_mb,
        cpu_name: h.cpu_name,
        cpu_cores: h.cpu_cores as i32,
        ram_mb: h.ram_mb,
        disk_gb: h.disk_gb,
        disk_type: h.disk_type,
        public_ip: h.public_ip,
        country: h.country,
        inet_down_mbps: h.inet_down_mbps,
        inet_up_mbps: h.inet_up_mbps,
        dlperf: h.dlperf,
        rate_sats_per_min: h.rate_sats_per_min,
        rate_sats_per_hour: (h.rate_sats_per_min * 60) as i64,
    }
}

/// The offer of a machine whose price per hour is a 64-bit number.
pub fn machine_to_offer(h: &MachineRow) -> (r: Offer)
    requires
        i64::MIN <= h.rate_sats_per_min * 60 <= i64::MAX,
    ensures
        r@ == offer_of(h@),
{
    Offer {
        machine_id: h.id,
        gpu_name: h.gpu_name.clone(),
        gpu_count: h.gpu_count as i32,
        vram_mb: h.vram_mb,
        cpu_name: h.cpu_name.clone(),
        cpu_cores: h.cpu_cores as i32,
        ram_mb: h.ram_mb,
        disk_gb: h.disk_gb,
        disk_type: h.disk_type,
        public_ip: h.public_ip.clone(),
        country: copy_opt(&h.country),
        inet_down_mbps: h.inet_down_mbps,
        inet_up_mbps: h.inet_up_mbps,
        dlperf: h.dlperf,
        rate_sats_per_min: h.rate_sats_per_min,
        rate_sats_per_hour: h.rate_sats_per_min * 60,
    }
}

/// The key by which a machine ranks in an order, smallest first: its price, its
/// performance with the sign turned, or its value, which is its price per unit of
/// performance.
pub open spec fn offer_key(h: MachineRowView, value: Measure, order: OfferOrder) -> i64 {
    match order {
        OfferOrder::Rate => h.rate_sats_per_min,
        OfferOrder::Dlperf => (-measure_key(h.dlperf)) as i64,
        OfferOrder::Value => measure_key(value),
    }
}

/// The keys of all machines for the order that a query asks for. `values` holds the
/// value of each machine.
pub open spec fn offer_keys(m: Market, values: Seq<Measure>, q: OffersQuery) -> Seq<i64> {
    Seq::new(
        m.machines.len(),
        |i: int| offer_key(m.machines[i], values[i], offer_order(opt_text(q.sort))),
    )
}

/// The rows of the machines on offer among those given, in the same order.
pub open spec fn rows_on_offer(m: Market, rows: Seq<int>, q: OffersQuery) -> Seq<int> {
    rows.filter(|i: int| on_offer(m, m.machines[i], q))
}

/// The first `n` items of a list, or all of it where it is shorter.
pub open spec fn first_few<T>(s: Seq<T>, n: int) -> Seq<T> {
    if s.len() <= n {
        s
    } else {
        s.take(n)
    }
}

/// The rows of the machines that a query is answered with: of all machines, ranked
/// in the order that the query asks for, the first few that are on offer.
pub open spec fn answer_rows(m: Market, values: Seq<Measure>, q: OffersQuery) -> Seq<int> {
    first_few(
        rows_on_offer(m, ranked_rows(offer_keys(m, values, q)), q),
        offer_limit(q.limit),
    )
}

/// True when the price per hour of each of these machines is a 64-bit number.
pub open spec fn hourly_rates_fit(m: Market, rows: Seq<int>) -> bool {
    forall|k: int|
        0 <= k < rows.len() ==> i64::MIN <= m.machines[#[trigger] rows[k]].rate_sats_per_min * 60
            <= i64::MAX
}

/// The machines in the order that a query asks for. `values` holds for each machine
/// its price per unit of performance.
fn rank_machines(tables: &Tables, values: &Vec<Measure>, q: &OffersQuery) -> (r: Vec<usize>)
    requires
        values@.len() == tables.machines@.len(),
    ensures
        row_numbers(r@) == ranked_rows(offer_keys(tables@, values@, *q)),
        forall|k: int| 0 <= k < r@.len() ==> #[trigger] r@[k] < tables.machines@.len(),
{
    let ghost m = tables@;
    let order = q.order();
    let mut keys: Vec<i64> = Vec::new();
    let mut i: usize = 0;
    while i < tables.machines.len()
        invariant
            i <= tables.machines@.len(),
            values@.len() == tables.machines@.len(),
            m == tables@,
            order == offer_order(opt_text(q.sort)),
            keys@ == offer_keys(m, values@, *q).take(i as int),
        decreases tables.machines@.len() - i,
    {
        let row: &MachineRow = &tables.machines[i];
        proof {
            assert(m.machines[i as int] == row@);
        }
        let key: i64 = match order {
            OfferOrder::Rate => row.rate_sats_per_min,
            OfferOrder::Dlperf => -row.dlperf.key(),
            OfferOrder::Value => values[i].key(),
        };
        keys.push(key);
        proof {
            assert(keys@ =~= offer_keys(m, values@, *q).take(i + 1));
        }
        i += 1;
    }
    proof {
        assert(keys@ =~= offer_keys(m, values@, *q));
    }
    rank(&keys)
}

/// The machines that a query is answered with: those that are online, idle and
/// within the query's bounds, in the order that it asks for, up to its limit.
/// `values` holds for each machine its price per unit of performance.
pub fn select_offers(tables: &Tables, values: &Vec<Measure>, q: &OffersQuery) -> (r: Vec<usize>)
    requires
        values@.len() == tables.machines@.len(),
    ensures
        row_numbers(r@) == answer_rows(tables@, values@, *q),
        forall|k: int| 0 <= k < r@.len() ==> #[trigger] r@[k] < tables.machines@.len(),
{
    let limit: usize = q.answer_limit();
    let ranked = rank_machines(tables, values, q);
    let ghost m = tables@;
    let ghost rows = row_numbers(ranked@);
    let ghost p = |i: int| on_offer(m, m.machines[i], *q);
    let mut out: Vec<usize> = Vec::new();
    let mut k: usize = 0;
    proof {
        reveal(Seq::filter);
        assert(rows.take(0).filter(p) =~= Seq::empty());
        assert(row_numbers(out@) =~= rows_on_offer(m, rows.take(0), *q));
    }
    while k < ranked.len() && out.len() < limit
        invariant
            k <= ranked@.len(),
            m == tables@,
            rows == row_numbers(ranked@),
            p == (|i: int| on_offer(m, m.machines[i], *q)),
            limit == offer_limit(q.limit),
            out@.len() <= limit,
            row_numbers(out@) == rows_on_offer(m, rows.take(k as int), *q),
            forall|j: int| 0 <= j < ranked@.len() ==> #[trigger] ranked@[j] < tables.machines@.len(),
            forall|j: int| 0 <= j < out@.len() ==> #[trigger] out@[j] < tables.machines@.len(),
        decreases ranked@.len() - k,
    {
        let i: usize = ranked[k];
        let ghost head = rows.take(k as int);
        let ghost longer = rows.take(k + 1);
        proof {
            reveal(Seq::filter);
            assert(longer.drop_last() =~= head);
            assert(longer.last() == i);
            assert(longer.filter(p) == if p(i as int) {
                head.filter(p).push(i as int)
            } else {
                head.filter(p)
            });
        }
        let row: &MachineRow = &tables.machines[i];
        proof {
            assert(m.machines[i as int] == row@);
        }
        let name_ok: bool = match &q.gpu_name {
            Some(name) => name_matches(row.gpu_name.as_str(), name.as_str()),
            None => true,
        };
        let vram_ok: bool = match q.min_vram_mb {
            Some(v) => row.vram_mb >= v,
            None => true,
        };
        let count_ok: bool = match q.min_gpu_count {
            Some(c) => row.gpu_count >= c,
            None => true,
        };
        let rate_ok: bool = match q.max_rate_sats_per_min {
            Some(r) => row.rate_sats_per_min <= r,
            None => true,
        };
        if row.online && name_ok && vram_ok && count_ok && rate_ok && !tables.occupied(row.id) {
            let ghost shown = row_numbers(out@);
            out.push(i);
            proof {
                assert(row_numbers(out@) =~= shown.push(i as int));
            }
        }
        k += 1;
    }
    proof {
        lemma_rows_of_longer(m, rows, k as int, *q);
        if k == ranked@.len() {
            assert(rows.take(k as int) =~= rows);
        }
        assert(row_numbers(out@) =~= first_few(rows_on_offer(m, rows, *q), limit as int));
    }
    out
}

/// The rows on offer among the first few are the first few rows on offer.
proof fn lemma_rows_of_longer(m: Market, rows: Seq<int>, k: int, q: OffersQuery)
    requires
        0 <= k <= rows.len(),
    ensures
        rows_on_offer(m, rows.take(k), q).len() <= rows_on_offer(m, rows, q).len(),
        rows_on_offer(m, rows.take(k), q) == rows_on_offer(m, rows, q).take(
            rows_on_offer(m, rows.take(k), q).len() as int,
        ),
{
    let p = |i: int| on_offer(m, m.machines[i], q);
    let head = rows.take(k);
    let tail = rows.skip(k);
    assert(head + tail =~= rows);
    Seq::filter_distributes_over_add(head, tail, p);
    assert(rows_on_offer(m, rows, q).take(rows_on_offer(m, head, q).len() as int)
        =~= rows_on_offer(m, head, q));
}

/// Tells whether the price per hour of each of these machines is a 64-bit number.
pub fn rates_fit(tables: &Tables, rows: &Vec<usize>) -> (r: bool)
    requires
        forall|k: int| 0 <= k < rows@.len() ==> #[trigger] rows@[k] < tables.machines@.len(),
    ensures
        r == hourly_rates_fit(tables@, row_numbers(rows@)),
{
    let ghost m = tables@;
    let ghost ns = row_numbers(rows@);
    let mut k: usize = 0;
    while k < rows.len()
        invariant
            k <= rows@.len(),
            m == tables@,
            ns == row_numbers(rows@),
            forall|j: int| 0 <= j < rows@.len() ==> #[trigger] rows@[j] < tables.machines@.len(),
            forall|j: int|
                0 <= j < k ==> i64::MIN <= m.machines[#[trigger] ns[j]].rate_sats_per_min * 60
                    <= i64::MAX,
        decreases rows@.len() - k,
    {
        let i: usize = rows[k];
        proof {
            assert(ns[k as int] == i);
            assert(m.machines[i as int] == tables.machines@[i as int]@);
        }
        let hourly: i128 = tables.machines[i].rate_sats_per_min as i128 * 60;
        if hourly < i64::MIN as i128 || hourly > i64::MAX as i128 {
            return false;
        }
        k += 1;
    }
    true
}

/// `GET /offers`: the offers of the machines that [`select_offers`] selects.
/// `values` holds for each machine its price per unit of performance.
pub fn offers(tables: &Tables, values: &Vec<Measure>, q: &OffersQuery) -> (r: OffersResponse)
    requires
        values@.len() == tables.machines@.len(),
        hourly_rates_fit(tables@, answer_rows(tables@, values@, *q)),
    ensures
        offer_views(r.offers@) == answer_rows(tables@, values@, *q).map_values(
            |i: int| offer_of(tables@.machines[i]),
        ),
{
    let rows = select_offers(tables, values, q);
    let ghost m = tables@;
    let ghost ns = row_numbers(rows@);
    let mut out: Vec<Offer> = Vec::new();
    let mut k: usize = 0;
    while k < rows.len()
        invariant
            k <= rows@.len(),
            m == tables@,
            ns == row_numbers(rows@),
            hourly_rates_fit(m, ns),
            forall|j: int| 0 <= j < rows@.len() ==> #[trigger] rows@[j] < tables.machines@.len(),
            out@.len() == k,
            forall|j: int| 0 <= j < k ==> (#[trigger] out@[j])@ == offer_of(m.machines[ns[j]]),
        decreases rows@.len() - k,
    {
        let i: usize = rows[k];
        proof {
            assert(ns[k as int] == i);
            assert(m.machines[i as int] == tables.machines@[i as int]@);
        }
        out.push(machine_to_offer(&tables.machines[i]));
        k += 1;
    }
    proof {
        assert(offer_views(out@) =~= ns.map_values(|i: int| offer_of(m.machines[i])));
    }
    OffersResponse { offers: out }
}

/// True when two characters differ at most in the case of an ASCII letter.
pub open spec fn same_letter(a: char, b: char) -> bool {
    folded(a) == folded(b)
}

fn letters_agree(a: char, b: char) -> (r: bool)
    ensures
        r == same_letter(a, b),
{
    let x: u32 = if 'A' <= a && a <= 'Z' { a as u32 + 32 } else { a as u32 };
    let y: u32 = if 'A' <= b && b <= 'Z' { b as u32 + 32 } else { b as u32 };
    x == y
}

/// True when a text holds a name as one of its parts, whatever the case of the ASCII
/// letters.
pub open spec fn holds_name(text: Seq<char>, name: Seq<char>) -> bool {
    has_infix(fold(text), fold(name))
}

fn name_at(text: &Vec<char>, name: &Vec<char>, at: usize) -> (r: bool)
    requires
        at + name@.len() <= text@.len(),
    ensures
        r == stands_at(fold(text@), fold(name@), at as int),
{
    let ghost t = fold(text@);
    let ghost n = fold(name@);
    let ghost part = t.subrange(at as int, at + n.len());
    let len: usize = text.len();
    let mut j: usize = 0;
    while j < name.len()
        invariant
            j <= name@.len(),
            at + name@.len() <= text@.len(),
            text@.len() == len,
            t == fold(text@),
            n == fold(name@),
            part == t.subrange(at as int, at + n.len()),
            forall|k: int| 0 <= k < j ==> #[trigger] part[k] == n[k],
        decreases name@.len() - j,
    {
        proof {
            assert(part[j as int] == folded(text@[at + j]));
            assert(n[j as int] == folded(name@[j as int]));
        }
        if !letters_agree(text[at + j], name[j]) {
            return false;
        }
        j += 1;
    }
    proof {
        assert(part =~= n);
    }
    true
}

/// Tells whether a text holds a name, in whatever case.
pub fn name_matches(text: &str, name: &str) -> (r: bool)
    ensures
        r == holds_name(text@, name@),
{
    let t = chars_of(text);
    let n = chars_of(name);
    if n.len() > t.len() {
        proof {
            assert forall|i: int| !#[trigger] stands_at(fold(text@), fold(name@), i) by {}
        }
        return false;
    }
    let last: usize = t.len() - n.len();
    let mut at: usize = 0;
    while at <= last
        invariant
            at <= last + 1,
            t@ == text@,
            n@ == name@,
            last + n@.len() == t@.len(),
            t@.len() <= usize::MAX,
            forall|i: int| 0 <= i < at ==> !#[trigger] stands_at(fold(text@), fold(name@), i),
        decreases last + 1 - at,
    {
        if name_at(&t, &n, at) {
            return true;
        }
        if at == last {
            return false;
        }
        at += 1;
    }
    false
}

} // verus!
