//! The books: row types, the tables that hold them, lookups, and the one way in
//! which the ledger is written.
//!
//! [`Tables`] is the executable form and [`Market`] its mathematical view. Every
//! rule of the marketplace is stated as a function on [`Market`].

use vstd::prelude::*;

use crate::api::{Command, CommandView};
use crate::error::{refusal, ApiError, ApiErrorView};
use crate::model::{DiskType, LedgerKind, Measure, RentalKind, RentalStatus};
use crate::text::{opt_text, same_text};

verus! {

/// A registered host. It is on offer while it is online and idle.
#[derive(Debug, Clone, PartialEq, Eq)]
pub struct MachineRow {
    pub id: i64,
    pub agent_token: String,
    pub host_id: String,
    pub gpu_name: String,
    pub gpu_count: i64,
    pub vram_mb: i64,
    pub cpu_name: String,
    pub cpu_cores: i64,
    pub ram_mb: i64,
    pub disk_gb: i64,
    pub disk_type: DiskType,
    pub public_ip: String,
    pub port_start: i64,
    pub port_end: i64,
    pub inet_down_mbps: Option<Measure>,
    pub inet_up_mbps: Option<Measure>,
    pub country: Option<String>,
    pub dlperf: Measure,
    pub rate_sats_per_min: i64,
    /// Sats owed to this host.
    pub payout_balance: i64,
    pub online: bool,
    pub last_heartbeat: i64,
    pub hw_fingerprint: String,
    pub created_at: i64,
}

/// What [`MachineRow`] holds, with its texts as character sequences.
#[verifier::ext_equal]
pub struct MachineRowView {
    pub id: i64,
    pub agent_token: Seq<char>,
    pub host_id: Seq<char>,
    pub gpu_name: Seq<char>,
    pub gpu_count: i64,
    pub vram_mb: i64,
    pub cpu_name: Seq<char>,
    pub cpu_cores: i64,
    pub ram_mb: i64,
    pub disk_gb: i64,
    pub disk_type: DiskType,
    pub public_ip: Seq<char>,
    pub port_start: i64,
    pub port_end: i64,
    pub inet_down_mbps: Option<Measure>,
    pub inet_up_mbps: Option<Measure>,
    pub country: Option<Seq<char>>,
    pub dlperf: Measure,
    pub rate_sats_per_min: i64,
    pub payout_balance: i64,
    pub online: bool,
    pub last_heartbeat: i64,
    pub hw_fingerprint: Seq<char>,
    pub created_at: i64,
}

impl View for MachineRow {
    type V = MachineRowView;

    open spec fn view(&self) -> MachineRowView {
        MachineRowView {
            id: self.id,
            agent_token: self.agent_token@,
            host_id: self.host_id@,
            gpu_name: self.gpu_name@,
            gpu_count: self.gpu_count,
            vram_mb: self.vram_mb,
            cpu_name: self.cpu_name@,
            cpu_cores: self.cpu_cores,
            ram_mb: self.ram_mb,
            disk_gb: self.disk_gb,
            disk_type: self.disk_type,
            public_ip: self.public_ip@,
            port_start: self.port_start,
            port_end: self.port_end,
            inet_down_mbps: self.inet_down_mbps,
            inet_up_mbps: self.inet_up_mbps,
            country: opt_text(self.country),
            dlperf: self.dlperf,
            rate_sats_per_min: self.rate_sats_per_min,
            payout_balance: self.payout_balance,
            online: self.online,
            last_heartbeat: self.last_heartbeat,
            hw_fingerprint: self.hw_fingerprint@,
            created_at: self.created_at,
        }
    }
}

/// A rental of one machine by one account.
#[derive(Debug, Clone, PartialEq, Eq)]
pub struct RentalRow {
    pub id: i64,
    pub machine_id: i64,
    pub account_id: String,
    pub image: String,
    pub ssh_pubkey: String,
    pub status: RentalStatus,
    pub kind: RentalKind,
    pub ssh_host: Option<String>,
    pub ssh_port: Option<i64>,
    pub container_id: Option<String>,
    pub error: Option<String>,
    /// Fixed when the rental is created.
    pub rate_sats_per_min: i64,
    pub sats_charged: i64,
    pub minutes_billed: i64,
    pub paid_through: i64,
    pub created_at: i64,
    pub ended_at: Option<i64>,
}

/// What [`RentalRow`] holds, with its texts as character sequences.
#[verifier::ext_equal]
pub struct RentalRowView {
    pub id: i64,
    pub machine_id: i64,
    pub account_id: Seq<char>,
    pub image: Seq<char>,
    pub ssh_pubkey: Seq<char>,
    pub status: RentalStatus,
    pub kind: RentalKind,
    pub ssh_host: Option<Seq<char>>,
    pub ssh_port: Option<i64>,
    pub container_id: Option<Seq<char>>,
    pub error: Option<Seq<char>>,
    pub rate_sats_per_min: i64,
    pub sats_charged: i64,
    pub minutes_billed: i64,
    pub paid_through: i64,
    pub created_at: i64,
    pub ended_at: Option<i64>,
}

impl View for RentalRow {
    type V = RentalRowView;

    open spec fn view(&self) -> RentalRowView {
        RentalRowView {
            id: self.id,
            machine_id: self.machine_id,
            account_id: self.account_id@,
            image: self.image@,
            ssh_pubkey: self.ssh_pubkey@,
            status: self.status,
            kind: self.kind,
            ssh_host: opt_text(self.ssh_host),
            ssh_port: self.ssh_port,
            container_id: opt_text(self.container_id),
            error: opt_text(self.error),
            rate_sats_per_min: self.rate_sats_per_min,
            sats_charged: self.sats_charged,
            minutes_billed: self.minutes_billed,
            paid_through: self.paid_through,
            created_at: self.created_at,
            ended_at: self.ended_at,
        }
    }
}

/// A tenant's prepaid account.
#[derive(Debug, Clone, PartialEq, Eq)]
pub struct AccountRow {
    pub id: String,
    pub balance_sats: i64,
    pub created_at: i64,
}

/// What [`AccountRow`] holds, with its texts as character sequences.
#[verifier::ext_equal]
pub struct AccountRowView {
    pub id: Seq<char>,
    pub balance_sats: i64,
    pub created_at: i64,
}

impl View for AccountRow {
    type V = AccountRowView;

    open spec fn view(&self) -> AccountRowView {
        AccountRowView {
            id: self.id@,
            balance_sats: self.balance_sats,
            created_at: self.created_at,
        }
    }
}

/// A deposit invoice.
#[derive(Debug, Clone, PartialEq, Eq)]
pub struct InvoiceRow {
    pub payment_hash: String,
    pub account_id: String,
    pub sats: i64,
    pub bolt11: String,
    pub settled: bool,
    pub created_at: i64,
}

/// What [`InvoiceRow`] holds, with its texts as character sequences.
#[verifier::ext_equal]
pub struct InvoiceRowView {
    pub payment_hash: Seq<char>,
    pub account_id: Seq<char>,
    pub sats: i64,
    pub bolt11: Seq<char>,
    pub settled: bool,
    pub created_at: i64,
}

impl View for InvoiceRow {
    type V = InvoiceRowView;

    open spec fn view(&self) -> InvoiceRowView {
        InvoiceRowView {
            payment_hash: self.payment_hash@,
            account_id: self.account_id@,
            sats: self.sats,
            bolt11: self.bolt11@,
            settled: self.settled,
            created_at: self.created_at,
        }
    }
}

/// One entry of the append-only audit trail.
#[derive(Debug, Clone, PartialEq, Eq)]
pub struct LedgerRow {
    pub ts: i64,
    pub kind: LedgerKind,
    pub delta_sats: i64,
    pub account_id: Option<String>,
    pub machine_id: Option<i64>,
    pub rental_id: Option<i64>,
    pub note: Option<String>,
}

/// What [`LedgerRow`] holds, with its texts as character sequences.
#[verifier::ext_equal]
pub struct LedgerRowView {
    pub ts: i64,
    pub kind: LedgerKind,
    pub delta_sats: i64,
    pub account_id: Option<Seq<char>>,
    pub machine_id: Option<i64>,
    pub rental_id: Option<i64>,
    pub note: Option<Seq<char>>,
}

impl View for LedgerRow {
    type V = LedgerRowView;

    open spec fn view(&self) -> LedgerRowView {
        LedgerRowView {
            ts: self.ts,
            kind: self.kind,
            delta_sats: self.delta_sats,
            account_id: opt_text(self.account_id),
            machine_id: self.machine_id,
            rental_id: self.rental_id,
            note: opt_text(self.note),
        }
    }
}

/// An instruction that waits for a heartbeat, or has been delivered by one.
#[derive(Debug, Clone, PartialEq, Eq)]
pub struct CommandRow {
    pub machine_id: i64,
    pub payload: Command,
    pub delivered: bool,
    pub created_at: i64,
}

/// What [`CommandRow`] holds, with its texts as character sequences.
#[verifier::ext_equal]
pub struct CommandRowView {
    pub machine_id: i64,
    pub payload: CommandView,
    pub delivered: bool,
    pub created_at: i64,
}

impl View for CommandRow {
    type V = CommandRowView;

    open spec fn view(&self) -> CommandRowView {
        CommandRowView {
            machine_id: self.machine_id,
            payload: self.payload@,
            delivered: self.delivered,
            created_at: self.created_at,
        }
    }
}

/// All that the control plane stores. Each table is in the order of insertion.
#[derive(Debug, Clone, PartialEq, Eq)]
pub struct Tables {
    pub machines: Vec<MachineRow>,
    pub accounts: Vec<AccountRow>,
    pub rentals: Vec<RentalRow>,
    pub invoices: Vec<InvoiceRow>,
    pub ledger: Vec<LedgerRow>,
    pub commands: Vec<CommandRow>,
}

/// The contents of [`Tables`] as mathematical sequences.
#[verifier::ext_equal]
pub struct Market {
    pub machines: Seq<MachineRowView>,
    pub accounts: Seq<AccountRowView>,
    pub rentals: Seq<RentalRowView>,
    pub invoices: Seq<InvoiceRowView>,
    pub ledger: Seq<LedgerRowView>,
    pub commands: Seq<CommandRowView>,
}

impl View for Tables {
    type V = Market;

    open spec fn view(&self) -> Market {
        Market {
            machines: self.machines@.map_values(|x: MachineRow| x@),
            accounts: self.accounts@.map_values(|x: AccountRow| x@),
            rentals: self.rentals@.map_values(|x: RentalRow| x@),
            invoices: self.invoices@.map_values(|x: InvoiceRow| x@),
            ledger: self.ledger@.map_values(|x: LedgerRow| x@),
            commands: self.commands@.map_values(|x: CommandRow| x@),
        }
    }
}

/// The market with nothing in it.
pub open spec fn empty_market() -> Market {
    Market {
        machines: Seq::empty(),
        accounts: Seq::empty(),
        rentals: Seq::empty(),
        invoices: Seq::empty(),
        ledger: Seq::empty(),
        commands: Seq::empty(),
    }
}

/// The position of the first item that satisfies `p`.
pub open spec fn position<T>(s: Seq<T>, p: spec_fn(T) -> bool) -> Option<int>
    decreases s.len(),
{
    if s.len() == 0 {
        None
    } else {
        match position(s.drop_last(), p) {
            Some(i) => Some(i),
            None => if p(s.last()) { Some(s.len() - 1) } else { None },
        }
    }
}

/// What a position means: the item there satisfies `p` and none before it does.
pub proof fn lemma_position<T>(s: Seq<T>, p: spec_fn(T) -> bool)
    ensures
        match position(s, p) {
            Some(i) => 0 <= i < s.len() && p(s[i]) && forall|j: int| 0 <= j < i ==> !p(#[trigger] s[j]),
            None => forall|j: int| 0 <= j < s.len() ==> !p(#[trigger] s[j]),
        },
    decreases s.len(),
{
    if s.len() > 0 {
        lemma_position(s.drop_last(), p);
        assert forall|j: int| 0 <= j < s.len() - 1 implies s.drop_last()[j] == #[trigger] s[j] by {}
    }
}

/// The first item that satisfies `p` is at its position.
pub proof fn lemma_position_is<T>(s: Seq<T>, p: spec_fn(T) -> bool, i: int)
    requires
        0 <= i < s.len(),
        p(s[i]),
        forall|j: int| 0 <= j < i ==> !p(#[trigger] s[j]),
    ensures
        position(s, p) == Some(i),
{
    lemma_position(s, p);
}

/// Where no item satisfies `p` there is no position.
pub proof fn lemma_position_none<T>(s: Seq<T>, p: spec_fn(T) -> bool)
    requires
        forall|j: int| 0 <= j < s.len() ==> !p(#[trigger] s[j]),
    ensures
        position(s, p) is None,
{
    lemma_position(s, p);
}

/// A position in a vector as a mathematical integer.
pub open spec fn opt_index(i: Option<usize>) -> Option<int> {
    match i {
        Some(x) => Some(x as int),
        None => None,
    }
}

/// The row of the machine with a given id.
pub open spec fn machine_pos(m: Market, id: i64) -> Option<int> {
    position(m.machines, |x: MachineRowView| x.id == id)
}

/// The row of the machine that holds a given bearer token.
pub open spec fn machine_with_token(m: Market, token: Seq<char>) -> Option<int> {
    position(m.machines, |x: MachineRowView| x.agent_token == token)
}

/// The row of the machine of a given host.
pub open spec fn machine_of_host(m: Market, host: Seq<char>) -> Option<int> {
    position(m.machines, |x: MachineRowView| x.host_id == host)
}

/// The row of the account with a given id.
pub open spec fn account_pos(m: Market, id: Seq<char>) -> Option<int> {
    position(m.accounts, |x: AccountRowView| x.id == id)
}

/// The row of the rental with a given id.
pub open spec fn rental_pos(m: Market, id: i64) -> Option<int> {
    position(m.rentals, |x: RentalRowView| x.id == id)
}

/// The row of the invoice with a given payment hash.
pub open spec fn invoice_pos(m: Market, hash: Seq<char>) -> Option<int> {
    position(m.invoices, |x: InvoiceRowView| x.payment_hash == hash)
}

/// True while some rental holds the machine.
pub open spec fn occupied(m: Market, machine_id: i64) -> bool {
    exists|i: int| 0 <= i < m.rentals.len() && holds_machine(#[trigger] m.rentals[i], machine_id)
}

/// True while this rental holds the machine.
pub open spec fn holds_machine(r: RentalRowView, machine_id: i64) -> bool {
    r.machine_id == machine_id && r.status.occupies()
}

/// The id that the next row gets behind rows with these ids: one more than the
/// last, starting at one; none when the ids are used up.
pub open spec fn id_after(last: Option<i64>) -> Option<i64> {
    match last {
        None => Some(1),
        Some(id) => if id < i64::MAX { Some((id + 1) as i64) } else { None },
    }
}

/// The id of the next machine.
pub open spec fn next_machine_id(m: Market) -> Option<i64> {
    id_after(if m.machines.len() == 0 { None } else { Some(m.machines.last().id) })
}

/// The id of the next rental.
pub open spec fn next_rental_id(m: Market) -> Option<i64> {
    id_after(if m.rentals.len() == 0 { None } else { Some(m.rentals.last().id) })
}

/// The market with one more ledger entry.
pub open spec fn recorded(m: Market, entry: LedgerRowView) -> Market {
    Market { ledger: m.ledger.push(entry), ..m }
}

/// The market with one more command that waits for its machine's heartbeat.
pub open spec fn queued(m: Market, machine_id: i64, payload: CommandView, now: i64) -> Market {
    Market {
        commands: m.commands.push(
            CommandRowView { machine_id, payload, delivered: false, created_at: now },
        ),
        ..m
    }
}

/// True when every row that a ledger entry names exists.
pub open spec fn references_hold(
    m: Market,
    account_id: Option<Seq<char>>,
    machine_id: Option<i64>,
    rental_id: Option<i64>,
) -> bool {
    &&& account_id matches Some(a) ==> account_pos(m, a) is Some
    &&& machine_id matches Some(i) ==> machine_pos(m, i) is Some
    &&& rental_id matches Some(i) ==> rental_pos(m, i) is Some
}

/// The refusal of a ledger entry that names a missing row.
pub open spec fn broken_reference() -> ApiErrorView {
    refusal(500, "database error: a referenced row does not exist"@)
}

/// The tenant's half of a charge.
pub open spec fn charge_entry(ts: i64, account_id: Seq<char>, rental_id: i64, sats: i64) -> LedgerRowView {
    LedgerRowView {
        ts,
        kind: LedgerKind::RentalCharge,
        delta_sats: (-sats) as i64,
        account_id: Some(account_id),
        machine_id: None,
        rental_id: Some(rental_id),
        note: None,
    }
}

/// The host's half of a charge.
pub open spec fn credit_entry(ts: i64, machine_id: i64, rental_id: i64, sats: i64) -> LedgerRowView {
    LedgerRowView {
        ts,
        kind: LedgerKind::HostCredit,
        delta_sats: sats,
        account_id: None,
        machine_id: Some(machine_id),
        rental_id: Some(rental_id),
        note: None,
    }
}

impl Tables {
    /// Tables with nothing in them.
    pub fn new() -> (r: Self)
        ensures
            r@ == empty_market(),
    {
        let r = Tables {
            machines: Vec::new(),
            accounts: Vec::new(),
            rentals: Vec::new(),
            invoices: Vec::new(),
            ledger: Vec::new(),
            commands: Vec::new(),
        };
        proof {
            assert(r@ =~= empty_market());
        }
        r
    }

    /// The row of the machine with a given id.
    pub fn machine_pos(&self, id: i64) -> (r: Option<usize>)
        ensures
            opt_index(r) == machine_pos(self@, id),
            r matches Some(i) ==> i < self.machines@.len() && self.machines@[i as int]@.id == id,
    {
        let ghost rows = self@.machines;
        let ghost p = |x: MachineRowView| x.id == id;
        let mut i: usize = 0;
        while i < self.machines.len()
            invariant
                i <= self.machines@.len(),
                rows == self@.machines,
                p == (|x: MachineRowView| x.id == id),
                forall|j: int| 0 <= j < i ==> !p(#[trigger] rows[j]),
            decreases self.machines@.len() - i,
        {
            proof {
                assert(rows[i as int] == self.machines@[i as int]@);
            }
            if self.machines[i].id == id {
                proof {
                    lemma_position_is(rows, p, i as int);
                }
                return Some(i);
            }
            i += 1;
        }
        proof {
            lemma_position_none(rows, p);
        }
        None
    }

    /// The row of the machine that holds a given bearer token.
    pub fn machine_with_token(&self, token: &str) -> (r: Option<usize>)
        ensures
            opt_index(r) == machine_with_token(self@, token@),
            r matches Some(i) ==> i < self.machines@.len() && self.machines@[i as int]@.agent_token == token@,
    {
        let ghost rows = self@.machines;
        let ghost p = |x: MachineRowView| x.agent_token == token@;
        let mut i: usize = 0;
        while i < self.machines.len()
            invariant
                i <= self.machines@.len(),
                rows == self@.machines,
                p == (|x: MachineRowView| x.agent_token == token@),
                forall|j: int| 0 <= j < i ==> !p(#[trigger] rows[j]),
            decreases self.machines@.len() - i,
        {
            proof {
                assert(rows[i as int] == self.machines@[i as int]@);
            }
            if same_text(self.machines[i].agent_token.as_str(), token) {
                proof {
                    lemma_position_is(rows, p, i as int);
                }
                return Some(i);
            }
            i += 1;
        }
        proof {
            lemma_position_none(rows, p);
        }
        None
    }

    /// The row of the machine of a given host.
    pub fn machine_of_host(&self, host: &str) -> (r: Option<usize>)
        ensures
            opt_index(r) == machine_of_host(self@, host@),
            r matches Some(i) ==> i < self.machines@.len() && self.machines@[i as int]@.host_id == host@,
    {
        let ghost rows = self@.machines;
        let ghost p = |x: MachineRowView| x.host_id == host@;
        let mut i: usize = 0;
        while i < self.machines.len()
            invariant
                i <= self.machines@.len(),
                rows == self@.machines,
                p == (|x: MachineRowView| x.host_id == host@),
                forall|j: int| 0 <= j < i ==> !p(#[trigger] rows[j]),
            decreases self.machines@.len() - i,
        {
            proof {
                assert(rows[i as int] == self.machines@[i as int]@);
            }
            if same_text(self.machines[i].host_id.as_str(), host) {
                proof {
                    lemma_position_is(rows, p, i as int);
                }
                return Some(i);
            }
            i += 1;
        }
        proof {
            lemma_position_none(rows, p);
        }
        None
    }

    /// The row of the account with a given id.
    pub fn account_pos(&self, id: &str) -> (r: Option<usize>)
        ensures
            opt_index(r) == account_pos(self@, id@),
            r matches Some(i) ==> i < self.accounts@.len() && self.accounts@[i as int]@.id == id@,
    {
        let ghost rows = self@.accounts;
        let ghost p = |x: AccountRowView| x.id == id@;
        let mut i: usize = 0;
        while i < self.accounts.len()
            invariant
                i <= self.accounts@.len(),
                rows == self@.accounts,
                p == (|x: AccountRowView| x.id == id@),
                forall|j: int| 0 <= j < i ==> !p(#[trigger] rows[j]),
            decreases self.accounts@.len() - i,
        {
            proof {
                assert(rows[i as int] == self.accounts@[i as int]@);
            }
            if same_text(self.accounts[i].id.as_str(), id) {
                proof {
                    lemma_position_is(rows, p, i as int);
                }
                return Some(i);
            }
            i += 1;
        }
        proof {
            lemma_position_none(rows, p);
        }
        None
    }

    /// The row of the rental with a given id.
    pub fn rental_pos(&self, id: i64) -> (r: Option<usize>)
        ensures
            opt_index(r) == rental_pos(self@, id),
            r matches Some(i) ==> i < self.rentals@.len() && self.rentals@[i as int]@.id == id,
    {
        let ghost rows = self@.rentals;
        let ghost p = |x: RentalRowView| x.id == id;
        let mut i: usize = 0;
        while i < self.rentals.len()
            invariant
                i <= self.rentals@.len(),
                rows == self@.rentals,
                p == (|x: RentalRowView| x.id == id),
                forall|j: int| 0 <= j < i ==> !p(#[trigger] rows[j]),
            decreases self.rentals@.len() - i,
        {
            proof {
                assert(rows[i as int] == self.rentals@[i as int]@);
            }
            if self.rentals[i].id == id {
                proof {
                    lemma_position_is(rows, p, i as int);
                }
                return Some(i);
            }
            i += 1;
        }
        proof {
            lemma_position_none(rows, p);
        }
        None
    }

    /// The row of the invoice with a given payment hash.
    pub fn invoice_pos(&self, hash: &str) -> (r: Option<usize>)
        ensures
            opt_index(r) == invoice_pos(self@, hash@),
            r matches Some(i) ==> i < self.invoices@.len() && self.invoices@[i as int]@.payment_hash == hash@,
    {
        let ghost rows = self@.invoices;
        let ghost p = |x: InvoiceRowView| x.payment_hash == hash@;
        let mut i: usize = 0;
        while i < self.invoices.len()
            invariant
                i <= self.invoices@.len(),
                rows == self@.invoices,
                p == (|x: InvoiceRowView| x.payment_hash == hash@),
                forall|j: int| 0 <= j < i ==> !p(#[trigger] rows[j]),
            decreases self.invoices@.len() - i,
        {
            proof {
                assert(rows[i as int] == self.invoices@[i as int]@);
            }
            if same_text(self.invoices[i].payment_hash.as_str(), hash) {
                proof {
                    lemma_position_is(rows, p, i as int);
                }
                return Some(i);
            }
            i += 1;
        }
        proof {
            lemma_position_none(rows, p);
        }
        None
    }

    /// True while some rental holds the machine.
    pub fn occupied(&self, machine_id: i64) -> (r: bool)
        ensures
            r == occupied(self@, machine_id),
    {
        let ghost rows = self@.rentals;
        let mut i: usize = 0;
        while i < self.rentals.len()
            invariant
                i <= self.rentals@.len(),
                rows == self@.rentals,
                forall|j: int| 0 <= j < i ==> !holds_machine(#[trigger] rows[j], machine_id),
            decreases self.rentals@.len() - i,
        {
            proof {
                assert(rows[i as int] == self.rentals@[i as int]@);
            }
            if self.rentals[i].machine_id == machine_id && self.rentals[i].status.occupies_machine() {
                return true;
            }
            i += 1;
        }
        false
    }

    /// The id of the next machine.
    pub fn next_machine_id(&self) -> (r: Option<i64>)
        ensures
            r == next_machine_id(self@),
    {
        let n: usize = self.machines.len();
        if n == 0 {
            Some(1)
        } else if self.machines[n - 1].id < i64::MAX {
            Some(self.machines[n - 1].id + 1)
        } else {
            None
        }
    }

    /// The id of the next rental.
    pub fn next_rental_id(&self) -> (r: Option<i64>)
        ensures
            r == next_rental_id(self@),
    {
        let n: usize = self.rentals.len();
        if n == 0 {
            Some(1)
        } else if self.rentals[n - 1].id < i64::MAX {
            Some(self.rentals[n - 1].id + 1)
        } else {
            None
        }
    }

    /// Puts a command into a machine's queue.
    pub fn queue(&mut self, machine_id: i64, payload: Command, now: i64)
        ensures
            final(self)@ == queued(old(self)@, machine_id, payload@, now),
    {
        self.commands.push(CommandRow { machine_id, payload, delivered: false, created_at: now });
        proof {
            assert(self@ =~= queued(old(self)@, machine_id, payload@, now));
        }
    }
}

/// The text of an optional reference.
pub open spec fn opt_str(o: Option<&str>) -> Option<Seq<char>> {
    match o {
        Some(s) => Some(s@),
        None => None,
    }
}

/// A text of its own for an optional reference.
pub fn owned(o: Option<&str>) -> (r: Option<String>)
    ensures
        opt_text(r) == opt_str(o),
{
    match o {
        Some(s) => Some(s.to_owned()),
        None => None,
    }
}

/// Writes one entry to the ledger. Nothing else in the control plane does. An
/// entry that names a missing row is refused.
pub fn record(
    tables: &mut Tables,
    ts: i64,
    kind: LedgerKind,
    delta_sats: i64,
    account_id: Option<&str>,
    machine_id: Option<i64>,
    rental_id: Option<i64>,
    note: Option<&str>,
) -> (r: Result<(), ApiError>)
    ensures
        match r {
            Ok(_) => references_hold(old(tables)@, opt_str(account_id), machine_id, rental_id)
                && final(tables)@ == recorded(
                old(tables)@,
                LedgerRowView {
                    ts,
                    kind,
                    delta_sats,
                    account_id: opt_str(account_id),
                    machine_id,
                    rental_id,
                    note: opt_str(note),
                },
            ),
            Err(e) => !references_hold(old(tables)@, opt_str(account_id), machine_id, rental_id)
                && final(tables)@ == old(tables)@ && e@ == broken_reference(),
        },
{
    let account_ok: bool = match account_id {
        Some(a) => tables.account_pos(a).is_some(),
        None => true,
    };
    let machine_ok: bool = match machine_id {
        Some(i) => tables.machine_pos(i).is_some(),
        None => true,
    };
    let rental_ok: bool = match rental_id {
        Some(i) => tables.rental_pos(i).is_some(),
        None => true,
    };
    if !account_ok || !machine_ok || !rental_ok {
        return Err(ApiError::internal("database error: a referenced row does not exist"));
    }
    let entry = LedgerRow {
        ts,
        kind,
        delta_sats,
        account_id: owned(account_id),
        machine_id,
        rental_id,
        note: owned(note),
    };
    tables.ledger.push(entry);
    proof {
        assert(tables@ =~= recorded(old(tables)@, entry@));
    }
    Ok(())
}

/// A metered charge: one entry debits the account, one credits the host, and the
/// two cancel out.
pub fn record_charge(
    tables: &mut Tables,
    ts: i64,
    account_id: &str,
    machine_id: i64,
    rental_id: i64,
    rate: i64,
) -> (r: Result<(), ApiError>)
    requires
        rate != i64::MIN,
    ensures
        match r {
            Ok(_) => references_hold(
                old(tables)@,
                Some(account_id@),
                Some(machine_id),
                Some(rental_id),
            ) && final(tables)@ == recorded(
                recorded(old(tables)@, charge_entry(ts, account_id@, rental_id, rate)),
                credit_entry(ts, machine_id, rental_id, rate),
            ),
            Err(e) => !references_hold(
                old(tables)@,
                Some(account_id@),
                Some(machine_id),
                Some(rental_id),
            ) && final(tables)@ == old(tables)@ && e@ == broken_reference(),
        },
{
    if tables.machine_pos(machine_id).is_none() {
        return Err(ApiError::internal("database error: a referenced row does not exist"));
    }
    match record(
        tables,
        ts,
        LedgerKind::RentalCharge,
        -rate,
        Some(account_id),
        None,
        Some(rental_id),
        None,
    ) {
        Ok(_) => {},
        Err(e) => {
            return Err(e);
        },
    }
    record(
        tables,
        ts,
        LedgerKind::HostCredit,
        rate,
        None,
        Some(machine_id),
        Some(rental_id),
        None,
    )
}

} // verus!
