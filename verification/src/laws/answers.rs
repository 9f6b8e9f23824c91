//! Laws of the answers: what a tenant is shown of machines, rentals and accounts is
//! what the rows hold.

use vstd::prelude::*;

use super::lookup::machines_are_found;
use super::tenancy::{
    nothing_better_is_left_out, offers_come_in_order, only_idle_machines_are_offered,
};
use super::{after, refused, valid, Event};
use crate::api::CreateRentalRequestView;
use crate::db::{holds_machine, occupied, AccountRowView, MachineRowView, Market, RentalRowView};
use crate::model::{measure_key, Measure, RentalKind, RentalStatus};
use crate::routes::ranking::ranks_before;
use crate::routes::tenant::{
    account_reply, answer_rows, burn, offer_keys, offer_of, offer_order, on_offer, rental_reply,
    OfferOrder, OffersQuery,
};
use crate::text::{decimal, fold, folded, has_infix, opt_text, stands_at};

verus! {

/// An offer shows the machine that it is for: its id, its price per minute and all its
/// specs as they stand in its row, and sixty times the price per minute as the price
/// per hour.
pub proof fn an_offer_shows_its_machine(m: Market, values: Seq<Measure>, q: OffersQuery, k: int)
    requires
        0 <= k < answer_rows(m, values, q).len(),
    ensures
        ({
            let shown = answer_rows(m, values, q).map_values(|i: int| offer_of(m.machines[i]));
            let o = shown[k];
            let i = answer_rows(m, values, q)[k];
            let h = m.machines[i];
            &&& shown.len() == answer_rows(m, values, q).len()
            &&& 0 <= i < m.machines.len()
            &&& o.machine_id == h.id
            &&& o.rate_sats_per_min == h.rate_sats_per_min
            &&& i64::MIN <= 60 * h.rate_sats_per_min <= i64::MAX ==> o.rate_sats_per_hour == 60
                * o.rate_sats_per_min
            &&& o.gpu_name == h.gpu_name
            &&& i32::MIN <= h.gpu_count <= i32::MAX ==> o.gpu_count == h.gpu_count
            &&& o.vram_mb == h.vram_mb
            &&& o.cpu_name == h.cpu_name
            &&& i32::MIN <= h.cpu_cores <= i32::MAX ==> o.cpu_cores == h.cpu_cores
            &&& o.ram_mb == h.ram_mb
            &&& o.disk_gb == h.disk_gb
            &&& o.disk_type == h.disk_type
            &&& o.public_ip == h.public_ip
            &&& o.country == h.country
            &&& o.inet_down_mbps == h.inet_down_mbps
            &&& o.inet_up_mbps == h.inet_up_mbps
            &&& o.dlperf == h.dlperf
        }),
{
    only_idle_machines_are_offered(m, values, q, k);
}

/// What is offered is what is rented: a rental that is granted on the machine of an
/// offer has the price of the offer.
pub proof fn an_offer_is_rented_at_its_price(
    m: Market,
    i: int,
    req: CreateRentalRequestView,
    period: i64,
    now: i64,
)
    requires
        valid(m),
        0 <= i < m.machines.len(),
        req.machine_id == offer_of(m.machines[i]).machine_id,
        !refused(m, Event::CreateRental { request: req, period, now }),
    ensures
        ({
            let r = after(m, Event::CreateRental { request: req, period, now }).rentals.last();
            &&& r.machine_id == m.machines[i].id
            &&& r.rate_sats_per_min == offer_of(m.machines[i]).rate_sats_per_min
            &&& r.rate_sats_per_min == m.machines[i].rate_sats_per_min
        }),
{
    machines_are_found(m, i);
}

/// A machine is on offer when it is online, no live rental holds it, it has as much
/// memory and as many GPUs as asked for and costs no more than that, and the name asked
/// for is a part of its GPU's name in whatever case.
pub proof fn who_is_on_offer(m: Market, h: MachineRowView, q: OffersQuery)
    ensures
        on_offer(m, h, q) <==> {
            &&& h.online
            &&& forall|k: int|
                0 <= k < m.rentals.len() && (#[trigger] m.rentals[k]).machine_id == h.id
                    ==> m.rentals[k].status == RentalStatus::Stopped || m.rentals[k].status
                    == RentalStatus::Failed
            &&& q.min_vram_mb is Some ==> h.vram_mb >= q.min_vram_mb->0
            &&& q.min_gpu_count is Some ==> h.gpu_count >= q.min_gpu_count->0
            &&& q.max_rate_sats_per_min is Some ==> h.rate_sats_per_min
                <= q.max_rate_sats_per_min->0
            &&& q.gpu_name is Some ==> exists|at: int|
                0 <= at <= h.gpu_name.len() - q.gpu_name->0@.len() && #[trigger] reads_at(
                    h.gpu_name,
                    q.gpu_name->0@,
                    at,
                )
        },
{
    if q.gpu_name is Some {
        let text = h.gpu_name;
        let name = q.gpu_name->0@;
        if has_infix(fold(text), fold(name)) {
            let at = choose|at: int| #[trigger] stands_at(fold(text), fold(name), at);
            let part = fold(text).subrange(at, at + name.len());
            assert forall|k: int| 0 <= k < name.len() implies folded(text[at + k]) == folded(
                #[trigger] name[k],
            ) by {
                assert(part[k] == fold(text)[at + k]);
                assert(fold(name)[k] == folded(name[k]));
            }
            assert(reads_at(text, name, at));
        }
        if exists|at: int|
            0 <= at <= text.len() - name.len() && #[trigger] reads_at(text, name, at) {
            let at = choose|at: int|
                0 <= at <= text.len() - name.len() && #[trigger] reads_at(text, name, at);
            assert forall|k: int| 0 <= k < name.len() implies fold(text)[at + k]
                == #[trigger] fold(name)[k] by {
                assert(folded(text[at + k]) == folded(name[k]));
            }
            assert(fold(text).subrange(at, at + name.len()) =~= fold(name));
            assert(stands_at(fold(text), fold(name), at));
        }
    }
    if occupied(m, h.id) {
        let k = choose|k: int|
            0 <= k < m.rentals.len() && holds_machine(#[trigger] m.rentals[k], h.id);
        assert(m.rentals[k].machine_id == h.id);
    } else {
        assert forall|k: int|
            0 <= k < m.rentals.len() && (#[trigger] m.rentals[k]).machine_id == h.id implies
            m.rentals[k].status == RentalStatus::Stopped || m.rentals[k].status
            == RentalStatus::Failed by {
            assert(!holds_machine(m.rentals[k], h.id));
        }
    }
}

/// True when a text reads like a name from a position on, but for the case of letters.
pub open spec fn reads_at(text: Seq<char>, name: Seq<char>, at: int) -> bool {
    forall|k: int| 0 <= k < name.len() ==> folded(text[at + k]) == folded(#[trigger] name[k])
}

/// Offers are sorted as asked for: by `rate` the cheaper first, by `dlperf` the faster
/// first, and otherwise those first that cost less for their performance. Where two are
/// equal the one that registered earlier is first.
pub proof fn offers_are_sorted_as_asked(
    m: Market,
    values: Seq<Measure>,
    q: OffersQuery,
    j: int,
    k: int,
)
    requires
        0 <= j < k < answer_rows(m, values, q).len(),
    ensures
        ({
            let a = answer_rows(m, values, q)[j];
            let b = answer_rows(m, values, q)[k];
            let sort = opt_text(q.sort);
            &&& a != b
            &&& sort == Some("rate"@) ==> m.machines[a].rate_sats_per_min
                <= m.machines[b].rate_sats_per_min
            &&& sort == Some("dlperf"@) ==> measure_key(m.machines[a].dlperf) >= measure_key(
                m.machines[b].dlperf,
            )
            &&& sort != Some("rate"@) && sort != Some("dlperf"@) ==> measure_key(values[a])
                <= measure_key(values[b])
        }),
{
    offers_come_in_order(m, values, q, j, k);
    lemma_orders();
}

/// The two names of orders differ.
proof fn lemma_orders()
    ensures
        "rate"@ != "dlperf"@,
{
    reveal_strlit("rate");
    reveal_strlit("dlperf");
    assert("rate"@.len() == 4 && "dlperf"@.len() == 6);
}

/// An answer is as long as it may be: two hundred offers, or as many as were asked for
/// between one and that. A machine on offer is left out only where the answer is full
/// of machines that are no dearer, no slower or no worse in value, by what was asked.
pub proof fn an_answer_is_full_before_a_machine_is_left_out(
    m: Market,
    values: Seq<Measure>,
    q: OffersQuery,
    i: int,
)
    requires
        0 <= i < m.machines.len(),
        on_offer(m, m.machines[i], q),
        !answer_rows(m, values, q).contains(i),
    ensures
        ({
            let answer = answer_rows(m, values, q);
            let sort = opt_text(q.sort);
            let most = if q.limit is None || q.limit->0 > 200 {
                200
            } else if q.limit->0 < 1 {
                1
            } else {
                q.limit->0 as int
            };
            &&& answer.len() == most
            &&& sort == Some("rate"@) ==> forall|k: int|
                0 <= k < answer.len() ==> m.machines[#[trigger] answer[k]].rate_sats_per_min
                    <= m.machines[i].rate_sats_per_min
            &&& sort == Some("dlperf"@) ==> forall|k: int|
                0 <= k < answer.len() ==> measure_key(m.machines[#[trigger] answer[k]].dlperf)
                    >= measure_key(m.machines[i].dlperf)
            &&& sort != Some("rate"@) && sort != Some("dlperf"@) ==> forall|k: int|
                0 <= k < answer.len() ==> measure_key(values[#[trigger] answer[k]]) <= measure_key(
                    values[i],
                )
        }),
{
    nothing_better_is_left_out(m, values, q, i);
    lemma_orders();
    let answer = answer_rows(m, values, q);
    let keys = offer_keys(m, values, q);
    assert forall|k: int| 0 <= k < answer.len() implies 0 <= #[trigger] answer[k]
        < m.machines.len() && keys[answer[k]] <= keys[i] by {
        only_idle_machines_are_offered(m, values, q, k);
        assert(ranks_before(keys, answer[k], i));
    }
    let order = offer_order(opt_text(q.sort));
    assert forall|k: int| 0 <= k < answer.len() implies match order {
        OfferOrder::Rate => m.machines[#[trigger] answer[k]].rate_sats_per_min
            <= m.machines[i].rate_sats_per_min,
        OfferOrder::Dlperf => measure_key(m.machines[answer[k]].dlperf) >= measure_key(
            m.machines[i].dlperf,
        ),
        OfferOrder::Value => measure_key(values[answer[k]]) <= measure_key(values[i]),
    } by {
        assert(keys[answer[k]] <= keys[i]);
    }
}

/// No answer is longer than two hundred offers, nor than was asked for.
pub proof fn an_answer_has_a_limit(m: Market, values: Seq<Measure>, q: OffersQuery)
    ensures
        answer_rows(m, values, q).len() <= 200,
        q.limit is Some && q.limit->0 >= 1 ==> answer_rows(m, values, q).len() <= q.limit->0,
        q.limit is Some && q.limit->0 < 1 ==> answer_rows(m, values, q).len() <= 1,
{
}

/// Readings are ordered as numbers are: of two that are not negative the one with the
/// larger pattern is larger, of two negative ones it is smaller, a negative one is
/// smaller than one that is not, and zero is the same with either sign.
pub proof fn readings_are_ordered_as_numbers(a: Measure, b: Measure)
    ensures
        ({
            let sign: int = 0x8000_0000_0000_0000;
            &&& a.bits < sign && b.bits < sign ==> (measure_key(a) < measure_key(b) <==> a.bits
                < b.bits)
            &&& a.bits > sign && b.bits > sign ==> (measure_key(a) < measure_key(b) <==> a.bits
                > b.bits)
            &&& a.bits > sign && b.bits < sign ==> measure_key(a) < measure_key(b)
            &&& a.bits == sign && b.bits == 0 ==> measure_key(a) == measure_key(b)
            &&& measure_key(a) == measure_key(b) ==> a.bits == b.bits || (a.bits == sign && b.bits
                == 0) || (a.bits == 0 && b.bits == sign)
        }),
{
}

/// A tenant is shown a rental as it stands in its row, with the name and the number of
/// the GPUs of its machine, and for a box with a known host and port the line by which
/// to log in.
pub proof fn a_rental_is_shown_as_it_is(r: RentalRowView, h: MachineRowView)
    ensures
        ({
            let x = rental_reply(r, h);
            &&& x.id == r.id
            &&& x.machine_id == r.machine_id
            &&& x.account_id == r.account_id
            &&& x.image == r.image
            &&& x.status == r.status
            &&& x.kind == r.kind
            &&& x.gpu_name == h.gpu_name
            &&& i32::MIN <= h.gpu_count <= i32::MAX ==> x.gpu_count == h.gpu_count
            &&& x.ssh_host == r.ssh_host
            &&& r.ssh_port is None ==> x.ssh_port is None
            &&& r.ssh_port is Some && i32::MIN <= r.ssh_port->0 <= i32::MAX ==> x.ssh_port is Some
                && x.ssh_port->0 == r.ssh_port->0
            &&& r.kind == RentalKind::Ssh && r.ssh_host is Some && r.ssh_port is Some
                ==> x.ssh_command == Some(
                "ssh -p "@ + decimal(r.ssh_port->0 as int) + " root@"@ + r.ssh_host->0,
            )
            &&& r.kind != RentalKind::Ssh || r.ssh_host is None || r.ssh_port is None
                ==> x.ssh_command is None
            &&& x.rate_sats_per_min == r.rate_sats_per_min
            &&& x.sats_charged == r.sats_charged
            &&& x.minutes_billed == r.minutes_billed
            &&& x.paid_through == r.paid_through
            &&& x.error == r.error
            &&& x.created_at == r.created_at
            &&& x.ended_at == r.ended_at
        }),
{
}

/// What an account burns is told rental by rental: each that runs on it adds its rate,
/// and no other adds anything.
pub proof fn running_rentals_burn_their_rates(
    rentals: Seq<RentalRowView>,
    r: RentalRowView,
    account_id: Seq<char>,
)
    ensures
        burn(Seq::empty(), account_id) == 0,
        r.account_id == account_id && r.status == RentalStatus::Running ==> burn(
            rentals.push(r),
            account_id,
        ) == burn(rentals, account_id) + r.rate_sats_per_min,
        r.account_id != account_id || r.status != RentalStatus::Running ==> burn(
            rentals.push(r),
            account_id,
        ) == burn(rentals, account_id),
{
    assert(rentals.push(r).drop_last() =~= rentals);
}

/// A tenant is shown the balance of an account as it stands, what it burns per minute,
/// and for how many whole minutes the balance lasts at that: so many are covered and
/// one more would not be. Where nothing burns there is no such number.
pub proof fn an_account_is_shown_as_it_is(a: AccountRowView, rate: i64)
    ensures
        ({
            let x = account_reply(a, rate);
            &&& x.account_id == a.id
            &&& x.balance_sats == a.balance_sats
            &&& x.burn_sats_per_min == rate
            &&& rate <= 0 ==> x.runway_minutes is None
            &&& rate > 0 && a.balance_sats >= 0 ==> x.runway_minutes is Some && (
            x.runway_minutes->0) * rate <= a.balance_sats < (x.runway_minutes->0 + 1) * rate
        }),
{
    if rate > 0 && a.balance_sats >= 0 {
        let n = a.balance_sats as int;
        let d = rate as int;
        vstd::arithmetic::div_mod::lemma_fundamental_div_mod(n, d);
        vstd::arithmetic::div_mod::lemma_div_is_ordered_by_denominator(n, 1, d);
        vstd::arithmetic::div_mod::lemma_div_pos_is_pos(n, d);
        let k = n / d;
        assert(k * d <= n < (k + 1) * d) by (nonlinear_arith)
            requires
                n == d * k + n % d,
                0 <= n % d < d,
        ;
    }
}

} // verus!
