//! A Lightning backend inside the process: invoices settle by themselves after a
//! delay, so the whole system runs without a node. With no delay they settle at
//! once.

use vstd::prelude::*;

use super::{Invoice, InvoiceView};
use crate::money::Sats;
use crate::text::{
    decimal, decimal_text, digits, hex, hex_tells_apart, lemma_hex_range, push_digits, push_hex,
    same_text,
};

verus! {

/// When the invoice with a payment hash counts as settled, in ticks of a clock
/// that never runs backwards.
#[derive(Debug, Clone, PartialEq, Eq)]
pub struct Maturity {
    pub payment_hash: String,
    pub settles_at: u64,
}

/// A backend without a node. Its delay is in ticks of the same clock.
#[derive(Debug, Clone, PartialEq, Eq)]
pub struct MockBackend {
    pub settle_delay: u64,
    pub counter: u64,
    pub settle_at: Vec<Maturity>,
}

/// The payment hash of the invoice with a given number: 32 bytes in hexadecimal.
pub open spec fn mock_hash(n: u64) -> Seq<char> {
    hex(n as nat, 64)
}

/// The payment request of the invoice with a given number.
pub open spec fn mock_bolt11(sats: i64, n: u64) -> Seq<char> {
    "lnbcmock"@ + decimal(sats as int) + "n"@ + digits(n as nat)
}

/// When each invoice settles. A hash that was issued again counts from its last
/// issue.
pub open spec fn maturities(ms: Seq<Maturity>) -> Map<Seq<char>, u64>
    decreases ms.len(),
{
    if ms.len() == 0 {
        Map::empty()
    } else {
        maturities(ms.drop_last()).insert(ms.last().payment_hash@, ms.last().settles_at)
    }
}

/// When the invoices of a series settle, issued one after the other at given times
/// from the first number on.
pub open spec fn settles_in_turn(times: Seq<u64>, delay: u64) -> Map<Seq<char>, u64>
    decreases times.len(),
{
    if times.len() == 0 {
        Map::empty()
    } else {
        settles_in_turn(times.drop_last(), delay).insert(
            mock_hash(times.len() as u64),
            (times.last() + delay) as u64,
        )
    }
}

/// True when the invoice with a payment hash is one of a series and its delay is
/// over.
pub open spec fn settled(times: Seq<u64>, delay: u64, payment_hash: Seq<char>, now: u64) -> bool {
    exists|n: u64|
        1 <= n <= times.len() && payment_hash == #[trigger] mock_hash(n) && now >= times[n - 1]
            + delay
}

/// No two invoices have the same payment hash.
pub proof fn hashes_differ(a: u64, b: u64)
    requires
        mock_hash(a) == mock_hash(b),
    ensures
        a == b,
{
    lemma_hex_range(64);
    hex_tells_apart(a as nat, b as nat, 64);
}

proof fn lemma_settles_in_turn(times: Seq<u64>, delay: u64, payment_hash: Seq<char>)
    requires
        times.len() <= u64::MAX,
        forall|k: int| 0 <= k < times.len() ==> #[trigger] times[k] + delay <= u64::MAX,
    ensures
        forall|n: u64|
            1 <= n <= times.len() && payment_hash == #[trigger] mock_hash(n) ==> settles_in_turn(
                times,
                delay,
            ).contains_key(payment_hash) && settles_in_turn(times, delay)[payment_hash]
                == times[n - 1] + delay,
        settles_in_turn(times, delay).contains_key(payment_hash) ==> exists|n: u64|
            1 <= n <= times.len() && payment_hash == #[trigger] mock_hash(n),
    decreases times.len(),
{
    if times.len() > 0 {
        let rest = times.drop_last();
        let last = times.len() as u64;
        assert(times[last - 1] + delay <= u64::MAX);
        assert forall|k: int| 0 <= k < rest.len() implies #[trigger] rest[k] + delay
            <= u64::MAX by {
            assert(rest[k] == times[k]);
        }
        lemma_settles_in_turn(rest, delay, payment_hash);
        assert forall|n: u64|
            1 <= n <= times.len() && payment_hash == #[trigger] mock_hash(n) implies settles_in_turn(
            times,
            delay,
        ).contains_key(payment_hash) && settles_in_turn(times, delay)[payment_hash] == times[n - 1]
            + delay by {
            if n < last && payment_hash == mock_hash(last) {
                hashes_differ(n, last);
            }
        }
    }
}

/// What has settled stays settled, however much later it is and whatever has been
/// issued since.
pub proof fn settled_stays_settled(
    times: Seq<u64>,
    more: Seq<u64>,
    delay: u64,
    payment_hash: Seq<char>,
    now: u64,
    later: u64,
)
    requires
        times.is_prefix_of(more),
        now <= later,
        settled(times, delay, payment_hash, now),
    ensures
        settled(more, delay, payment_hash, later),
{
    let n = choose|n: u64|
        1 <= n <= times.len() && payment_hash == #[trigger] mock_hash(n) && now >= times[n - 1]
            + delay;
    assert(more[n - 1] == times[n - 1]);
}

/// An invoice settles when its delay is over and not before; without a delay it
/// settles at once.
pub proof fn an_invoice_settles_after_its_delay(times: Seq<u64>, delay: u64, n: u64, now: u64)
    requires
        1 <= n <= times.len(),
    ensures
        settled(times, delay, mock_hash(n), now) <==> now >= times[n - 1] + delay,
        delay == 0 && now >= times[n - 1] ==> settled(times, delay, mock_hash(n), now),
{
    if settled(times, delay, mock_hash(n), now) {
        let k = choose|k: u64|
            1 <= k <= times.len() && mock_hash(n) == #[trigger] mock_hash(k) && now >= times[k - 1]
                + delay;
        hashes_differ(n, k);
    }
}

impl MockBackend {
    /// When each invoice settles.
    pub open spec fn settles(&self) -> Map<Seq<char>, u64> {
        maturities(self.settle_at@)
    }

    /// True for a backend that has issued invoices at just these times, one after the
    /// other, and has not yet come to the end of its numbers.
    pub open spec fn has_issued(&self, times: Seq<u64>) -> bool {
        &&& self.counter == times.len() + 1
        &&& self.settles() == settles_in_turn(times, self.settle_delay)
        &&& forall|k: int|
            0 <= k < times.len() ==> #[trigger] times[k] + self.settle_delay <= u64::MAX
    }

    pub fn new(settle_delay: u64) -> (r: Self)
        ensures
            r.settle_delay == settle_delay,
            r.counter == 1,
            r.settles() == Map::<Seq<char>, u64>::empty(),
            r.has_issued(Seq::empty()),
    {
        MockBackend { settle_delay, counter: 1, settle_at: Vec::new() }
    }

    /// A new invoice, which settles once the delay is over.
    pub fn create_invoice(&mut self, sats: Sats, _memo: &str, now: u64) -> (r: Invoice)
        requires
            now + old(self).settle_delay <= u64::MAX,
        ensures
            r@ == (InvoiceView {
                bolt11: mock_bolt11(sats.0, old(self).counter),
                payment_hash: mock_hash(old(self).counter),
            }),
            final(self).settle_delay == old(self).settle_delay,
            final(self).counter == (if old(self).counter == u64::MAX {
                0
            } else {
                old(self).counter + 1
            }),
            final(self).settles() == old(self).settles().insert(
                mock_hash(old(self).counter),
                (now + old(self).settle_delay) as u64,
            ),
            forall|times: Seq<u64>|
                #[trigger] old(self).has_issued(times) && old(self).counter < u64::MAX
                    ==> final(self).has_issued(times.push(now)),
    {
        let n: u64 = self.counter;
        self.counter = if n == u64::MAX { 0 } else { n + 1 };
        let mut payment_hash = String::new();
        push_hex(&mut payment_hash, n, 64);
        let mut bolt11 = "lnbcmock".to_owned();
        bolt11.push_str(decimal_text(sats.get()).as_str());
        bolt11.push('n');
        push_digits(&mut bolt11, n);
        let ghost before = self.settle_at@;
        let entry = Maturity {
            payment_hash: payment_hash.clone(),
            settles_at: now + self.settle_delay,
        };
        self.settle_at.push(entry);
        proof {
            reveal_strlit("n");
            assert(payment_hash@ =~= mock_hash(n));
            assert(bolt11@ =~= mock_bolt11(sats.0, n));
            assert(self.settle_at@.drop_last() =~= before);
            assert forall|times: Seq<u64>| #[trigger] old(self).has_issued(times) && n
                < u64::MAX implies self.has_issued(times.push(now)) by {
                let longer = times.push(now);
                assert(longer.drop_last() =~= times);
                assert forall|k: int| 0 <= k < longer.len() implies #[trigger] longer[k]
                    + self.settle_delay <= u64::MAX by {
                    if k < times.len() {
                        assert(longer[k] == times[k]);
                    }
                }
            }
        }
        Invoice { bolt11, payment_hash }
    }

    /// When the invoice with a payment hash settles, if there is one.
    fn settle_time(&self, payment_hash: &str) -> (r: Option<u64>)
        ensures
            r == (if self.settles().contains_key(payment_hash@) {
                Some(self.settles()[payment_hash@])
            } else {
                None
            }),
    {
        let mut i: usize = self.settle_at.len();
        proof {
            assert(self.settle_at@.take(i as int) =~= self.settle_at@);
        }
        while i > 0
            invariant
                i <= self.settle_at@.len(),
                self.settles().contains_key(payment_hash@) == maturities(
                    self.settle_at@.take(i as int),
                ).contains_key(payment_hash@),
                self.settles().contains_key(payment_hash@) ==> self.settles()[payment_hash@]
                    == maturities(self.settle_at@.take(i as int))[payment_hash@],
            decreases i,
        {
            proof {
                assert(self.settle_at@.take(i as int).drop_last() =~= self.settle_at@.take(i - 1));
            }
            if same_text(self.settle_at[i - 1].payment_hash.as_str(), payment_hash) {
                return Some(self.settle_at[i - 1].settles_at);
            }
            i -= 1;
        }
        None
    }

    /// True once the invoice's delay is over. An unknown hash never settles.
    pub fn is_settled(&self, payment_hash: &str, now: u64) -> (r: bool)
        ensures
            r == (self.settles().contains_key(payment_hash@) && now >= self.settles()[payment_hash@]),
            forall|times: Seq<u64>| #[trigger]
                self.has_issued(times) ==> r == settled(
                    times,
                    self.settle_delay,
                    payment_hash@,
                    now,
                ),
    {
        proof {
            assert forall|times: Seq<u64>| #[trigger] self.has_issued(times) implies settled(
                times,
                self.settle_delay,
                payment_hash@,
                now,
            ) == (self.settles().contains_key(payment_hash@) && now
                >= self.settles()[payment_hash@]) by {
                lemma_settles_in_turn(times, self.settle_delay, payment_hash@);
            }
        }
        match self.settle_time(payment_hash) {
            Some(at) => now >= at,
            None => false,
        }
    }

    /// A node that is not there always pays.
    pub fn pay_invoice(&self, _bolt11: &str) -> (r: Result<(), String>)
        ensures
            r is Ok,
    {
        Ok(())
    }
}

} // verus!
