//! Integer satoshis.
//!
//! Amounts are whole satoshis everywhere: no fractions, no conversions. Money is
//! never multiplied by money; multiplying a rate by a number of minutes is the
//! one product that makes sense.

use std::ops::{Add, Mul, Neg, Sub};
use vstd::prelude::*;
use vstd::std_specs::ops::{AddSpecImpl, MulSpecImpl, NegSpecImpl, SubSpecImpl};

use crate::text::{decimal, decimal_text};

verus! {

/// A signed amount of satoshis. The ledger records changes, so an amount may be
/// negative; that a balance is not is a matter of the place that holds it.
#[derive(Debug, Clone, Copy, PartialEq, Eq, PartialOrd, Ord, Hash, Structural)]
pub struct Sats(pub i64);

impl Sats {
    /// No money at all.
    pub fn zero() -> (r: Self)
        ensures
            r.0 == 0,
    {
        Sats(0)
    }

    pub fn new(value: i64) -> (r: Self)
        ensures
            r.0 == value,
    {
        Sats(value)
    }

    /// The raw satoshi count, for storage and display.
    pub fn get(self) -> (r: i64)
        ensures
            r == self.0,
    {
        self.0
    }

    pub fn is_zero(self) -> (r: bool)
        ensures
            r == (self.0 == 0),
    {
        self.0 == 0
    }

    /// Adds in place.
    pub fn add_assign(&mut self, rhs: Sats)
        requires
            i64::MIN <= old(self).0 + rhs.0 <= i64::MAX,
        ensures
            final(self).0 == old(self).0 + rhs.0,
    {
        self.0 = self.0 + rhs.0;
    }

    /// Subtracts in place.
    pub fn sub_assign(&mut self, rhs: Sats)
        requires
            i64::MIN <= old(self).0 - rhs.0 <= i64::MAX,
        ensures
            final(self).0 == old(self).0 - rhs.0,
    {
        self.0 = self.0 - rhs.0;
    }

    /// The total of a list of amounts, added from the front.
    pub fn sum(amounts: &[Sats]) -> (r: Sats)
        requires
            forall|i: int|
                0 <= i <= amounts@.len() ==> i64::MIN <= total(#[trigger] amounts@.take(i))
                    <= i64::MAX,
        ensures
            r.0 == total(amounts@),
    {
        let mut out: i64 = 0;
        let mut i: usize = 0;
        while i < amounts.len()
            invariant
                i <= amounts@.len(),
                out == total(amounts@.take(i as int)),
                forall|k: int|
                    0 <= k <= amounts@.len() ==> i64::MIN <= total(#[trigger] amounts@.take(k))
                        <= i64::MAX,
            decreases amounts@.len() - i,
        {
            proof {
                let next = amounts@.take(i + 1);
                assert(next.drop_last() =~= amounts@.take(i as int));
            }
            out = out + amounts[i].0;
            i += 1;
        }
        proof {
            assert(amounts@.take(amounts@.len() as int) =~= amounts@);
        }
        Sats(out)
    }

    /// The amount as a bare integer.
    pub fn to_text(&self) -> (r: String)
        ensures
            r@ == decimal(self.0 as int),
    {
        decimal_text(self.0)
    }
}

/// The sum of a list of amounts.
pub open spec fn total(amounts: Seq<Sats>) -> int
    decreases amounts.len(),
{
    if amounts.len() == 0 {
        0
    } else {
        total(amounts.drop_last()) + amounts.last().0
    }
}

impl Default for Sats {
    fn default() -> (r: Self)
        ensures
            r.0 == 0,
    {
        Sats(0)
    }
}

impl Add for Sats {
    type Output = Sats;

    fn add(self, rhs: Sats) -> (r: Sats) {
        Sats(self.0 + rhs.0)
    }
}

impl AddSpecImpl for Sats {
    open spec fn obeys_add_spec() -> bool {
        true
    }

    open spec fn add_req(self, rhs: Sats) -> bool {
        i64::MIN <= self.0 + rhs.0 <= i64::MAX
    }

    open spec fn add_spec(self, rhs: Sats) -> Sats {
        Sats((self.0 + rhs.0) as i64)
    }
}

impl Sub for Sats {
    type Output = Sats;

    fn sub(self, rhs: Sats) -> (r: Sats) {
        Sats(self.0 - rhs.0)
    }
}

impl SubSpecImpl for Sats {
    open spec fn obeys_sub_spec() -> bool {
        true
    }

    open spec fn sub_req(self, rhs: Sats) -> bool {
        i64::MIN <= self.0 - rhs.0 <= i64::MAX
    }

    open spec fn sub_spec(self, rhs: Sats) -> Sats {
        Sats((self.0 - rhs.0) as i64)
    }
}

impl Neg for Sats {
    type Output = Sats;

    fn neg(self) -> (r: Sats) {
        Sats(-self.0)
    }
}

impl NegSpecImpl for Sats {
    open spec fn obeys_neg_spec() -> bool {
        true
    }

    open spec fn neg_req(self) -> bool {
        self.0 != i64::MIN
    }

    open spec fn neg_spec(self) -> Sats {
        Sats((-self.0) as i64)
    }
}

/// `rate × minutes`, the only multiplication money admits.
impl Mul<i64> for Sats {
    type Output = Sats;

    fn mul(self, rhs: i64) -> (r: Sats) {
        Sats(self.0 * rhs)
    }
}

impl MulSpecImpl<i64> for Sats {
    open spec fn obeys_mul_spec() -> bool {
        true
    }

    open spec fn mul_req(self, rhs: i64) -> bool {
        i64::MIN <= self.0 * rhs <= i64::MAX
    }

    open spec fn mul_spec(self, rhs: i64) -> Sats {
        Sats((self.0 * rhs) as i64)
    }
}

} // verus!
