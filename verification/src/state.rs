//! Billing configuration and the time source.

use std::time::{Duration, SystemTime, SystemTimeError};
use vstd::prelude::*;

verus! {

/// Billing timing, in whole seconds.
#[derive(Debug, Clone, Copy, PartialEq, Eq, Structural)]
pub struct BillingConfig {
    pub bill_period: u64,
    pub tick: u64,
    pub heartbeat_timeout: u64,
}

impl Default for BillingConfig {
    fn default() -> (r: Self)
        ensures
            r == (BillingConfig { bill_period: 60, tick: 5, heartbeat_timeout: 90 }),
    {
        BillingConfig { bill_period: 60, tick: 5, heartbeat_timeout: 90 }
    }
}

impl BillingConfig {
    pub fn bill_period_secs(&self) -> (r: i64)
        ensures
            r == self.bill_period as i64,
    {
        self.bill_period as i64
    }

    pub fn heartbeat_timeout_secs(&self) -> (r: i64)
        ensures
            r == self.heartbeat_timeout as i64,
    {
        self.heartbeat_timeout as i64
    }
}

/// Time source. `System` is the wall clock; `Manual` moves only when told to. There
/// is one clock to a market, so it cannot be copied: those who share it lock it, and
/// all of them see when it is advanced.
#[derive(Debug, PartialEq, Eq, Structural)]
pub enum Clock {
    System,
    Manual(i64),
}

/// The sum of two integers, wrapped round into the 64-bit range.
pub open spec fn wrapped_sum(a: i64, b: i64) -> i64 {
    if a + b > i64::MAX {
        (a + b - 0x1_0000_0000_0000_0000) as i64
    } else if a + b < i64::MIN {
        (a + b + 0x1_0000_0000_0000_0000) as i64
    } else {
        (a + b) as i64
    }
}

/// Advances add up: to advance a clock twice is to advance it once by the sum.
pub proof fn advances_add_up(t: i64, a: i64, b: i64)
    ensures
        wrapped_sum(wrapped_sum(t, a), b) == wrapped_sum(t, wrapped_sum(a, b)),
{
}

impl Clock {
    pub fn manual(start: i64) -> (r: Self)
        ensures
            r == Clock::Manual(start),
    {
        Clock::Manual(start)
    }

    /// Unix seconds. A manual clock always tells the time; the wall clock does
    /// unless it stands before 1970.
    pub fn now(&self) -> (r: Option<i64>)
        ensures
            *self matches Clock::Manual(t) ==> r == Some(t),
    {
        match self {
            Clock::System => system_now(),
            Clock::Manual(t) => Some(*t),
        }
    }

    /// Advances a manual clock, wrapping at the ends of the integer range. The
    /// wall clock stays as it is.
    pub fn advance(&mut self, secs: i64)
        ensures
            *final(self) == (match *old(self) {
                Clock::System => Clock::System,
                Clock::Manual(t) => Clock::Manual(wrapped_sum(t, secs)),
            }),
    {
        if let Clock::Manual(t) = *self {
            *self = Clock::Manual(t.wrapping_add(secs));
        }
    }
}

/// A point of the machine's wall clock.
#[verifier::external_type_specification]
#[verifier::external_body]
pub struct ExSystemTime(SystemTime);

/// The error of a time difference that would be negative.
#[verifier::external_type_specification]
#[verifier::external_body]
pub struct ExSystemTimeError(SystemTimeError);

/// `SystemTime::now` reads the wall clock; nothing is claimed of what it shows.
pub assume_specification[ SystemTime::now ]() -> (r: SystemTime)
;

/// `SystemTime::duration_since` is the time from `earlier` to `t`, or an error
/// when `earlier` is the later one; nothing is claimed of which it is.
pub assume_specification[ SystemTime::duration_since ](t: &SystemTime, earlier: SystemTime) -> (r: Result<
    Duration,
    SystemTimeError,
>)
;

/// `Duration::as_secs` is the number of whole seconds; nothing is claimed of it.
pub assume_specification[ Duration::as_secs ](d: &Duration) -> (r: u64)
;

/// `Duration::as_nanos` is the number of nanoseconds; nothing is claimed of it.
pub assume_specification[ Duration::as_nanos ](d: &Duration) -> (r: u128)
;

/// `SystemTime::UNIX_EPOCH`, the start of 1970.
#[verifier::external_body]
fn unix_epoch() -> (r: SystemTime) {
    SystemTime::UNIX_EPOCH
}

/// The timestamp of a reading of the wall clock, in whole seconds since 1970. A
/// number of seconds above the range of timestamps wraps round; a clock that
/// stands before 1970 has no timestamp.
pub fn timestamp(elapsed: Option<u64>) -> (r: Option<i64>)
    ensures
        r == (match elapsed {
            Some(secs) => Some(
                if secs <= i64::MAX {
                    secs as i64
                } else {
                    (secs - 0x1_0000_0000_0000_0000) as i64
                },
            ),
            None => None,
        }),
{
    match elapsed {
        Some(secs) => {
            proof {
                assert(secs > 0x7fff_ffff_ffff_ffff ==> (secs as i64) == secs
                    - 0x1_0000_0000_0000_0000) by (bit_vector);
            }
            Some(secs as i64)
        },
        None => None,
    }
}

/// Current wall-clock time as Unix seconds, unless the clock stands before 1970:
/// the [`timestamp`] of a reading. Nothing is claimed of the reading.
pub fn system_now() -> (r: Option<i64>) {
    let elapsed: Option<u64> = match SystemTime::now().duration_since(unix_epoch()) {
        Ok(d) => Some(d.as_secs()),
        Err(_) => None,
    };
    timestamp(elapsed)
}

/// The lowest 64 bits of a reading of the wall clock in nanoseconds since 1970;
/// zero for a clock that stands before 1970.
pub fn low_bits(elapsed: Option<u128>) -> (r: u64)
    ensures
        r == (match elapsed {
            Some(nanos) => nanos % 0x1_0000_0000_0000_0000,
            None => 0,
        }),
{
    match elapsed {
        Some(nanos) => (nanos % 0x1_0000_0000_0000_0000) as u64,
        None => 0,
    }
}

/// Nanoseconds of the wall clock since 1970, cut to 64 bits; zero when the clock
/// stands before 1970: the [`low_bits`] of a reading. Nothing is claimed of the
/// reading.
pub fn wall_nanos() -> (r: u64) {
    let elapsed: Option<u128> = match SystemTime::now().duration_since(unix_epoch()) {
        Ok(d) => Some(d.as_nanos()),
        Err(_) => None,
    };
    low_bits(elapsed)
}

} // verus!
