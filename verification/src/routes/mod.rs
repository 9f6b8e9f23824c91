//! The handlers, split into the agent-facing and the tenant-facing surface.

pub mod agent;
pub mod ranking;
pub mod tenant;

use vstd::prelude::*;

use crate::db::{machine_with_token, opt_str, Market, Tables};
use crate::error::{refusal, ApiError, ApiErrorView};
use crate::state::wall_nanos;
use crate::text::{
    has_prefix, hex, hex_tells_apart, lemma_hex_range, push_hex, strip_prefix,
};

verus! {

/// The row of the machine that an `Authorization` header proves to be calling,
/// or the refusal of the call.
pub open spec fn caller(m: Market, authorization: Option<Seq<char>>) -> Result<int, ApiErrorView> {
    match authorization {
        Some(h) => if has_prefix(h, "Bearer "@) {
            match machine_with_token(m, h.skip("Bearer "@.len() as int)) {
                Some(i) => Ok(i),
                None => Err(refusal(401, "invalid agent token"@)),
            }
        } else {
            Err(refusal(401, "missing or malformed bearer token"@))
        },
        None => Err(refusal(401, "missing or malformed bearer token"@)),
    }
}

/// Resolves `Authorization: Bearer <agent_token>` to the row of the owning
/// machine, or 401.
pub fn authenticate(tables: &Tables, authorization: Option<&str>) -> (r: Result<usize, ApiError>)
    ensures
        match r {
            Ok(i) => caller(tables@, opt_str(authorization)) == Ok::<int, ApiErrorView>(
                i as int,
            ) && i < tables.machines@.len(),
            Err(e) => caller(tables@, opt_str(authorization)) == Err::<
                int,
                ApiErrorView,
            >(e@),
        },
{
    let token: Option<String> = match authorization {
        Some(h) => strip_prefix(h, "Bearer "),
        None => None,
    };
    match token {
        Some(t) => match tables.machine_with_token(t.as_str()) {
            Some(i) => Ok(i),
            None => Err(ApiError::unauthorized("invalid agent token")),
        },
        None => Err(ApiError::unauthorized("missing or malformed bearer token")),
    }
}

/// Sixty-four bits turned left by seventeen places.
pub open spec fn turned(x: u64) -> u64 {
    (x << 17) | (x >> 47)
}

/// A running number multiplied by a large odd factor, cut to 64 bits.
pub open spec fn scrambled(n: u64) -> u64 {
    ((n * 0x9E37_79B9_7F4A_7C15) % 0x1_0000_0000_0000_0000) as u64
}

/// The bits of an id: the clock's reading scrambled with a running number.
pub open spec fn mixed(nanos: u64, n: u64) -> u64 {
    nanos ^ turned(scrambled(n))
}

/// Two ids of one moment differ as long as the running number does.
pub proof fn ids_of_one_moment_differ(nanos: u64, a: u64, b: u64)
    requires
        mixed(nanos, a) == mixed(nanos, b),
    ensures
        a == b,
{
    let x = scrambled(a);
    let y = scrambled(b);
    assert(nanos ^ turned(x) == nanos ^ turned(y));
    assert(x == y) by (bit_vector)
        requires
            nanos ^ ((x << 17) | (x >> 47)) == nanos ^ ((y << 17) | (y >> 47)),
    ;
    lemma_unscramble(a);
    lemma_unscramble(b);
}

/// Two ids with one running number differ as long as the clock does.
pub proof fn ids_of_two_moments_differ(x: u64, y: u64, n: u64)
    requires
        mixed(x, n) == mixed(y, n),
    ensures
        x == y,
{
    let t = turned(scrambled(n));
    assert(x == y) by (bit_vector)
        requires
            x ^ t == y ^ t,
    ;
}

/// The factor has an inverse, so the product tells the number.
proof fn lemma_unscramble(n: u64)
    ensures
        (scrambled(n) * 0xF1DE83E19937733D) % 0x1_0000_0000_0000_0000 == n,
{
    let k: int = 0x9E37_79B9_7F4A_7C15;
    let inv: int = 0xF1DE83E19937733D;
    let m: int = 0x1_0000_0000_0000_0000;
    vstd::arithmetic::div_mod::lemma_mul_mod_noop_left(n * k, inv, m);
    vstd::arithmetic::mul::lemma_mul_is_associative(n as int, k, inv);
    vstd::arithmetic::div_mod::lemma_mul_mod_noop_right(n as int, k * inv, m);
    assert((k * inv) % m == 1);
}

/// Combines a reading of the clock with a running number.
pub fn mix(nanos: u64, n: u64) -> (r: u64)
    ensures
        r == mixed(nanos, n),
{
    let x: u64 = n.wrapping_mul(0x9E37_79B9_7F4A_7C15);
    nanos ^ ((x << 17) | (x >> 47))
}

/// The token that stands for an id: a tag and sixteen hexadecimal digits.
pub open spec fn tagged(tag: Seq<char>, id: u64) -> Seq<char> {
    tag + hex(id as nat, 16)
}

/// Tokens of one moment differ, as ids do: a source that counts on does not give out
/// one token twice within a reading of the clock.
pub proof fn tokens_of_one_moment_differ(tag: Seq<char>, nanos: u64, a: u64, b: u64)
    requires
        tagged(tag, mixed(nanos, a)) == tagged(tag, mixed(nanos, b)),
    ensures
        a == b,
{
    let x = mixed(nanos, a);
    let y = mixed(nanos, b);
    let n = tag.len() as int;
    assert(hex(x as nat, 16) =~= tagged(tag, x).skip(n));
    assert(hex(y as nat, 16) =~= tagged(tag, y).skip(n));
    lemma_hex_range(16);
    hex_tells_apart(x as nat, y as nat, 16);
    ids_of_one_moment_differ(nanos, a, b);
}

/// A text made of a tag and sixteen hexadecimal digits.
pub fn tag_id(tag: &str, id: u64) -> (r: String)
    ensures
        r@ == tagged(tag@, id),
{
    let mut s = tag.to_owned();
    push_hex(&mut s, id, 16);
    s
}

/// Source of agent tokens and account ids. They are unique in practice and easy
/// to guess: good enough for a proof of concept only.
#[derive(Debug, Clone, Copy, PartialEq, Eq, Structural)]
pub struct IdSource {
    pub counter: u64,
}

impl IdSource {
    pub fn new() -> (r: Self)
        ensures
            r.counter == 0,
    {
        IdSource { counter: 0 }
    }

    /// The next number of the source, which then counts on and wraps at the end.
    pub fn take(&mut self) -> (n: u64)
        ensures
            n == old(self).counter,
            final(self).counter == (if n == u64::MAX { 0 } else { n + 1 }),
    {
        let n: u64 = self.counter;
        self.counter = if n == u64::MAX { 0 } else { n + 1 };
        n
    }

    /// The token of a host agent, made at a reading of the clock, with the next running number.
    pub fn agent_token_at(&mut self, nanos: u64) -> (r: String)
        ensures
            r@ == tagged("agt_"@, mixed(nanos, old(self).counter)),
            final(self).counter == (if old(self).counter == u64::MAX {
                0
            } else {
                old(self).counter + 1
            }),
    {
        let n: u64 = self.take();
        tag_id("agt_", mix(nanos, n))
    }

    /// A token for a host agent: the one made at a reading of the clock.
    pub fn new_agent_token(&mut self) -> (r: String)
        ensures
            exists|nanos: u64| r@ == #[trigger] tagged("agt_"@, mixed(nanos, old(self).counter)),
            final(self).counter == (if old(self).counter == u64::MAX {
                0
            } else {
                old(self).counter + 1
            }),
    {
        self.agent_token_at(wall_nanos())
    }

    /// The id of an account, made at a reading of the clock, with the next running number.
    pub fn account_id_at(&mut self, nanos: u64) -> (r: String)
        ensures
            r@ == tagged("acct_"@, mixed(nanos, old(self).counter)),
            final(self).counter == (if old(self).counter == u64::MAX {
                0
            } else {
                old(self).counter + 1
            }),
    {
        let n: u64 = self.take();
        tag_id("acct_", mix(nanos, n))
    }

    /// An id for a new account: the one made at a reading of the clock.
    pub fn new_account_id(&mut self) -> (r: String)
        ensures
            exists|nanos: u64| r@ == #[trigger] tagged("acct_"@, mixed(nanos, old(self).counter)),
            final(self).counter == (if old(self).counter == u64::MAX {
                0
            } else {
                old(self).counter + 1
            }),
    {
        self.account_id_at(wall_nanos())
    }
}

} // verus!
