//! The lnd REST backend, reserved: every call says that it is not there yet.

use vstd::prelude::*;

use super::Invoice;
use crate::money::Sats;

verus! {

/// What every call of the backend answers.
pub open spec fn unimplemented_text() -> Seq<char> {
    "the lnd backend is not implemented yet; set LN_BACKEND=mock"@
}

fn not_implemented() -> (r: String)
    ensures
        r@ == unimplemented_text(),
{
    "the lnd backend is not implemented yet; set LN_BACKEND=mock".to_owned()
}

/// A client of lnd's REST interface.
#[derive(Debug, Clone, Copy, PartialEq, Eq, Structural)]
pub struct LndRest;

impl LndRest {
    pub fn new() -> (r: Result<Self, String>)
        ensures
            r matches Err(e) && e@ == unimplemented_text(),
    {
        Err(not_implemented())
    }

    pub fn create_invoice(&self, _sats: Sats, _memo: &str) -> (r: Result<Invoice, String>)
        ensures
            r matches Err(e) && e@ == unimplemented_text(),
    {
        Err(not_implemented())
    }

    pub fn is_settled(&self, _payment_hash: &str) -> (r: Result<bool, String>)
        ensures
            r matches Err(e) && e@ == unimplemented_text(),
    {
        Err(not_implemented())
    }

    pub fn pay_invoice(&self, _bolt11: &str) -> (r: Result<(), String>)
        ensures
            r matches Err(e) && e@ == unimplemented_text(),
    {
        Err(not_implemented())
    }
}

} // verus!
