//! Lightning payment backends. A backend creates invoices, tells whether one has
//! been paid, and pays the invoices of others.

pub mod lnd;
pub mod mock;

use vstd::prelude::*;

use crate::text::same_text;

verus! {

/// A created invoice. The payment hash is hexadecimal.
#[derive(Debug, Clone, PartialEq, Eq)]
pub struct Invoice {
    pub bolt11: String,
    pub payment_hash: String,
}

/// What [`Invoice`] holds, with its texts as character sequences.
#[verifier::ext_equal]
pub struct InvoiceView {
    pub bolt11: Seq<char>,
    pub payment_hash: Seq<char>,
}

/// The backends that can be configured.
#[derive(Debug, Clone, Copy, PartialEq, Eq, Structural)]
pub enum BackendName {
    Mock,
    Lnd,
}

/// Reads the name of a backend.
pub fn select_backend(name: &str) -> (r: Result<BackendName, String>)
    ensures
        match r {
            Ok(BackendName::Mock) => name@ == "mock"@,
            Ok(BackendName::Lnd) => name@ == "lnd"@,
            Err(e) => name@ != "mock"@ && name@ != "lnd"@ && e@ == "unknown LN_BACKEND: "@ + name@,
        },
{
    if same_text(name, "mock") {
        return Ok(BackendName::Mock);
    }
    if same_text(name, "lnd") {
        return Ok(BackendName::Lnd);
    }
    let mut e = "unknown LN_BACKEND: ".to_owned();
    e.push_str(name);
    Err(e)
}

impl View for Invoice {
    type V = InvoiceView;

    open spec fn view(&self) -> InvoiceView {
        InvoiceView { bolt11: self.bolt11@, payment_hash: self.payment_hash@ }
    }
}

} // verus!
