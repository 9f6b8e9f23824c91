//! One error type for all handlers: an HTTP status and a message.

use vstd::prelude::*;

verus! {

/// A handler error carrying the HTTP status to return.
#[derive(Debug, Clone, PartialEq, Eq)]
pub struct ApiError {
    pub status: u16,
    pub message: String,
}

/// What [`ApiError`] holds, with its message as a character sequence.
#[verifier::ext_equal]
pub struct ApiErrorView {
    pub status: u16,
    pub message: Seq<char>,
}

impl View for ApiError {
    type V = ApiErrorView;

    open spec fn view(&self) -> ApiErrorView {
        ApiErrorView { status: self.status, message: self.message@ }
    }
}

/// The error with a given status and message.
pub open spec fn refusal(status: u16, message: Seq<char>) -> ApiErrorView {
    ApiErrorView { status, message }
}

impl ApiError {
    pub fn new(status: u16, message: &str) -> (r: Self)
        ensures
            r@ == refusal(status, message@),
    {
        ApiError { status, message: message.to_owned() }
    }

    pub fn not_found(m: &str) -> (r: Self)
        ensures
            r@ == refusal(404, m@),
    {
        Self::new(404, m)
    }

    pub fn conflict(m: &str) -> (r: Self)
        ensures
            r@ == refusal(409, m@),
    {
        Self::new(409, m)
    }

    pub fn payment_required(m: &str) -> (r: Self)
        ensures
            r@ == refusal(402, m@),
    {
        Self::new(402, m)
    }

    pub fn bad_request(m: &str) -> (r: Self)
        ensures
            r@ == refusal(400, m@),
    {
        Self::new(400, m)
    }

    pub fn unauthorized(m: &str) -> (r: Self)
        ensures
            r@ == refusal(401, m@),
    {
        Self::new(401, m)
    }

    pub fn bad_gateway(m: &str) -> (r: Self)
        ensures
            r@ == refusal(502, m@),
    {
        Self::new(502, m)
    }

    /// A failure of the database.
    pub fn database(e: &str) -> (r: Self)
        ensures
            r@ == refusal(500, "database error: "@ + e@),
    {
        let mut m = "database error: ".to_owned();
        m.push_str(e);
        Self::new(500, m.as_str())
    }

    /// A failure to read or write a stored value.
    pub fn serialization(e: &str) -> (r: Self)
        ensures
            r@ == refusal(500, "serialization error: "@ + e@),
    {
        let mut m = "serialization error: ".to_owned();
        m.push_str(e);
        Self::new(500, m.as_str())
    }

    /// A failure of the store: a broken reference or a number out of range.
    pub fn internal(m: &str) -> (r: Self)
        ensures
            r@ == refusal(500, m@),
    {
        Self::new(500, m)
    }
}

} // verus!
