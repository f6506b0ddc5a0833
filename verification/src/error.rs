//! The error type every store operation and rule returns.
//!
//! Each error carries an HTTP-style numeric code, a short error label and a
//! human-readable message.

use vstd::prelude::*;

verus! {

#[derive(Debug)]
pub struct APIError {
    pub code: u16,
    pub error: String,
    pub message: String,
}

impl APIError {
    pub fn new(code: u16, error: &str, message: &str) -> (r: Self)
        ensures
            r.code == code,
            r.error@ == error@,
            r.message@ == message@,
    {
        Self { code, error: error.to_owned(), message: message.to_owned() }
    }

    pub fn unauthorized() -> (r: Self)
        ensures
            r.code == 401,
            r.error@ == "Unauthorized"@,
            r.message@
                == "You have not provided a valid authentication token. Please authenticate and try again."@,
    {
        Self::new(
            401,
            "Unauthorized",
            "You have not provided a valid authentication token. Please authenticate and try again.",
        )
    }
}

} // verus!
