//! A programmable HTTP mock server's request-dispatch core: the route
//! registry and matcher, the reply strategies, the script and database
//! bridges' decisions, the proxy target rules and the bounded request log.
use vstd::prelude::*;

pub mod db;
pub mod laws;
pub mod log;
pub mod matcher;
pub mod model;
pub mod proxy;
pub mod registry;
pub mod reply;
pub mod script;
pub mod text;

verus! {

/// Whether `code` is accepted as an HTTP status code (three digits).
pub open spec fn valid_status(code: u16) -> bool {
    100 <= code && code <= 999
}

/// Checks that `code` is a three-digit HTTP status code.
pub fn is_valid_status(code: u16) -> (r: bool)
    ensures
        r == valid_status(code),
{
    100 <= code && code <= 999
}

} // verus!
