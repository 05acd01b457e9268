//! Where a proxied request goes, and which of its headers go along.
use vstd::prelude::*;
use crate::reply::{reply_is, BodyKind, Reply};
use crate::text::{trim_end, trim_start, trimmed_end, trimmed_start, same_text};

verus! {

/// The upstream URL for a prefix route: the base without trailing `/`, then
/// `/` and the rest of the path without leading `/`; the base alone where
/// nothing of the path is left.
pub open spec fn joined_target(base: Seq<char>, rest: Seq<char>) -> Seq<char> {
    let b = trim_end(base, '/');
    let s = trim_start(rest, '/');
    if s.len() == 0 {
        b
    } else {
        b + seq!['/'] + s
    }
}

/// Builds the upstream URL for a prefix route from its base and the part of
/// the request path after the prefix.
pub fn wildcard_target(base: &str, rest: &str) -> (r: String)
    ensures
        r@ == joined_target(base@, rest@),
{
    proof {
        reveal_strlit("/");
    }
    let b = trimmed_end(base, '/');
    let s = trimmed_start(rest, '/');
    if s.as_str().unicode_len() == 0 {
        b
    } else {
        b.concat("/").concat(s.as_str())
    }
}

/// Whether a request header goes on to the upstream: all but `host`.
pub fn forwards_header(name: &str) -> (r: bool)
    ensures
        r == (name@ != "host"@),
{
    !same_text(name, "host")
}

/// The reply when the upstream cannot be reached: 502, with the error's text.
pub fn proxy_failure(message: &str) -> (r: Reply)
    ensures
        reply_is(r, 502, BodyKind::Plain, "Proxy Error: "@ + message@),
{
    Reply { status: 502, kind: BodyKind::Plain, body: String::from_str("Proxy Error: ").concat(message) }
}

} // verus!
