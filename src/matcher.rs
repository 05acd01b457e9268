//! Resolving a request's method and path to the route that answers it.
use vstd::prelude::*;
use crate::model::MockApi;
use crate::registry::{key_of, make_key, MockRegistry};
use crate::text::{is_prefix, has_prefix, ends_with_char, same_text};

verus! {

/// What a request resolves to.
pub enum RouteMatch {
    /// A definition stored under the request's own key or its `ANY` key.
    Defined(MockApi),
    /// A prefix proxy route: its target base, and what of the request path
    /// follows the prefix.
    Prefix { target_base: String, rest: String },
    /// No route answers the request.
    Unmatched,
}

/// Whether `m` is a prefix proxy route that takes a request for `method` and `path`.
pub open spec fn takes_by_prefix(m: MockApi, method: Seq<char>, path: Seq<char>) -> bool {
    &&& m.response_type@ == "proxy"@
    &&& m.path@.len() > 0
    &&& m.path@.last() == '*'
    &&& (m.method@ == "ANY"@ || m.method@ == method)
    &&& is_prefix(m.path@.drop_last(), path)
}

/// Whether the `i`-th definition is the first prefix proxy route that takes the request.
pub open spec fn first_prefix_route(
    defs: Seq<MockApi>,
    method: Seq<char>,
    path: Seq<char>,
    i: int,
) -> bool {
    &&& 0 <= i < defs.len()
    &&& takes_by_prefix(defs[i], method, path)
    &&& forall|j: int| 0 <= j < i ==> !takes_by_prefix(#[trigger] defs[j], method, path)
}

/// The resolution of a request: its exact key, then its `ANY` key, then the
/// first prefix proxy route in registration order.
pub open spec fn resolves(reg: MockRegistry, method: Seq<char>, path: Seq<char>, r: RouteMatch) -> bool {
    let exact = reg.lookup(key_of(method, path));
    let any = reg.lookup(key_of("ANY"@, path));
    if exact is Some {
        r == RouteMatch::Defined(exact.unwrap())
    } else if any is Some {
        r == RouteMatch::Defined(any.unwrap())
    } else if exists|i: int| first_prefix_route(reg@, method, path, i) {
        exists|i: int|
            #![trigger reg@[i]]
            first_prefix_route(reg@, method, path, i) && (r matches RouteMatch::Prefix {
                target_base,
                rest,
            } && target_base@ == reg@[i].response_body@ && rest@ == path.subrange(
                reg@[i].path@.len() - 1,
                path.len() as int,
            ))
    } else {
        r is Unmatched
    }
}

/// Whether `m` is a prefix proxy route that takes a request for `method` and `path`.
fn prefix_route_takes(m: &MockApi, method: &str, path: &str) -> (r: bool)
    ensures
        r == takes_by_prefix(*m, method@, path@),
{
    if !same_text(m.response_type.as_str(), "proxy") || !ends_with_char(m.path.as_str(), '*') {
        return false;
    }
    if !same_text(m.method.as_str(), "ANY") && !same_text(m.method.as_str(), method) {
        return false;
    }
    let n = m.path.as_str().unicode_len();
    let prefix = m.path.as_str().substring_char(0, n - 1);
    assert(prefix@ == m.path@.drop_last());
    has_prefix(path, prefix)
}

/// Resolves a request to the route that answers it.
pub fn match_request(reg: &MockRegistry, method: &str, path: &str) -> (r: RouteMatch)
    requires
        reg.well_formed(),
    ensures
        resolves(*reg, method@, path@, r),
{
    let key = make_key(method, path);
    if let Some(m) = reg.get(key.as_str()) {
        return RouteMatch::Defined(m.duplicate());
    }
    let any_key = make_key("ANY", path);
    if let Some(m) = reg.get(any_key.as_str()) {
        return RouteMatch::Defined(m.duplicate());
    }
    let defs = reg.definitions();
    let mut i: usize = 0;
    while i < defs.len()
        invariant
            defs@ == reg@,
            i <= defs@.len(),
            reg.lookup(key_of(method@, path@)) is None,
            reg.lookup(key_of("ANY"@, path@)) is None,
            forall|j: int| 0 <= j < i ==> !takes_by_prefix(#[trigger] defs@[j], method@, path@),
        decreases defs.len() - i,
    {
        if prefix_route_takes(&defs[i], method, path) {
            let m = &defs[i];
            let n = m.path.as_str().unicode_len();
            let plen = path.unicode_len();
            let rest = String::from_str(path.substring_char(n - 1, plen));
            let r = RouteMatch::Prefix { target_base: m.response_body.clone(), rest };
            assert(first_prefix_route(reg@, method@, path@, i as int));
            assert(reg@[i as int] == *m);
            assert(r matches RouteMatch::Prefix { target_base, rest } && target_base@
                == reg@[i as int].response_body@ && rest@ == path@.subrange(
                reg@[i as int].path@.len() - 1,
                path@.len() as int,
            ));
            return r;
        }
        i = i + 1;
    }
    assert forall|i: int| !first_prefix_route(reg@, method@, path@, i) by {
        if first_prefix_route(reg@, method@, path@, i) {
            assert(!takes_by_prefix(defs@[i], method@, path@));
        }
    };
    RouteMatch::Unmatched
}

} // verus!
