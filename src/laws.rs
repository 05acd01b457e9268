//! What holds of dispatch over every registry and request.
use vstd::prelude::*;
use crate::matcher::{resolves, takes_by_prefix, first_prefix_route, RouteMatch};
use crate::registry::{key_of, MockRegistry};
use crate::reply::{answers_with, not_found_is, planned, Plan};

verus! {

/// A request with the method and path of a stored definition is answered
/// by that definition: its status and its body strategy.
pub proof fn lemma_registered_route_answers(reg: MockRegistry, i: int, p: Plan)
    requires
        reg.well_formed(),
        0 <= i < reg@.len(),
        planned(reg, reg@[i].method@, reg@[i].path@, p),
    ensures
        answers_with(reg@[i], p),
{
    reg.lemma_lookup_at(i);
    let found = choose|found: RouteMatch|
        #[trigger] resolves(reg, reg@[i].method@, reg@[i].path@, found) && match found {
            RouteMatch::Defined(m) => answers_with(m, p),
            RouteMatch::Prefix { target_base, rest } => p matches Plan::Forward { url }
                && url@ == crate::proxy::joined_target(target_base@, rest@),
            RouteMatch::Unmatched => p matches Plan::Respond(r) && not_found_is(
                r,
                reg@[i].method@,
                reg@[i].path@,
            ),
        };
}

/// A request whose own key and `ANY` key are both unused, and which no
/// prefix proxy route takes, is answered 404 with a body naming its key.
pub proof fn lemma_unregistered_method_not_found(
    reg: MockRegistry,
    method: Seq<char>,
    path: Seq<char>,
    p: Plan,
)
    requires
        reg.well_formed(),
        reg.lookup(key_of(method, path)) is None,
        reg.lookup(key_of("ANY"@, path)) is None,
        forall|j: int| 0 <= j < reg@.len() ==> !takes_by_prefix(#[trigger] reg@[j], method, path),
        planned(reg, method, path, p),
    ensures
        p matches Plan::Respond(r) && not_found_is(r, method, path) && r.status == 404,
{
    assert(!exists|i: int| first_prefix_route(reg@, method, path, i));
}

/// Where no definition has the request's own key, an `ANY` definition for
/// its path answers it, whatever the method.
pub proof fn lemma_any_route_answers(reg: MockRegistry, method: Seq<char>, path: Seq<char>, p: Plan)
    requires
        reg.well_formed(),
        reg.lookup(key_of(method, path)) is None,
        reg.lookup(key_of("ANY"@, path)) is Some,
        planned(reg, method, path, p),
    ensures
        answers_with(reg.lookup(key_of("ANY"@, path)).unwrap(), p),
{
}

} // verus!
