//! How a matched route answers: static bodies, scripts and proxying are
//! planned here; the body of a static reply is decided in full.
use vstd::prelude::*;
use crate::matcher::{match_request, resolves, RouteMatch};
use crate::model::MockApi;
use crate::proxy::{joined_target, wildcard_target};
use crate::registry::{key_of, make_key, MockRegistry};
use crate::text::same_text;
use crate::valid_status;

verus! {

/// The compact JSON text of the value that `s` parses to, or `None` where
/// `s` is not JSON.
pub uninterp spec fn json_reformat(s: Seq<char>) -> Option<Seq<char>>;

/// Relies on `serde_json::from_str` into a `serde_json::Value`, and on the
/// value's `Display`, which writes it compactly: both depend on the text alone.
#[verifier::external_body]
pub(crate) fn reformat_json(s: &str) -> (r: Option<String>)
    ensures
        match r {
            Some(t) => json_reformat(s@) == Some(t@),
            None => json_reformat(s@) is None,
        },
{
    serde_json::from_str::<serde_json::Value>(s).ok().map(|v| v.to_string())
}

/// How a reply's body is to be labelled.
#[derive(PartialEq, Eq, Structural, Clone, Copy, Debug)]
pub enum BodyKind {
    /// JSON text.
    Json,
    /// An HTML page.
    Html,
    /// Text sent as it stands.
    Plain,
}

/// A complete reply: status, label and body.
pub struct Reply {
    pub status: u16,
    pub kind: BodyKind,
    pub body: String,
}

/// What the server does with a request.
pub enum Plan {
    /// Sends this reply.
    Respond(Reply),
    /// Runs this script source, with this status unless the script sets another.
    Script { status: u16, source: String },
    /// Forwards the request to this URL and relays what comes back.
    Forward { url: String },
}

/// Whether `r` has this status, label and body.
pub open spec fn reply_is(r: Reply, status: u16, kind: BodyKind, body: Seq<char>) -> bool {
    r.status == status && r.kind == kind && r.body@ == body
}

/// The configured status where it is a valid one, else 200.
pub open spec fn status_or_ok(code: u16) -> u16 {
    if valid_status(code) {
        code
    } else {
        200
    }
}

/// The status of a definition, falling back to 200 where it is not valid.
pub fn effective_status(code: u16) -> (r: u16)
    ensures
        r == status_or_ok(code),
{
    if crate::is_valid_status(code) {
        code
    } else {
        200
    }
}

/// The reply for JSON text: its compact form where it parses, the text as
/// it stands where it does not.
pub open spec fn json_reply_is(r: Reply, status: u16, text: Seq<char>, parsed: Option<Seq<char>>) -> bool {
    match parsed {
        Some(t) => reply_is(r, status, BodyKind::Json, t),
        None => reply_is(r, status, BodyKind::Plain, text),
    }
}

/// Builds the reply for JSON text from the text and from what parsing it gave.
pub fn json_reply(status: u16, text: &str, parsed: Option<String>) -> (r: Reply)
    ensures
        json_reply_is(r, status, text@, match parsed {
            Some(t) => Some(t@),
            None => None,
        }),
{
    match parsed {
        Some(t) => Reply { status, kind: BodyKind::Json, body: t },
        None => Reply { status, kind: BodyKind::Plain, body: String::from_str(text) },
    }
}

/// The script source that runs a route's body as a function of `request`.
pub open spec fn wrapped_script(body: Seq<char>) -> Seq<char> {
    "(function(request) {\n"@ + body + "\n})(request);\n"@
}

/// Wraps a route's script body into a call of an anonymous function of `request`.
pub fn wrap_script(body: &str) -> (r: String)
    ensures
        r@ == wrapped_script(body@),
{
    String::from_str("(function(request) {\n").concat(body).concat("\n})(request);\n")
}

/// What a definition does with a request that it answers.
pub open spec fn answers_with(m: MockApi, p: Plan) -> bool {
    let status = status_or_ok(m.status_code);
    let body = m.response_body@;
    if m.response_type@ == "json"@ {
        p matches Plan::Respond(r) && json_reply_is(r, status, body, json_reformat(body))
    } else if m.response_type@ == "html"@ {
        p matches Plan::Respond(r) && reply_is(r, status, BodyKind::Html, body)
    } else if m.response_type@ == "js"@ {
        p matches Plan::Script { status: s, source } && s == status && source@ == wrapped_script(body)
    } else if m.response_type@ == "proxy"@ {
        p matches Plan::Forward { url } && url@ == body
    } else {
        p matches Plan::Respond(r) && reply_is(r, status, BodyKind::Plain, body)
    }
}

/// Plans the answer of a matched definition.
pub fn plan_for(m: &MockApi) -> (p: Plan)
    ensures
        answers_with(*m, p),
{
    let status = effective_status(m.status_code);
    let kind = m.response_type.as_str();
    let body = m.response_body.as_str();
    if same_text(kind, "json") {
        let parsed = reformat_json(body);
        Plan::Respond(json_reply(status, body, parsed))
    } else if same_text(kind, "html") {
        Plan::Respond(Reply { status, kind: BodyKind::Html, body: m.response_body.clone() })
    } else if same_text(kind, "js") {
        Plan::Script { status, source: wrap_script(body) }
    } else if same_text(kind, "proxy") {
        Plan::Forward { url: m.response_body.clone() }
    } else {
        Plan::Respond(Reply { status, kind: BodyKind::Plain, body: m.response_body.clone() })
    }
}

/// The reply to a request that no route answers: 404, naming its key.
pub open spec fn not_found_is(r: Reply, method: Seq<char>, path: Seq<char>) -> bool {
    reply_is(r, 404, BodyKind::Plain, "Not Found: "@ + key_of(method, path))
}

/// What the server does with a request for `method` and `path`.
pub open spec fn planned(reg: MockRegistry, method: Seq<char>, path: Seq<char>, p: Plan) -> bool {
    exists|found: RouteMatch|
        #[trigger] resolves(reg, method, path, found) && match found {
            RouteMatch::Defined(m) => answers_with(m, p),
            RouteMatch::Prefix { target_base, rest } => p matches Plan::Forward { url }
                && url@ == joined_target(target_base@, rest@),
            RouteMatch::Unmatched => p matches Plan::Respond(r) && not_found_is(r, method, path),
        }
}

/// Decides what the server does with a request for `method` and `path`.
pub fn plan_request(reg: &MockRegistry, method: &str, path: &str) -> (p: Plan)
    requires
        reg.well_formed(),
    ensures
        planned(*reg, method@, path@, p),
{
    let found = match_request(reg, method, path);
    let p = match &found {
        RouteMatch::Defined(m) => plan_for(m),
        RouteMatch::Prefix { target_base, rest } => Plan::Forward {
            url: wildcard_target(target_base.as_str(), rest.as_str()),
        },
        RouteMatch::Unmatched => {
            let key = make_key(method, path);
            Plan::Respond(
                Reply { status: 404, kind: BodyKind::Plain, body: String::from_str("Not Found: ").concat(key.as_str()) },
            )
        },
    };
    assert(resolves(*reg, method@, path@, found));
    p
}

} // verus!
