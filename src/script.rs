//! The script sandbox's decisions: the status a script sets, the line that
//! `console.log` writes, and the reply that a script's result becomes.
use vstd::prelude::*;
use crate::reply::{json_reformat, json_reply_is, reformat_json, json_reply, reply_is, BodyKind, Reply};
use crate::{is_valid_status, valid_status};

verus! {

/// The status after a script asks for `requested`: taken where it is a
/// valid status, ignored where it is not.
pub fn set_status_code(current: u16, requested: u16) -> (r: u16)
    ensures
        r == if valid_status(requested) {
            requested
        } else {
            current
        },
{
    if is_valid_status(requested) {
        requested
    } else {
        current
    }
}

/// The texts of `parts`, one space between each two.
pub open spec fn joined(parts: Seq<Seq<char>>) -> Seq<char>
    decreases parts.len(),
{
    if parts.len() == 0 {
        Seq::empty()
    } else if parts.len() == 1 {
        parts[0]
    } else {
        joined(parts.drop_last()) + seq![' '] + parts.last()
    }
}

/// The views of a list of strings.
pub open spec fn texts(parts: Seq<String>) -> Seq<Seq<char>> {
    parts.map_values(|s: String| s@)
}

/// The line that `console.log` writes for its arguments, each already
/// rendered as text: they are joined by single spaces.
pub fn console_line(parts: &Vec<String>) -> (r: String)
    ensures
        r@ == joined(texts(parts@)),
{
    let mut out = String::new();
    let mut i: usize = 0;
    while i < parts.len()
        invariant
            i <= parts@.len(),
            out@ == joined(texts(parts@.subrange(0, i as int))),
        decreases parts.len() - i,
    {
        let ghost before = texts(parts@.subrange(0, i as int));
        let ghost after = texts(parts@.subrange(0, i + 1));
        assert(after.drop_last() == before);
        assert(after.last() == parts@[i as int]@);
        assert(after.len() == i + 1);
        if i > 0 {
            proof {
                reveal_strlit(" ");
            }
            out.append(" ");
            out.append(parts[i].as_str());
            assert(joined(after) == joined(before) + seq![' '] + after.last());
        } else {
            out.append(parts[i].as_str());
            assert(joined(after) == after[0]);
        }
        i = i + 1;
    }
    assert(parts@.subrange(0, parts@.len() as int) == parts@);
    out
}

/// What a script returned, as the interpreter hands it over.
pub enum ScriptValue {
    /// A string: sent as JSON where it parses as JSON, else as it stands.
    Text(String),
    /// Any other value, already written out as text (an object through
    /// `JSON.stringify`): sent as it stands.
    Rendered(String),
}

/// The reply to a script run whose result is `outcome`, where `parsed` is
/// what parsing a textual result as JSON gave: a failed run answers 500
/// with the error's text.
pub open spec fn script_reply_is(
    r: Reply,
    status: u16,
    outcome: Result<ScriptValue, String>,
    parsed: Option<Seq<char>>,
) -> bool {
    match outcome {
        Ok(ScriptValue::Text(t)) => json_reply_is(r, status, t@, parsed),
        Ok(ScriptValue::Rendered(t)) => reply_is(r, status, BodyKind::Plain, t@),
        Err(e) => reply_is(r, 500, BodyKind::Plain, "JS Error: "@ + e@),
    }
}

/// The reply to a script run, given what parsing its textual result as JSON gave.
pub fn script_reply_parsed(status: u16, outcome: Result<ScriptValue, String>, parsed: Option<String>) -> (r: Reply)
    ensures
        script_reply_is(r, status, outcome, match parsed {
            Some(t) => Some(t@),
            None => None,
        }),
{
    match outcome {
        Ok(ScriptValue::Text(t)) => json_reply(status, t.as_str(), parsed),
        Ok(ScriptValue::Rendered(t)) => Reply { status, kind: BodyKind::Plain, body: t },
        Err(e) => Reply {
            status: 500,
            kind: BodyKind::Plain,
            body: String::from_str("JS Error: ").concat(e.as_str()),
        },
    }
}

/// The reply to a script run: `status` is the one in force when it ended.
pub fn script_reply(status: u16, outcome: Result<ScriptValue, String>) -> (r: Reply)
    ensures
        script_reply_is(r, status, outcome, match outcome {
            Ok(ScriptValue::Text(t)) => json_reformat(t@),
            _ => None,
        }),
{
    let parsed = match &outcome {
        Ok(ScriptValue::Text(t)) => reformat_json(t.as_str()),
        _ => None,
    };
    script_reply_parsed(status, outcome, parsed)
}

} // verus!
