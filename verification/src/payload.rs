//! The event JSON an agent host hands a hook on stdin: the few fields the
//! hooks read, each read on its own so one wrong-typed field leaves the
//! others intact, and malformed JSON reading as an empty event.
use vstd::prelude::*;
use crate::json::{parse_json, spec_parse_json};
use crate::settings::{get_member, json_view, Json, JsonV};
use crate::text::trim;
use crate::settings::is_blank;

verus! {

/// The fields of a hook event the hooks read.
#[derive(Debug, Clone, PartialEq, Eq, Default)]
pub struct HookPayload {
    /// `source`: why the session started (`startup`, `compact`, `resume`, ...).
    pub source: Option<String>,
    /// `cwd`: the session's working directory.
    pub cwd: Option<String>,
    /// `session_id`: the session that ended a turn.
    pub session_id: Option<String>,
    /// `stop_hook_active`: the Stop hook's own loop guard.
    pub stop_hook_active: Option<bool>,
}

/// The event a non-blank payload holds: what `serde_json` reads from it, or
/// an empty object when it is not JSON.
pub open spec fn event_value(raw: Seq<char>) -> JsonV {
    match spec_parse_json(raw) {
        Some(v) => v,
        None => JsonV::Object(seq![]),
    }
}

/// Member `key` of `v` when it is a string.
pub open spec fn str_member(v: JsonV, key: Seq<char>) -> Option<Seq<char>> {
    match get_member(v, key) {
        Some(JsonV::Str(s)) => Some(s),
        _ => None,
    }
}

/// Member `key` of `v` when it is a boolean.
pub open spec fn bool_member(v: JsonV, key: Seq<char>) -> Option<bool> {
    match get_member(v, key) {
        Some(JsonV::Bool(b)) => Some(b),
        _ => None,
    }
}

fn str_field(v: &Json, key: &str) -> (r: Option<String>)
    ensures
        r.deep_view() == str_member(json_view(*v), key@),
{
    match v.get(key) {
        Some(x) => match x.as_str() {
            Some(t) => Some(t.to_string()),
            None => None,
        },
        None => None,
    }
}

fn bool_field(v: &Json, key: &str) -> (r: Option<bool>)
    ensures
        r == bool_member(json_view(*v), key@),
{
    match v.get(key) {
        Some(Json::Bool(b)) => Some(*b),
        _ => None,
    }
}

/// Read a hook's raw stdin: `None` for a blank payload (nothing to do);
/// otherwise each field read on its own from the event (see `event_value`),
/// absent when missing or of another type.
pub fn hook_payload(raw: &str) -> (r: Option<HookPayload>)
    ensures
        r is None <==> trim(raw@).len() == 0,
        r matches Some(p) ==> {
            let v = event_value(raw@);
            &&& p.source.deep_view() == str_member(v, "source"@)
            &&& p.cwd.deep_view() == str_member(v, "cwd"@)
            &&& p.session_id.deep_view() == str_member(v, "session_id"@)
            &&& p.stop_hook_active == bool_member(v, "stop_hook_active"@)
        },
{
    if is_blank(raw) {
        return None;
    }
    let v = match parse_json(raw) {
        Some(j) => j,
        None => {
            let e = Json::Object(Vec::new());
            proof {
                assert(json_view(e) == JsonV::Object(seq![])) by {
                    crate::settings::lemma_members_view(Seq::<(String, Json)>::empty());
                    assert(crate::settings::members_view(Seq::<(String, Json)>::empty()) =~= seq![]);
                }
            }
            e
        },
    };
    Some(HookPayload {
        source: str_field(&v, "source"),
        cwd: str_field(&v, "cwd"),
        session_id: str_field(&v, "session_id"),
        stop_hook_active: bool_field(&v, "stop_hook_active"),
    })
}

} // verus!
