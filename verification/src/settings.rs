//! Merging CBC's entries into the host agent's settings JSON: the
//! `permissions.allow` rule that auto-approves the chatbotchat MCP server, and
//! the `SessionStart` hook that relaunches polls after a compaction. Every
//! merge leaves unrelated keys untouched, is idempotent, and errors rather
//! than clobbering a hand-maintained file whose shape is unexpected.
use vstd::prelude::*;
use crate::text::{chars_of, str_eq, trim, trim_span};
use crate::json::{parse_json, render_pretty_json, spec_parse_json, spec_pretty_json};

verus! {

/// A JSON document. Numbers are carried as their text; an object keeps its
/// members in order (keys are distinct in documents read from disk).
#[derive(Debug)]
pub enum Json {
    Null,
    Bool(bool),
    Number(String),
    Str(String),
    Array(Vec<Json>),
    Object(Vec<(String, Json)>),
}

/// The mathematical value of a JSON document.
pub enum JsonV {
    Null,
    Bool(bool),
    Number(Seq<char>),
    Str(Seq<char>),
    Array(Seq<JsonV>),
    Object(Seq<(Seq<char>, JsonV)>),
}

/// The value of a document.
pub open spec fn json_view(j: Json) -> JsonV
    decreases j,
{
    match j {
        Json::Null => JsonV::Null,
        Json::Bool(b) => JsonV::Bool(b),
        Json::Number(n) => JsonV::Number(n@),
        Json::Str(s) => JsonV::Str(s@),
        Json::Array(v) => JsonV::Array(items_view(v@)),
        Json::Object(v) => JsonV::Object(members_view(v@)),
    }
}

/// The values of array items.
pub open spec fn items_view(s: Seq<Json>) -> Seq<JsonV>
    decreases s,
{
    if s.len() == 0 {
        seq![]
    } else {
        items_view(s.subrange(0, s.len() - 1)).push(json_view(s[s.len() - 1]))
    }
}

/// The values of object members.
pub open spec fn members_view(s: Seq<(String, Json)>) -> Seq<(Seq<char>, JsonV)>
    decreases s,
{
    if s.len() == 0 {
        seq![]
    } else {
        members_view(s.subrange(0, s.len() - 1)).push(
            (s[s.len() - 1].0@, json_view(s[s.len() - 1].1)),
        )
    }
}

proof fn lemma_items_view(s: Seq<Json>)
    ensures
        items_view(s).len() == s.len(),
        forall|i: int| 0 <= i < s.len() ==> #[trigger] items_view(s)[i] == json_view(s[i]),
    decreases s.len(),
{
    if s.len() > 0 {
        lemma_items_view(s.subrange(0, s.len() - 1));
    }
}

pub proof fn lemma_members_view(s: Seq<(String, Json)>)
    ensures
        members_view(s).len() == s.len(),
        forall|i: int|
            0 <= i < s.len() ==> #[trigger] members_view(s)[i] == (s[i].0@, json_view(s[i].1)),
    decreases s.len(),
{
    if s.len() > 0 {
        lemma_members_view(s.subrange(0, s.len() - 1));
    }
}

/// The index of the first member whose key is `key`.
pub open spec fn lookup(ms: Seq<(Seq<char>, JsonV)>, key: Seq<char>) -> Option<int>
    decreases ms.len(),
{
    if ms.len() == 0 {
        None
    } else {
        match lookup(ms.drop_last(), key) {
            Some(i) => Some(i),
            None => if ms.last().0 == key {
                Some(ms.len() - 1)
            } else {
                None
            },
        }
    }
}

proof fn lemma_lookup(ms: Seq<(Seq<char>, JsonV)>, key: Seq<char>)
    ensures
        lookup(ms, key) matches Some(i) ==> 0 <= i < ms.len() && ms[i].0 == key && forall|j: int|
            0 <= j < i ==> ms[j].0 != key,
        lookup(ms, key) is None ==> forall|j: int| 0 <= j < ms.len() ==> ms[j].0 != key,
    decreases ms.len(),
{
    if ms.len() > 0 {
        lemma_lookup(ms.drop_last(), key);
        assert forall|j: int| 0 <= j < ms.len() - 1 implies ms[j] == ms.drop_last()[j] by {}
    }
}

proof fn lemma_lookup_same_keys(a: Seq<(Seq<char>, JsonV)>, b: Seq<(Seq<char>, JsonV)>, key: Seq<char>)
    requires
        a.len() == b.len(),
        forall|i: int| 0 <= i < a.len() ==> (#[trigger] a[i]).0 == b[i].0,
    ensures
        lookup(a, key) == lookup(b, key),
    decreases a.len(),
{
    if a.len() > 0 {
        lemma_lookup_same_keys(a.drop_last(), b.drop_last(), key);
    }
}

proof fn lemma_lookup_push(ms: Seq<(Seq<char>, JsonV)>, m: (Seq<char>, JsonV), key: Seq<char>)
    ensures
        lookup(ms.push(m), key) == match lookup(ms, key) {
            Some(i) => Some(i),
            None => if m.0 == key {
                Some(ms.len() as int)
            } else {
                None
            },
        },
{
    assert(ms.push(m).drop_last() =~= ms);
}

/// The value of member `key` of an object, if it has one.
pub open spec fn get_member(v: JsonV, key: Seq<char>) -> Option<JsonV> {
    match v {
        JsonV::Object(ms) => match lookup(ms, key) {
            Some(i) => Some(ms[i].1),
            None => None,
        },
        _ => None,
    }
}

/// Why a settings document could not be merged without clobbering it.
#[derive(Debug, Clone, Copy, PartialEq, Eq)]
pub enum SettingsError {
    /// The document is not a JSON object.
    RootNotObject,
    /// `permissions` exists but is not an object.
    PermissionsNotObject,
    /// `permissions.allow` exists but is not an array.
    AllowNotArray,
    /// `hooks` exists but is not an object.
    HooksNotObject,
    /// `hooks.SessionStart` exists but is not an array.
    SessionStartNotArray,
    /// The file holds text that is not JSON.
    NotJson,
}

/// The message for each refusal: the key whose type is wrong, and that the
/// file is left alone.
pub open spec fn spec_settings_error_message(e: SettingsError) -> Seq<char> {
    match e {
        SettingsError::RootNotObject => "settings root is not a JSON object; refusing to overwrite it"@,
        SettingsError::PermissionsNotObject => "`permissions` is not a JSON object; refusing to overwrite it"@,
        SettingsError::AllowNotArray => "`permissions.allow` is not a JSON array; refusing to overwrite it"@,
        SettingsError::HooksNotObject => "`hooks` is not a JSON object; refusing to overwrite it"@,
        SettingsError::SessionStartNotArray => "`hooks.SessionStart` is not a JSON array; refusing to overwrite it"@,
        SettingsError::NotJson => "settings file is not valid JSON; refusing to overwrite it"@,
    }
}

impl SettingsError {
    /// The message shown to the user.
    pub fn message(&self) -> (r: &'static str)
        ensures
            r@ == spec_settings_error_message(*self),
    {
        match self {
            SettingsError::RootNotObject => "settings root is not a JSON object; refusing to overwrite it",
            SettingsError::PermissionsNotObject => "`permissions` is not a JSON object; refusing to overwrite it",
            SettingsError::AllowNotArray => "`permissions.allow` is not a JSON array; refusing to overwrite it",
            SettingsError::HooksNotObject => "`hooks` is not a JSON object; refusing to overwrite it",
            SettingsError::SessionStartNotArray => "`hooks.SessionStart` is not a JSON array; refusing to overwrite it",
            SettingsError::NotJson => "settings file is not valid JSON; refusing to overwrite it",
        }
    }
}

/// The `permissions.allow` rule that grants the whole chatbotchat MCP server
/// auto-approval (it covers every `cbc_*` tool).
pub const CBC_ALLOW_RULE: &'static str = "mcp__chatbotchat";

/// The command registered in `hooks.SessionStart`.
pub const CBC_SESSION_START_COMMAND: &'static str = "cbc hook session-start";

/// Some item of the array is the string `s`.
pub open spec fn has_str(a: Seq<JsonV>, s: Seq<char>) -> bool {
    exists|i: int| 0 <= i < a.len() && a[i] == JsonV::Str(s)
}

/// Ensure `settings.permissions.allow` is an array holding `rule`: create the
/// object and the array when absent, append the rule when missing, leave every
/// other key alone. `Ok(true)` when the document changed, `Ok(false)` when the
/// rule was already there; an error when the root, `permissions` or `allow`
/// has the wrong type (the document is then unchanged).
pub open spec fn spec_allow_rule(v: JsonV, rule: Seq<char>) -> Result<(JsonV, bool), SettingsError> {
    match v {
        JsonV::Object(ms) => match lookup(ms, "permissions"@) {
            None => Ok(
                (
                    JsonV::Object(
                        ms.push(
                            (
                                "permissions"@,
                                JsonV::Object(seq![("allow"@, JsonV::Array(seq![JsonV::Str(rule)]))]),
                            ),
                        ),
                    ),
                    true,
                ),
            ),
            Some(i) => match ms[i].1 {
                JsonV::Object(ps) => match spec_allow_in_permissions(ps, rule) {
                    Ok((ps1, changed)) => if changed {
                        Ok((JsonV::Object(ms.update(i, (ms[i].0, JsonV::Object(ps1)))), true))
                    } else {
                        Ok((v, false))
                    },
                    Err(e) => Err(e),
                },
                _ => Err(SettingsError::PermissionsNotObject),
            },
        },
        _ => Err(SettingsError::RootNotObject),
    }
}

fn member_index(ms: &Vec<(String, Json)>, key: &str) -> (r: Option<usize>)
    ensures
        r matches Some(i) ==> lookup(members_view(ms@), key@) == Some(i as int) && i < ms@.len(),
        r is None ==> lookup(members_view(ms@), key@) is None,
{
    proof {
        lemma_members_view(ms@);
        lemma_lookup(members_view(ms@), key@);
    }
    let n = ms.len();
    let mut i: usize = 0;
    while i < n
        invariant
            n == ms@.len(),
            i <= n,
            members_view(ms@).len() == n,
            forall|j: int| 0 <= j < i ==> (#[trigger] members_view(ms@)[j]).0 != key@,
            forall|j: int| 0 <= j < n ==> #[trigger] members_view(ms@)[j] == (ms@[j].0@, json_view(ms@[j].1)),
            lookup(members_view(ms@), key@) matches Some(k) ==> 0 <= k < n && members_view(ms@)[k].0
                == key@ && forall|j: int| 0 <= j < k ==> members_view(ms@)[j].0 != key@,
            lookup(members_view(ms@), key@) is None ==> forall|j: int|
                0 <= j < n ==> members_view(ms@)[j].0 != key@,
        decreases n - i,
    {
        if str_eq(ms[i].0.as_str(), key) {
            assert(members_view(ms@)[i as int].0 == key@);
            return Some(i);
        }
        i = i + 1;
    }
    None
}

fn items_have_str(a: &Vec<Json>, s: &str) -> (r: bool)
    ensures
        r == has_str(items_view(a@), s@),
{
    proof {
        lemma_items_view(a@);
    }
    let n = a.len();
    let mut i: usize = 0;
    while i < n
        invariant
            n == a@.len(),
            i <= n,
            items_view(a@).len() == n,
            forall|j: int| 0 <= j < n ==> #[trigger] items_view(a@)[j] == json_view(a@[j]),
            forall|j: int| 0 <= j < i ==> items_view(a@)[j] != JsonV::Str(s@),
        decreases n - i,
    {
        match &a[i] {
            Json::Str(t) => {
                if str_eq(t.as_str(), s) {
                    assert(items_view(a@)[i as int] == JsonV::Str(s@));
                    return true;
                }
            },
            _ => {},
        }
        i = i + 1;
    }
    false
}

fn key(s: &str) -> (r: String)
    ensures
        r@ == s@,
{
    String::from_str(s)
}

proof fn lemma_members_update(s: Seq<(String, Json)>, i: int, x: (String, Json))
    requires
        0 <= i < s.len(),
    ensures
        members_view(s.update(i, x)) == members_view(s).update(i, (x.0@, json_view(x.1))),
{
    lemma_members_view(s);
    lemma_members_view(s.update(i, x));
    assert(members_view(s.update(i, x)) =~= members_view(s).update(i, (x.0@, json_view(x.1))));
}

proof fn lemma_members_push(s: Seq<(String, Json)>, x: (String, Json))
    ensures
        members_view(s.push(x)) == members_view(s).push((x.0@, json_view(x.1))),
{
    assert(s.push(x).subrange(0, s.len() as int) =~= s);
}

proof fn lemma_items_push(s: Seq<Json>, x: Json)
    ensures
        items_view(s.push(x)) == items_view(s).push(json_view(x)),
{
    assert(s.push(x).subrange(0, s.len() as int) =~= s);
}

proof fn lemma_remove_insert<A>(s: Seq<A>, i: int, x: A)
    requires
        0 <= i < s.len(),
    ensures
        s.remove(i).insert(i, x) == s.update(i, x),
{
    assert(s.remove(i).insert(i, x) =~= s.update(i, x));
}

/// An array holding the single string `s`.
fn str_array(s: &str) -> (r: Json)
    ensures
        json_view(r) == JsonV::Array(seq![JsonV::Str(s@)]),
{
    let v = vec![Json::Str(key(s))];
    proof {
        lemma_items_view(v@);
        assert(items_view(v@) =~= seq![JsonV::Str(s@)]);
    }
    Json::Array(v)
}

/// An object member list holding the single member `k: v`.
fn single_member(k: &str, v: Json) -> (r: Vec<(String, Json)>)
    ensures
        members_view(r@) == seq![(k@, json_view(v))],
{
    let ghost jv = json_view(v);
    let r = vec![(key(k), v)];
    proof {
        lemma_members_view(r@);
        assert(members_view(r@) =~= seq![(k@, jv)]);
    }
    r
}

/// The `permissions` object's part of `spec_allow_rule`.
pub open spec fn spec_allow_in_permissions(ps: Seq<(Seq<char>, JsonV)>, rule: Seq<char>) -> Result<
    (Seq<(Seq<char>, JsonV)>, bool),
    SettingsError,
> {
    match lookup(ps, "allow"@) {
        None => Ok((ps.push(("allow"@, JsonV::Array(seq![JsonV::Str(rule)]))), true)),
        Some(j) => match ps[j].1 {
            JsonV::Array(a) => if has_str(a, rule) {
                Ok((ps, false))
            } else {
                Ok((ps.update(j, (ps[j].0, JsonV::Array(a.push(JsonV::Str(rule))))), true))
            },
            _ => Err(SettingsError::AllowNotArray),
        },
    }
}

fn merge_allow(ps: &mut Vec<(String, Json)>, rule: &str) -> (r: Result<bool, SettingsError>)
    ensures
        match spec_allow_in_permissions(members_view(old(ps)@), rule@) {
            Ok((v, changed)) => r == Ok::<bool, SettingsError>(changed) && members_view(final(ps)@) == v,
            Err(e) => r == Err::<bool, SettingsError>(e) && members_view(final(ps)@) == members_view(old(ps)@),
        },
{
    let ghost ps0 = ps@;
    let ghost pmv = members_view(ps0);
    proof {
        lemma_members_view(ps0);
    }
    match member_index(ps, "allow") {
        None => {
            let ak = key("allow");
            let av = str_array(rule);
            ps.push((ak, av));
            proof {
                lemma_members_push(ps0, (ak, av));
            }
            Ok(true)
        },
        Some(j) => {
            let (ak, av) = ps.remove(j);
            assert(pmv[j as int] == (ak@, json_view(av)));
            match av {
                Json::Array(mut a) => {
                    let ghost a0 = a@;
                    if items_have_str(&a, rule) {
                        let nav = Json::Array(a);
                        ps.insert(j, (ak, nav));
                        proof {
                            lemma_remove_insert(ps0, j as int, (ak, nav));
                            assert(ps@ =~= ps0);
                        }
                        Ok(false)
                    } else {
                        let item = Json::Str(key(rule));
                        a.push(item);
                        proof {
                            lemma_items_push(a0, item);
                        }
                        let nav = Json::Array(a);
                        ps.insert(j, (ak, nav));
                        proof {
                            lemma_remove_insert(ps0, j as int, (ak, nav));
                            lemma_members_update(ps0, j as int, (ak, nav));
                        }
                        Ok(true)
                    }
                },
                other => {
                    ps.insert(j, (ak, other));
                    proof {
                        lemma_remove_insert(ps0, j as int, (ak, other));
                        assert(ps@ =~= ps0);
                    }
                    Err(SettingsError::AllowNotArray)
                },
            }
        },
    }
}

/// Merge the CBC allow rule into a settings document (see `spec_allow_rule`).
pub fn ensure_allow_rule(settings: &mut Json, rule: &str) -> (r: Result<bool, SettingsError>)
    ensures
        match spec_allow_rule(json_view(*old(settings)), rule@) {
            Ok((v, changed)) => r == Ok::<bool, SettingsError>(changed) && json_view(*final(settings)) == v,
            Err(e) => r == Err::<bool, SettingsError>(e) && json_view(*final(settings)) == json_view(
                *old(settings),
            ),
        },
{
    let mut root = Json::Null;
    std::mem::swap(&mut root, settings);
    match root {
        Json::Object(mut ms) => {
            let ghost ms0 = ms@;
            let ghost mv = members_view(ms0);
            match member_index(&ms, "permissions") {
                None => {
                    let pv = Json::Object(single_member("allow", str_array(rule)));
                    let pk = key("permissions");
                    ms.push((pk, pv));
                    proof {
                        lemma_members_push(ms0, (pk, pv));
                    }
                    *settings = Json::Object(ms);
                    Ok(true)
                },
                Some(i) => {
                    let (pk, pv) = ms.remove(i);
                    proof {
                        lemma_members_view(ms0);
                        assert(mv[i as int] == (pk@, json_view(pv)));
                    }
                    match pv {
                        Json::Object(mut ps) => {
                            let ghost ps0 = ps@;
                            let ghost pmv = members_view(ps0);
                            let r = merge_allow(&mut ps, rule);
                            let ghost ps1 = ps@;
                            let npv = Json::Object(ps);
                            ms.insert(i, (pk, npv));
                            proof {
                                lemma_remove_insert(ms0, i as int, (pk, npv));
                                lemma_members_update(ms0, i as int, (pk, npv));
                                if members_view(ps1) == pmv {
                                    assert(mv.update(i as int, (pk@, json_view(npv))) =~= mv);
                                }
                            }
                            *settings = Json::Object(ms);
                            r
                        },
                        other => {
                            ms.insert(i, (pk, other));
                            proof {
                                lemma_remove_insert(ms0, i as int, (pk, other));
                                assert(ms@ =~= ms0);
                            }
                            *settings = Json::Object(ms);
                            Err(SettingsError::PermissionsNotObject)
                        },
                    }
                },
            }
        },
        other => {
            *settings = other;
            Err(SettingsError::RootNotObject)
        },
    }
}

/// The value of the first member `key` of an object (shared borrow).
fn json_get<'a>(j: &'a Json, key: &str) -> (r: Option<&'a Json>)
    ensures
        r matches Some(x) ==> get_member(json_view(*j), key@) == Some(json_view(*x)),
        r is None ==> get_member(json_view(*j), key@) is None,
{
    match j {
        Json::Object(ms) => {
            proof {
                lemma_members_view(ms@);
            }
            match member_index(ms, key) {
                Some(i) => Some(&ms[i].1),
                None => None,
            }
        },
        _ => None,
    }
}

/// A hook entry that runs the CBC `SessionStart` command.
pub open spec fn is_cbc_entry(e: JsonV) -> bool {
    get_member(e, "command"@) == Some(JsonV::Str(CBC_SESSION_START_COMMAND@))
}

/// Some entry of an inner `hooks` array runs the CBC command.
pub open spec fn inner_has_cbc(inner: Seq<JsonV>) -> bool {
    exists|k: int| 0 <= k < inner.len() && is_cbc_entry(#[trigger] inner[k])
}

/// A `SessionStart` wrapper whose inner `hooks` array holds a CBC entry.
pub open spec fn wrapper_has_cbc(w: JsonV) -> bool {
    match get_member(w, "hooks"@) {
        Some(h) => h is Array && inner_has_cbc(h->Array_0),
        None => false,
    }
}

/// Some wrapper of the `SessionStart` array already registers the CBC hook.
pub open spec fn hook_registered(arr: Seq<JsonV>) -> bool {
    exists|k: int| 0 <= k < arr.len() && wrapper_has_cbc(#[trigger] arr[k])
}

/// The wrapper CBC registers: `{"hooks": [{"type": "command", "command": <cmd>}]}`.
pub open spec fn cbc_wrapper() -> JsonV {
    JsonV::Object(
        seq![
            (
                "hooks"@,
                JsonV::Array(
                    seq![
                        JsonV::Object(
                            seq![
                                ("type"@, JsonV::Str("command"@)),
                                ("command"@, JsonV::Str(CBC_SESSION_START_COMMAND@)),
                            ],
                        ),
                    ],
                ),
            ),
        ],
    )
}

fn is_cbc_hook_entry(e: &Json) -> (r: bool)
    ensures
        r == is_cbc_entry(json_view(*e)),
{
    match json_get(e, "command") {
        Some(c) => match c {
            Json::Str(t) => str_eq(t.as_str(), CBC_SESSION_START_COMMAND),
            _ => false,
        },
        None => false,
    }
}

fn wrapper_registers_cbc(w: &Json) -> (r: bool)
    ensures
        r == wrapper_has_cbc(json_view(*w)),
{
    match json_get(w, "hooks") {
        Some(h) => match h {
            Json::Array(inner) => {
                proof {
                    lemma_items_view(inner@);
                }
                let n = inner.len();
                let mut k: usize = 0;
                while k < n
                    invariant
                        n == inner@.len(),
                        k <= n,
                        items_view(inner@).len() == n,
                        forall|q: int| 0 <= q < n ==> #[trigger] items_view(inner@)[q] == json_view(inner@[q]),
                        forall|q: int| 0 <= q < k ==> !is_cbc_entry(#[trigger] items_view(inner@)[q]),
                        json_view(*h) == JsonV::Array(items_view(inner@)),
                        get_member(json_view(*w), "hooks"@) == Some(json_view(*h)),
                    decreases n - k,
                {
                    if is_cbc_hook_entry(&inner[k]) {
                        let ghost iv = items_view(inner@);
                        assert(is_cbc_entry(iv[k as int]));
                        assert(0 <= k < iv.len());
                        assert(inner_has_cbc(iv));
                        assert(get_member(json_view(*w), "hooks"@) == Some(JsonV::Array(iv)));
                        assert(wrapper_has_cbc(json_view(*w)));
                        return true;
                    }
                    k = k + 1;
                }
                false
            },
            _ => false,
        },
        None => false,
    }
}

fn hooks_register_cbc(arr: &Vec<Json>) -> (r: bool)
    ensures
        r == hook_registered(items_view(arr@)),
{
    proof {
        lemma_items_view(arr@);
    }
    let n = arr.len();
    let mut k: usize = 0;
    while k < n
        invariant
            n == arr@.len(),
            k <= n,
            items_view(arr@).len() == n,
            forall|q: int| 0 <= q < n ==> #[trigger] items_view(arr@)[q] == json_view(arr@[q]),
            forall|q: int| 0 <= q < k ==> !wrapper_has_cbc(#[trigger] items_view(arr@)[q]),
        decreases n - k,
    {
        if wrapper_registers_cbc(&arr[k]) {
            assert(wrapper_has_cbc(items_view(arr@)[k as int]));
            return true;
        }
        k = k + 1;
    }
    false
}

fn cbc_hook_wrapper() -> (r: Json)
    ensures
        json_view(r) == cbc_wrapper(),
{
    let ty = (key("type"), Json::Str(key("command")));
    let cmd = (key("command"), Json::Str(key(CBC_SESSION_START_COMMAND)));
    let ghost tyv = (ty.0@, json_view(ty.1));
    let ghost cmdv = (cmd.0@, json_view(cmd.1));
    let members = vec![ty, cmd];
    proof {
        lemma_members_view(members@);
        assert(members_view(members@) =~= seq![tyv, cmdv]);
    }
    let entry = Json::Object(members);
    let ghost ev = json_view(entry);
    let inner = vec![entry];
    proof {
        lemma_items_view(inner@);
        assert(items_view(inner@) =~= seq![ev]);
    }
    Json::Object(single_member("hooks", Json::Array(inner)))
}

/// The `hooks` object's part of `spec_session_start_hook`.
pub open spec fn spec_hook_in_hooks(hs: Seq<(Seq<char>, JsonV)>) -> Result<
    (Seq<(Seq<char>, JsonV)>, bool),
    SettingsError,
> {
    match lookup(hs, "SessionStart"@) {
        None => Ok((hs.push(("SessionStart"@, JsonV::Array(seq![cbc_wrapper()]))), true)),
        Some(j) => match hs[j].1 {
            JsonV::Array(arr) => if hook_registered(arr) {
                Ok((hs, false))
            } else {
                Ok((hs.update(j, (hs[j].0, JsonV::Array(arr.push(cbc_wrapper())))), true))
            },
            _ => Err(SettingsError::SessionStartNotArray),
        },
    }
}

/// Ensure `settings.hooks.SessionStart` holds a wrapper that runs the CBC
/// `SessionStart` command: create the object and the array when absent,
/// append the wrapper when no wrapper's inner `hooks` already runs it, leave
/// every other key and hook alone. `Ok(true)` when the document changed,
/// `Ok(false)` when the hook was already registered; an error when the root,
/// `hooks` or `SessionStart` has the wrong type (the document is then
/// unchanged).
pub open spec fn spec_session_start_hook(v: JsonV) -> Result<(JsonV, bool), SettingsError> {
    match v {
        JsonV::Object(ms) => match lookup(ms, "hooks"@) {
            None => Ok(
                (
                    JsonV::Object(
                        ms.push(
                            (
                                "hooks"@,
                                JsonV::Object(seq![("SessionStart"@, JsonV::Array(seq![cbc_wrapper()]))]),
                            ),
                        ),
                    ),
                    true,
                ),
            ),
            Some(i) => match ms[i].1 {
                JsonV::Object(hs) => match spec_hook_in_hooks(hs) {
                    Ok((hs1, changed)) => if changed {
                        Ok((JsonV::Object(ms.update(i, (ms[i].0, JsonV::Object(hs1)))), true))
                    } else {
                        Ok((v, false))
                    },
                    Err(e) => Err(e),
                },
                _ => Err(SettingsError::HooksNotObject),
            },
        },
        _ => Err(SettingsError::RootNotObject),
    }
}

fn wrapper_array() -> (r: Json)
    ensures
        json_view(r) == JsonV::Array(seq![cbc_wrapper()]),
{
    let w = cbc_hook_wrapper();
    let v = vec![w];
    proof {
        lemma_items_view(v@);
        assert(items_view(v@) =~= seq![cbc_wrapper()]);
    }
    Json::Array(v)
}

fn merge_hook(hs: &mut Vec<(String, Json)>) -> (r: Result<bool, SettingsError>)
    ensures
        match spec_hook_in_hooks(members_view(old(hs)@)) {
            Ok((v, changed)) => r == Ok::<bool, SettingsError>(changed) && members_view(final(hs)@) == v,
            Err(e) => r == Err::<bool, SettingsError>(e) && members_view(final(hs)@) == members_view(old(hs)@),
        },
{
    let ghost hs0 = hs@;
    let ghost hmv = members_view(hs0);
    proof {
        lemma_members_view(hs0);
    }
    match member_index(hs, "SessionStart") {
        None => {
            let sk = key("SessionStart");
            let sv = wrapper_array();
            hs.push((sk, sv));
            proof {
                lemma_members_push(hs0, (sk, sv));
            }
            Ok(true)
        },
        Some(j) => {
            let (sk, sv) = hs.remove(j);
            assert(hmv[j as int] == (sk@, json_view(sv)));
            match sv {
                Json::Array(mut a) => {
                    let ghost a0 = a@;
                    if hooks_register_cbc(&a) {
                        let nsv = Json::Array(a);
                        hs.insert(j, (sk, nsv));
                        proof {
                            lemma_remove_insert(hs0, j as int, (sk, nsv));
                            assert(hs@ =~= hs0);
                        }
                        Ok(false)
                    } else {
                        let w = cbc_hook_wrapper();
                        a.push(w);
                        proof {
                            lemma_items_push(a0, w);
                        }
                        let nsv = Json::Array(a);
                        hs.insert(j, (sk, nsv));
                        proof {
                            lemma_remove_insert(hs0, j as int, (sk, nsv));
                            lemma_members_update(hs0, j as int, (sk, nsv));
                        }
                        Ok(true)
                    }
                },
                other => {
                    hs.insert(j, (sk, other));
                    proof {
                        lemma_remove_insert(hs0, j as int, (sk, other));
                        assert(hs@ =~= hs0);
                    }
                    Err(SettingsError::SessionStartNotArray)
                },
            }
        },
    }
}

/// Register the CBC `SessionStart` hook in a settings document (see
/// `spec_session_start_hook`).
pub fn ensure_session_start_hook(settings: &mut Json) -> (r: Result<bool, SettingsError>)
    ensures
        match spec_session_start_hook(json_view(*old(settings))) {
            Ok((v, changed)) => r == Ok::<bool, SettingsError>(changed) && json_view(*final(settings)) == v,
            Err(e) => r == Err::<bool, SettingsError>(e) && json_view(*final(settings)) == json_view(
                *old(settings),
            ),
        },
{
    let mut root = Json::Null;
    std::mem::swap(&mut root, settings);
    match root {
        Json::Object(mut ms) => {
            let ghost ms0 = ms@;
            let ghost mv = members_view(ms0);
            match member_index(&ms, "hooks") {
                None => {
                    let hv = Json::Object(single_member("SessionStart", wrapper_array()));
                    let hk = key("hooks");
                    ms.push((hk, hv));
                    proof {
                        lemma_members_push(ms0, (hk, hv));
                    }
                    *settings = Json::Object(ms);
                    Ok(true)
                },
                Some(i) => {
                    let (hk, hv) = ms.remove(i);
                    proof {
                        lemma_members_view(ms0);
                        assert(mv[i as int] == (hk@, json_view(hv)));
                    }
                    match hv {
                        Json::Object(mut hs) => {
                            let ghost hs0 = hs@;
                            let ghost hmv = members_view(hs0);
                            let r = merge_hook(&mut hs);
                            let ghost hs1 = hs@;
                            let nhv = Json::Object(hs);
                            ms.insert(i, (hk, nhv));
                            proof {
                                lemma_remove_insert(ms0, i as int, (hk, nhv));
                                lemma_members_update(ms0, i as int, (hk, nhv));
                                if members_view(hs1) == hmv {
                                    assert(mv.update(i as int, (hk@, json_view(nhv))) =~= mv);
                                }
                            }
                            *settings = Json::Object(ms);
                            r
                        },
                        other => {
                            ms.insert(i, (hk, other));
                            proof {
                                lemma_remove_insert(ms0, i as int, (hk, other));
                                assert(ms@ =~= ms0);
                            }
                            *settings = Json::Object(ms);
                            Err(SettingsError::HooksNotObject)
                        },
                    }
                },
            }
        },
        other => {
            *settings = other;
            Err(SettingsError::RootNotObject)
        },
    }
}

proof fn lemma_get_member_push(ms: Seq<(Seq<char>, JsonV)>, x: (Seq<char>, JsonV), k: Seq<char>)
    ensures
        x.0 != k ==> get_member(JsonV::Object(ms.push(x)), k) == get_member(JsonV::Object(ms), k),
        lookup(ms, x.0) is None ==> get_member(JsonV::Object(ms.push(x)), x.0) == Some(x.1),
{
    lemma_lookup_push(ms, x, k);
    lemma_lookup_push(ms, x, x.0);
    lemma_lookup(ms, k);
}

proof fn lemma_get_member_update(ms: Seq<(Seq<char>, JsonV)>, i: int, x: (Seq<char>, JsonV), k: Seq<char>)
    requires
        0 <= i < ms.len(),
        x.0 == ms[i].0,
    ensures
        ms[i].0 != k ==> get_member(JsonV::Object(ms.update(i, x)), k) == get_member(JsonV::Object(ms), k),
        lookup(ms, x.0) == Some(i) ==> get_member(JsonV::Object(ms.update(i, x)), x.0) == Some(x.1),
        lookup(ms.update(i, x), k) == lookup(ms, k),
{
    lemma_lookup_same_keys(ms.update(i, x), ms, k);
    lemma_lookup_same_keys(ms.update(i, x), ms, x.0);
    lemma_lookup(ms, k);
}

/// The member `b` of the member `a` of a document.
pub open spec fn path2(v: JsonV, a: Seq<char>, b: Seq<char>) -> Option<JsonV> {
    match get_member(v, a) {
        Some(w) => get_member(w, b),
        None => None,
    }
}

/// `p` is `q` with possibly more items after.
pub open spec fn extends(q: Seq<JsonV>, p: Seq<JsonV>) -> bool {
    p.len() <= q.len() && q.take(p.len() as int) == p
}

/// Merging the allow rule is idempotent: once merged, merging again changes
/// nothing and reports so.
pub proof fn law_allow_rule_is_idempotent(v: JsonV, rule: Seq<char>)
    ensures
        spec_allow_rule(v, rule) matches Ok((v1, _)) ==> spec_allow_rule(v1, rule) == Ok::<
            (JsonV, bool),
            SettingsError,
        >((v1, false)),
{
    law_allow_rule_grants_and_keeps(v, rule, "permissions"@, "allow"@);
    if let Ok((v1, _)) = spec_allow_rule(v, rule) {
        let ms1 = v1->Object_0;
        let i = lookup(ms1, "permissions"@)->Some_0;
        let ps1 = ms1[i].1->Object_0;
        let j = lookup(ps1, "allow"@)->Some_0;
        assert(ms1[i].1 is Object);
        assert(spec_allow_in_permissions(ps1, rule) == Ok::<(Seq<(Seq<char>, JsonV)>, bool), SettingsError>((ps1, false)));
    }
}

/// A successful merge leaves `permissions.allow` an array holding the rule;
/// every other top-level key, every other `permissions` key and every
/// existing `allow` entry (in order) are kept.
pub proof fn law_allow_rule_grants_and_keeps(v: JsonV, rule: Seq<char>, k1: Seq<char>, k2: Seq<char>)
    ensures
        spec_allow_rule(v, rule) matches Ok((v1, _)) ==> {
            let p1 = get_member(v1, "permissions"@);
            let a1 = path2(v1, "permissions"@, "allow"@);
            &&& v1 is Object
            &&& lookup(v1->Object_0, "permissions"@) is Some
            &&& p1 is Some && p1->Some_0 is Object
            &&& lookup(p1->Some_0->Object_0, "allow"@) is Some
            &&& a1 is Some && a1->Some_0 is Array && has_str(a1->Some_0->Array_0, rule)
            &&& k1 != "permissions"@ ==> get_member(v1, k1) == get_member(v, k1)
            &&& (k2 != "allow"@ && get_member(v, "permissions"@) is Some) ==> path2(
                v1,
                "permissions"@,
                k2,
            ) == path2(v, "permissions"@, k2)
            &&& path2(v, "permissions"@, "allow"@) matches Some(a0) ==> a0 is Array && extends(
                a1->Some_0->Array_0,
                a0->Array_0,
            )
        },
{
    reveal_strlit("permissions");
    reveal_strlit("allow");
    assert("permissions"@.len() != "allow"@.len());
    if let JsonV::Object(ms) = v {
        lemma_lookup(ms, "permissions"@);
        match lookup(ms, "permissions"@) {
            None => {
                let ps = seq![("allow"@, JsonV::Array(seq![JsonV::Str(rule)]))];
                let x = ("permissions"@, JsonV::Object(ps));
                lemma_get_member_push(ms, x, k1);
                lemma_lookup_push(ms, x, "permissions"@);
                lemma_lookup_push(Seq::empty(), ps[0], "allow"@);
                assert(Seq::<(Seq<char>, JsonV)>::empty().push(ps[0]) =~= ps);
                assert(has_str(seq![JsonV::Str(rule)], rule)) by {
                    assert(seq![JsonV::Str(rule)][0] == JsonV::Str(rule));
                }
            },
            Some(i) => {
                if let JsonV::Object(ps) = ms[i].1 {
                    lemma_lookup(ps, "allow"@);
                    match spec_allow_in_permissions(ps, rule) {
                        Ok((ps1, changed)) => {
                            let x = (ms[i].0, JsonV::Object(ps1));
                            lemma_get_member_update(ms, i, x, k1);
                            lemma_get_member_update(ms, i, x, "permissions"@);
                            match lookup(ps, "allow"@) {
                                None => {
                                    let y = ("allow"@, JsonV::Array(seq![JsonV::Str(rule)]));
                                    lemma_get_member_push(ps, y, k2);
                                    lemma_lookup_push(ps, y, "allow"@);
                                    assert(has_str(seq![JsonV::Str(rule)], rule)) by {
                                        assert(seq![JsonV::Str(rule)][0] == JsonV::Str(rule));
                                    }
                                },
                                Some(j) => {
                                    if let JsonV::Array(a) = ps[j].1 {
                                        if has_str(a, rule) {
                                            assert(a.take(a.len() as int) =~= a);
                                        } else {
                                            let y = (ps[j].0, JsonV::Array(a.push(JsonV::Str(rule))));
                                            lemma_get_member_update(ps, j, y, k2);
                                            lemma_get_member_update(ps, j, y, "allow"@);
                                            assert(a.push(JsonV::Str(rule))[a.len() as int] == JsonV::Str(rule));
                                            assert(a.push(JsonV::Str(rule)).take(a.len() as int) =~= a);
                                        }
                                    }
                                },
                            }
                        },
                        Err(_) => {},
                    }
                }
            },
        }
    }
}

proof fn lemma_single_lookup(m: (Seq<char>, JsonV))
    ensures
        lookup(seq![m], m.0) == Some(0int),
{
    lemma_lookup_push(Seq::empty(), m, m.0);
    assert(Seq::<(Seq<char>, JsonV)>::empty().push(m) =~= seq![m]);
}

proof fn lemma_cbc_wrapper_registers()
    ensures
        wrapper_has_cbc(cbc_wrapper()),
        hook_registered(seq![cbc_wrapper()]),
{
    reveal_strlit("type");
    reveal_strlit("command");
    let entry = JsonV::Object(
        seq![
            ("type"@, JsonV::Str("command"@)),
            ("command"@, JsonV::Str(CBC_SESSION_START_COMMAND@)),
        ],
    );
    let es = entry->Object_0;
    assert(es =~= seq![es[0]].push(es[1]));
    lemma_lookup_push(seq![es[0]], es[1], "command"@);
    lemma_lookup_push(Seq::empty(), es[0], "command"@);
    assert(Seq::<(Seq<char>, JsonV)>::empty().push(es[0]) =~= seq![es[0]]);
    assert("type"@.len() != "command"@.len());
    assert(is_cbc_entry(entry));
    let w = cbc_wrapper();
    lemma_single_lookup(w->Object_0[0]);
    assert(w->Object_0 =~= seq![w->Object_0[0]]);
    let inner = seq![entry];
    assert(inner[0] == entry);
    assert(inner_has_cbc(inner));
    assert(get_member(w, "hooks"@) == Some(JsonV::Array(inner)));
    assert(seq![w][0] == w);
}

/// Registering the `SessionStart` hook is idempotent: once registered,
/// registering again changes nothing and reports so.
pub proof fn law_session_start_hook_is_idempotent(v: JsonV)
    ensures
        spec_session_start_hook(v) matches Ok((v1, _)) ==> spec_session_start_hook(v1) == Ok::<
            (JsonV, bool),
            SettingsError,
        >((v1, false)),
{
    law_session_start_hook_registers_and_keeps(v, "hooks"@, "SessionStart"@);
    if let Ok((v1, _)) = spec_session_start_hook(v) {
        let ms1 = v1->Object_0;
        let i = lookup(ms1, "hooks"@)->Some_0;
        let hs1 = ms1[i].1->Object_0;
        assert(ms1[i].1 is Object);
        assert(spec_hook_in_hooks(hs1) == Ok::<(Seq<(Seq<char>, JsonV)>, bool), SettingsError>((hs1, false)));
    }
}

/// A successful registration leaves `hooks.SessionStart` an array with a
/// wrapper that runs the CBC command; every other top-level key, every other
/// hook event and every existing `SessionStart` wrapper (in order) are kept.
pub proof fn law_session_start_hook_registers_and_keeps(v: JsonV, k1: Seq<char>, k2: Seq<char>)
    ensures
        spec_session_start_hook(v) matches Ok((v1, _)) ==> {
            let h1 = get_member(v1, "hooks"@);
            let s1 = path2(v1, "hooks"@, "SessionStart"@);
            &&& v1 is Object
            &&& lookup(v1->Object_0, "hooks"@) is Some
            &&& h1 is Some && h1->Some_0 is Object
            &&& lookup(h1->Some_0->Object_0, "SessionStart"@) is Some
            &&& s1 is Some && s1->Some_0 is Array && hook_registered(s1->Some_0->Array_0)
            &&& k1 != "hooks"@ ==> get_member(v1, k1) == get_member(v, k1)
            &&& (k2 != "SessionStart"@ && get_member(v, "hooks"@) is Some) ==> path2(v1, "hooks"@, k2)
                == path2(v, "hooks"@, k2)
            &&& path2(v, "hooks"@, "SessionStart"@) matches Some(a0) ==> a0 is Array && extends(
                s1->Some_0->Array_0,
                a0->Array_0,
            )
        },
{
    reveal_strlit("hooks");
    reveal_strlit("SessionStart");
    lemma_cbc_wrapper_registers();
    if let JsonV::Object(ms) = v {
        lemma_lookup(ms, "hooks"@);
        match lookup(ms, "hooks"@) {
            None => {
                let hs = seq![("SessionStart"@, JsonV::Array(seq![cbc_wrapper()]))];
                let x = ("hooks"@, JsonV::Object(hs));
                lemma_get_member_push(ms, x, k1);
                lemma_lookup_push(ms, x, "hooks"@);
                lemma_single_lookup(hs[0]);
                assert(hs =~= seq![hs[0]]);
            },
            Some(i) => {
                if let JsonV::Object(hs) = ms[i].1 {
                    lemma_lookup(hs, "SessionStart"@);
                    match spec_hook_in_hooks(hs) {
                        Ok((hs1, changed)) => {
                            let x = (ms[i].0, JsonV::Object(hs1));
                            lemma_get_member_update(ms, i, x, k1);
                            lemma_get_member_update(ms, i, x, "hooks"@);
                            match lookup(hs, "SessionStart"@) {
                                None => {
                                    let y = ("SessionStart"@, JsonV::Array(seq![cbc_wrapper()]));
                                    lemma_get_member_push(hs, y, k2);
                                    lemma_lookup_push(hs, y, "SessionStart"@);
                                },
                                Some(j) => {
                                    if let JsonV::Array(a) = hs[j].1 {
                                        if hook_registered(a) {
                                            assert(a.take(a.len() as int) =~= a);
                                        } else {
                                            let y = (hs[j].0, JsonV::Array(a.push(cbc_wrapper())));
                                            lemma_get_member_update(hs, j, y, k2);
                                            lemma_get_member_update(hs, j, y, "SessionStart"@);
                                            let a1 = a.push(cbc_wrapper());
                                            assert(a1[a.len() as int] == cbc_wrapper());
                                            assert(hook_registered(a1));
                                            assert(a1.take(a.len() as int) =~= a);
                                        }
                                    }
                                },
                            }
                        },
                        Err(_) => {},
                    }
                }
            },
        }
    }
}

impl Json {
    /// The value of member `key` when this is an object that has one.
    pub fn get(&self, key: &str) -> (r: Option<&Json>)
        ensures
            r matches Some(x) ==> get_member(json_view(*self), key@) == Some(json_view(*x)),
            r is None ==> get_member(json_view(*self), key@) is None,
    {
        json_get(self, key)
    }

    /// The text when this is a string.
    pub fn as_str(&self) -> (r: Option<&str>)
        ensures
            r matches Some(t) ==> json_view(*self) == JsonV::Str(t@),
            r is None ==> !(json_view(*self) is Str),
    {
        match self {
            Json::Str(t) => Some(t.as_str()),
            _ => None,
        }
    }

    /// The items when this is an array.
    pub fn as_array(&self) -> (r: Option<&Vec<Json>>)
        ensures
            r matches Some(a) ==> json_view(*self) == JsonV::Array(items_view(a@)),
            r is None ==> !(json_view(*self) is Array),
    {
        match self {
            Json::Array(a) => Some(a),
            _ => None,
        }
    }
}

/// What merging an entry into the settings file did.
#[derive(Debug, Clone, Copy, PartialEq, Eq)]
pub enum Outcome {
    /// No settings file existed; one was created carrying the entry.
    Created,
    /// The file existed and the entry was added.
    Added,
    /// The entry was already present; nothing was written.
    AlreadyPresent,
}

/// The outcome of a merge, from whether the file existed and whether the
/// merge changed the document.
pub fn merge_outcome(existed: bool, changed: bool) -> (r: Outcome)
    ensures
        r == (if !changed {
            Outcome::AlreadyPresent
        } else if existed {
            Outcome::Added
        } else {
            Outcome::Created
        }),
{
    if !changed {
        Outcome::AlreadyPresent
    } else if existed {
        Outcome::Added
    } else {
        Outcome::Created
    }
}

/// The settings document a file's text holds: a blank file is an empty
/// object; any other text is what `serde_json` reads from it, or `NotJson`.
pub open spec fn spec_read_settings(text: Seq<char>) -> Result<JsonV, SettingsError> {
    if trim(text).len() == 0 {
        Ok(JsonV::Object(seq![]))
    } else {
        match spec_parse_json(text) {
            Some(v) => Ok(v),
            None => Err(SettingsError::NotJson),
        }
    }
}

/// Whether `text` is empty or all whitespace.
pub fn is_blank(text: &str) -> (r: bool)
    ensures
        r == (trim(text@).len() == 0),
{
    let cs = chars_of(text);
    let n = cs.len();
    assert(cs@.subrange(0, n as int) =~= text@);
    let sp = trim_span(&cs, 0, n);
    sp.0 == sp.1
}

/// Read a settings file's text (see `spec_read_settings`).
pub fn read_settings(text: &str) -> (r: Result<Json, SettingsError>)
    ensures
        match spec_read_settings(text@) {
            Ok(v) => r matches Ok(j) && json_view(j) == v,
            Err(e) => r == Err::<Json, SettingsError>(e),
        },
{
    if is_blank(text) {
        let r = Json::Object(Vec::new());
        proof {
            lemma_members_view(Seq::<(String, Json)>::empty());
            assert(members_view(Seq::<(String, Json)>::empty()) =~= seq![]);
        }
        return Ok(r);
    }
    match parse_json(text) {
        Some(j) => Ok(j),
        None => Err(SettingsError::NotJson),
    }
}

/// The entry CBC merges into the settings file.
#[derive(Debug, Clone, Copy, PartialEq, Eq)]
pub enum SettingsEntry {
    /// The `permissions.allow` rule for the chatbotchat MCP tools.
    AllowRule,
    /// The `SessionStart` hook that relaunches polls.
    SessionStartHook,
}

/// The merge of an entry into a document.
pub open spec fn spec_merge_entry(entry: SettingsEntry, v: JsonV) -> Result<(JsonV, bool), SettingsError> {
    match entry {
        SettingsEntry::AllowRule => spec_allow_rule(v, CBC_ALLOW_RULE@),
        SettingsEntry::SessionStartHook => spec_session_start_hook(v),
    }
}

/// What to do to the settings file: the outcome to report, whether to back
/// the original up to `<path>.bak` first, and the text to write (none when
/// nothing changed).
#[derive(Debug, Clone, PartialEq, Eq)]
pub struct SettingsEdit {
    pub outcome: Outcome,
    pub backup: bool,
    pub write: Option<String>,
}

/// The edit of a settings file that held `original` (`existed` tells whether
/// there was a file at all): read the document, merge the entry, and, only if
/// that changed it, back an existing file up and write the document as
/// two-space-pretty JSON with a trailing newline. A text that is not JSON, or a
/// document whose shape would be clobbered, is refused and nothing is written.
pub open spec fn spec_settings_edit(entry: SettingsEntry, existed: bool, original: Seq<char>) -> Result<
    (Outcome, bool, Option<Seq<char>>),
    SettingsError,
> {
    match spec_read_settings(original) {
        Err(e) => Err(e),
        Ok(v) => match spec_merge_entry(entry, v) {
            Err(e) => Err(e),
            Ok((v1, changed)) => Ok(
                (
                    if !changed {
                        Outcome::AlreadyPresent
                    } else if existed {
                        Outcome::Added
                    } else {
                        Outcome::Created
                    },
                    changed && existed,
                    if changed {
                        Some(spec_pretty_json(v1) + "\n"@)
                    } else {
                        None
                    },
                ),
            ),
        },
    }
}

/// Plan the edit of a settings file (see `spec_settings_edit`).
pub fn plan_settings_edit(entry: SettingsEntry, existed: bool, original: &str) -> (r: Result<
    SettingsEdit,
    SettingsError,
>)
    ensures
        match spec_settings_edit(entry, existed, original@) {
            Ok((outcome, backup, write)) => r matches Ok(ed) && ed.outcome == outcome && ed.backup
                == backup && ed.write.deep_view() == write,
            Err(e) => r == Err::<SettingsEdit, SettingsError>(e),
        },
{
    let mut settings = match read_settings(original) {
        Ok(j) => j,
        Err(e) => return Err(e),
    };
    let merged = match entry {
        SettingsEntry::AllowRule => ensure_allow_rule(&mut settings, CBC_ALLOW_RULE),
        SettingsEntry::SessionStartHook => ensure_session_start_hook(&mut settings),
    };
    let changed = match merged {
        Ok(c) => c,
        Err(e) => return Err(e),
    };
    let outcome = merge_outcome(existed, changed);
    if !changed {
        return Ok(SettingsEdit { outcome, backup: false, write: None });
    }
    let mut text = render_pretty_json(&settings);
    text.append("\n");
    proof {
        reveal_strlit("\n");
    }
    Ok(SettingsEdit { outcome, backup: existed, write: Some(text) })
}

/// What merging the allow rule did, naming the settings file.
pub open spec fn spec_allow_outcome_message(path: Seq<char>, outcome: Outcome) -> Seq<char> {
    match outcome {
        Outcome::AlreadyPresent => "chatbotchat MCP tools are already auto-approved in "@ + path
            + "; nothing to do.\n"@,
        _ => "Granted the chatbotchat MCP tools auto-approval in the agent host's settings:\n  "@
            + path + "\n"@ + (if outcome is Added {
            "(backed up the previous file to "@ + path + ".bak)\n"@
        } else {
            Seq::empty()
        }) + "Restart any open agent session to pick it up.\n"@,
    }
}

/// The report of an allow-rule merge (see `spec_allow_outcome_message`).
pub fn allow_outcome_message(path: &str, outcome: Outcome) -> (r: String)
    ensures
        r@ == spec_allow_outcome_message(path@, outcome),
{
    match outcome {
        Outcome::AlreadyPresent => {
            let mut s = String::from_str("chatbotchat MCP tools are already auto-approved in ");
            s.append(path);
            s.append("; nothing to do.\n");
            s
        },
        _ => {
            let mut s = String::from_str(
                "Granted the chatbotchat MCP tools auto-approval in the agent host's settings:\n  ",
            );
            s.append(path);
            s.append("\n");
            let ghost a = s@;
            if let Outcome::Added = outcome {
                s.append("(backed up the previous file to ");
                s.append(path);
                s.append(".bak)\n");
            }
            s.append("Restart any open agent session to pick it up.\n");
            proof {
                if outcome is Added {
                    assert(s@ =~= spec_allow_outcome_message(path@, outcome));
                } else {
                    assert(s@ =~= spec_allow_outcome_message(path@, outcome));
                }
            }
            s
        },
    }
}

/// What registering the `SessionStart` hook did, naming the settings file.
pub open spec fn spec_hook_outcome_message(path: Seq<char>, outcome: Outcome) -> Seq<char> {
    match outcome {
        Outcome::AlreadyPresent => "CBC SessionStart hook already registered in "@ + path
            + "; nothing to do.\n"@,
        _ => "Registered the CBC SessionStart hook in the agent host's settings:\n  "@ + path + "\n"@
            + (if outcome is Added {
            "(backed up the previous file to "@ + path + ".bak)\n"@
        } else {
            Seq::empty()
        })
            + "Restart any open agent session to pick it up.\nThe hook fires on compact/resume and relaunches your CBC polls automatically.\n"@,
    }
}

/// The report of a hook registration (see `spec_hook_outcome_message`).
pub fn hook_outcome_message(path: &str, outcome: Outcome) -> (r: String)
    ensures
        r@ == spec_hook_outcome_message(path@, outcome),
{
    match outcome {
        Outcome::AlreadyPresent => {
            let mut s = String::from_str("CBC SessionStart hook already registered in ");
            s.append(path);
            s.append("; nothing to do.\n");
            s
        },
        _ => {
            let mut s = String::from_str(
                "Registered the CBC SessionStart hook in the agent host's settings:\n  ",
            );
            s.append(path);
            s.append("\n");
            if let Outcome::Added = outcome {
                s.append("(backed up the previous file to ");
                s.append(path);
                s.append(".bak)\n");
            }
            s.append(
                "Restart any open agent session to pick it up.\nThe hook fires on compact/resume and relaunches your CBC polls automatically.\n",
            );
            proof {
                assert(s@ =~= spec_hook_outcome_message(path@, outcome));
            }
            s
        },
    }
}

/// An object's members with member `key` set to the string `text`: the
/// member is replaced in place where the object has one, appended otherwise.
pub open spec fn set_str_member(ms: Seq<(Seq<char>, JsonV)>, key: Seq<char>, text: Seq<char>) -> Seq<
    (Seq<char>, JsonV),
> {
    match lookup(ms, key) {
        Some(i) => ms.update(i, (key, JsonV::Str(text))),
        None => ms.push((key, JsonV::Str(text))),
    }
}

/// A tool result with `next` guidance spliced in: an object gains (or has
/// replaced) its `next` member; any other value has nowhere to hang it and is
/// kept as it is.
pub open spec fn spec_json_with_next(v: JsonV, next: Seq<char>) -> JsonV {
    match v {
        JsonV::Object(ms) => JsonV::Object(set_str_member(ms, "next"@, next)),
        _ => v,
    }
}

/// Splice `next` guidance into a serialized tool result (see
/// `spec_json_with_next`).
pub fn json_with_next(value: Json, next: &str) -> (r: Json)
    ensures
        json_view(r) == spec_json_with_next(json_view(value), next@),
{
    match value {
        Json::Object(mut ms) => {
            let ghost ms0 = ms@;
            proof {
                lemma_members_view(ms0);
                reveal_strlit("next");
            }
            let nk = key("next");
            let nv = Json::Str(key(next));
            match member_index(&ms, "next") {
                None => {
                    ms.push((nk, nv));
                    proof {
                        lemma_members_push(ms0, (nk, nv));
                    }
                },
                Some(j) => {
                    let _old = ms.remove(j);
                    ms.insert(j, (nk, nv));
                    proof {
                        lemma_remove_insert(ms0, j as int, (nk, nv));
                        lemma_members_update(ms0, j as int, (nk, nv));
                    }
                },
            }
            Json::Object(ms)
        },
        other => other,
    }
}

/// How to grant the allow rule by hand when the file cannot be edited.
pub const MANUAL_ALLOW_SNIPPET: &'static str = "Add this to your agent host's settings file by hand:\n  { \"permissions\": { \"allow\": [\"mcp__chatbotchat\"] } }\n";

/// How to register the `SessionStart` hook by hand when the file cannot be
/// edited.
pub const MANUAL_HOOK_SNIPPET: &'static str = "Add this to your agent host's settings file by hand:\n  {\"hooks\": {\"SessionStart\": [{\"hooks\": [{\"type\":\"command\",\"command\":\"cbc hook session-start\"}]}]}}\n";

/// ASCII upper case letters lowered, everything else kept.
pub open spec fn ascii_lower(s: Seq<char>) -> Seq<char> {
    s.map_values(|c: char| if 'A' <= c && c <= 'Z' {
        ((c as u32) + 32) as char
    } else {
        c
    })
}

/// The answer to a `[y/N]` prompt accepts: `y` or `yes` in any case, with
/// surrounding whitespace ignored; anything else (a bare Enter too) declines.
pub open spec fn spec_accepts_prompt(answer: Seq<char>) -> bool {
    let a = ascii_lower(crate::text::trim(answer));
    a == "y"@ || a == "yes"@
}

/// Does the answer to a `[y/N]` prompt accept (see `spec_accepts_prompt`)?
pub fn accepts_prompt(answer: &str) -> (r: bool)
    ensures
        r == spec_accepts_prompt(answer@),
{
    let cs = crate::text::chars_of(answer);
    let n = cs.len();
    assert(cs@.subrange(0, n as int) =~= answer@);
    let sp = crate::text::trim_span(&cs, 0, n);
    let ghost t = cs@.subrange(sp.0 as int, sp.1 as int);
    let len = sp.1 - sp.0;
    proof {
        reveal_strlit("y");
        reveal_strlit("yes");
    }
    let lower_at = |i: usize| -> (c: char)
        requires
            i < cs@.len(),
        ensures
            c == (if 'A' <= cs@[i as int] && cs@[i as int] <= 'Z' {
                ((cs@[i as int] as u32) + 32) as char
            } else {
                cs@[i as int]
            }),
        {
            let c = cs[i];
            if 'A' <= c && c <= 'Z' {
                ((c as u32) + 32) as u8 as char
            } else {
                c
            }
        };
    if len == 1 {
        let c0 = lower_at(sp.0);
        let r = c0 == 'y';
        proof {
            let a = ascii_lower(t);
            assert(a.len() == 1 && a[0] == c0);
            assert(r ==> a =~= "y"@);
            assert(a.len() != "yes"@.len());
        }
        r
    } else if len == 3 {
        let c0 = lower_at(sp.0);
        let c1 = lower_at(sp.0 + 1);
        let c2 = lower_at(sp.0 + 2);
        let r = c0 == 'y' && c1 == 'e' && c2 == 's';
        proof {
            let a = ascii_lower(t);
            assert(a.len() == 3 && a[0] == c0 && a[1] == c1 && a[2] == c2);
            assert(r ==> a =~= "yes"@);
            assert(a.len() != "y"@.len());
            if a == "yes"@ {
                assert(a[0] == "yes"@[0] && a[1] == "yes"@[1] && a[2] == "yes"@[2]);
            }
        }
        r
    } else {
        proof {
            let a = ascii_lower(t);
            assert(a.len() == len);
            assert(a.len() != "y"@.len() && a.len() != "yes"@.len());
        }
        false
    }
}

} // verus!
