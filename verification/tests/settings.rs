use cbc::settings::{
    ensure_allow_rule, ensure_session_start_hook, json_with_next, merge_outcome, plan_settings_edit,
    read_settings, SettingsEntry, Json, Outcome, SettingsError,
    CBC_ALLOW_RULE, CBC_SESSION_START_COMMAND,
};

fn s(t: &str) -> Json {
    Json::Str(t.to_string())
}

fn arr(items: Vec<Json>) -> Json {
    Json::Array(items)
}

fn obj(members: Vec<(&str, Json)>) -> Json {
    Json::Object(members.into_iter().map(|(k, v)| (k.to_string(), v)).collect())
}

fn path<'a>(v: &'a Json, keys: &[&str]) -> &'a Json {
    let mut cur = v;
    for k in keys {
        cur = cur.get(k).unwrap_or_else(|| panic!("missing key {k}"));
    }
    cur
}

fn strs(v: &Json) -> Vec<String> {
    v.as_array()
        .expect("an array")
        .iter()
        .map(|x| x.as_str().expect("a string").to_string())
        .collect()
}

#[test]
fn creates_permissions_and_allow_on_empty_object() {
    let mut v = obj(vec![]);
    let changed = ensure_allow_rule(&mut v, CBC_ALLOW_RULE).unwrap();
    assert!(changed, "an empty settings object must be modified");
    assert_eq!(strs(path(&v, &["permissions", "allow"]))[0], CBC_ALLOW_RULE);
}

#[test]
fn appends_to_existing_allow_preserving_prior_entries() {
    let mut v = obj(vec![("permissions", obj(vec![("allow", arr(vec![s("Read"), s("Write")]))]))]);
    let changed = ensure_allow_rule(&mut v, CBC_ALLOW_RULE).unwrap();
    assert!(changed);
    assert_eq!(
        strs(path(&v, &["permissions", "allow"])),
        vec!["Read", "Write", CBC_ALLOW_RULE],
        "the rule must be appended without dropping existing allow entries"
    );
}

#[test]
fn is_idempotent_when_rule_already_present() {
    let mut v = obj(vec![("permissions", obj(vec![("allow", arr(vec![s(CBC_ALLOW_RULE)]))]))]);
    let changed = ensure_allow_rule(&mut v, CBC_ALLOW_RULE).unwrap();
    assert!(!changed, "re-adding an existing rule must report no change");
    assert_eq!(
        strs(path(&v, &["permissions", "allow"])),
        vec![CBC_ALLOW_RULE],
        "an idempotent run must not duplicate the rule"
    );
}

#[test]
fn preserves_unrelated_top_level_and_permissions_keys() {
    let mut v = obj(vec![
        ("hooks", obj(vec![("PreToolUse", arr(vec![]))])),
        ("permissions", obj(vec![("defaultMode", s("auto"))])),
    ]);
    ensure_allow_rule(&mut v, CBC_ALLOW_RULE).unwrap();
    assert!(
        path(&v, &["hooks", "PreToolUse"]).as_array().unwrap().is_empty(),
        "unrelated keys survive"
    );
    assert_eq!(
        path(&v, &["permissions", "defaultMode"]).as_str(),
        Some("auto"),
        "sibling permission keys survive"
    );
    assert_eq!(strs(path(&v, &["permissions", "allow"]))[0], CBC_ALLOW_RULE);
}

#[test]
fn errors_rather_than_clobbering_a_wrong_typed_permissions() {
    let mut v = obj(vec![("permissions", Json::Number("5".to_string()))]);
    assert!(
        ensure_allow_rule(&mut v, CBC_ALLOW_RULE).is_err(),
        "a non-object permissions value must error, not be overwritten"
    );
}

#[test]
fn errors_rather_than_clobbering_a_wrong_typed_allow() {
    let mut v = obj(vec![("permissions", obj(vec![("allow", s("not-an-array"))]))]);
    assert!(
        ensure_allow_rule(&mut v, CBC_ALLOW_RULE).is_err(),
        "a non-array allow value must error, not be overwritten"
    );
}

#[test]
fn hook_adds_entry_to_empty_settings() {
    let mut v = obj(vec![]);
    let changed = ensure_session_start_hook(&mut v).unwrap();
    assert!(changed, "empty settings must be modified");
    let arr0 = path(&v, &["hooks", "SessionStart"]).as_array().unwrap();
    assert_eq!(arr0.len(), 1);
    let entry = &path(&arr0[0], &["hooks"]).as_array().unwrap()[0];
    assert_eq!(path(entry, &["command"]).as_str(), Some(CBC_SESSION_START_COMMAND));
    assert_eq!(path(entry, &["type"]).as_str(), Some("command"));
}

#[test]
fn hook_is_idempotent_when_already_present() {
    let mut v = obj(vec![(
        "hooks",
        obj(vec![(
            "SessionStart",
            arr(vec![obj(vec![(
                "hooks",
                arr(vec![obj(vec![("type", s("command")), ("command", s(CBC_SESSION_START_COMMAND))])]),
            )])]),
        )]),
    )]);
    let changed = ensure_session_start_hook(&mut v).unwrap();
    assert!(!changed, "re-adding must report no change");
    let arr0 = path(&v, &["hooks", "SessionStart"]).as_array().unwrap();
    assert_eq!(arr0.len(), 1, "must not duplicate the entry");
}

#[test]
fn hook_appends_without_removing_existing_session_start_entries() {
    let mut v = obj(vec![(
        "hooks",
        obj(vec![(
            "SessionStart",
            arr(vec![obj(vec![(
                "hooks",
                arr(vec![obj(vec![("type", s("command")), ("command", s("node caveman-activate.js"))])]),
            )])]),
        )]),
    )]);
    ensure_session_start_hook(&mut v).unwrap();
    let arr0 = path(&v, &["hooks", "SessionStart"]).as_array().unwrap();
    assert_eq!(arr0.len(), 2, "must append, not replace");
    let first = &path(&arr0[0], &["hooks"]).as_array().unwrap()[0];
    assert_eq!(path(first, &["command"]).as_str(), Some("node caveman-activate.js"));
    let second = &path(&arr0[1], &["hooks"]).as_array().unwrap()[0];
    assert_eq!(path(second, &["command"]).as_str(), Some(CBC_SESSION_START_COMMAND));
}

#[test]
fn hook_preserves_permissions_allow_and_other_keys() {
    let mut v = obj(vec![
        ("permissions", obj(vec![("allow", arr(vec![s("mcp__chatbotchat")]))])),
        ("hooks", obj(vec![("PreToolUse", arr(vec![]))])),
    ]);
    ensure_session_start_hook(&mut v).unwrap();
    assert_eq!(
        strs(path(&v, &["permissions", "allow"]))[0],
        "mcp__chatbotchat",
        "allow rule must survive"
    );
    assert!(
        path(&v, &["hooks", "PreToolUse"]).as_array().unwrap().is_empty(),
        "other hooks must survive"
    );
    let arr0 = path(&v, &["hooks", "SessionStart"]).as_array().unwrap();
    let entry = &path(&arr0[0], &["hooks"]).as_array().unwrap()[0];
    assert_eq!(path(entry, &["command"]).as_str(), Some(CBC_SESSION_START_COMMAND));
}

#[test]
fn hook_errors_on_wrong_typed_hooks_object() {
    let mut v = obj(vec![("hooks", Json::Number("5".to_string()))]);
    assert!(ensure_session_start_hook(&mut v).is_err(), "non-object hooks must error");
}

#[test]
fn hook_errors_on_wrong_typed_session_start_array() {
    let mut v = obj(vec![("hooks", obj(vec![("SessionStart", s("not-an-array"))]))]);
    assert!(
        ensure_session_start_hook(&mut v).is_err(),
        "non-array SessionStart must error"
    );
}

#[test]
fn allow_rule_merged_twice_reports_no_second_change() {
    let mut v = obj(vec![("permissions", obj(vec![("defaultMode", s("auto"))]))]);
    assert_eq!(ensure_allow_rule(&mut v, CBC_ALLOW_RULE), Ok(true));
    assert_eq!(ensure_allow_rule(&mut v, CBC_ALLOW_RULE), Ok(false));
    assert_eq!(strs(path(&v, &["permissions", "allow"])), vec![CBC_ALLOW_RULE]);
}

#[test]
fn session_start_hook_registered_twice_reports_no_second_change() {
    let mut v = obj(vec![("hooks", obj(vec![]))]);
    assert_eq!(ensure_session_start_hook(&mut v), Ok(true));
    assert_eq!(ensure_session_start_hook(&mut v), Ok(false));
    assert_eq!(path(&v, &["hooks", "SessionStart"]).as_array().unwrap().len(), 1);
}

#[test]
fn a_non_object_root_is_refused_for_both_merges() {
    let mut v = arr(vec![]);
    assert_eq!(ensure_allow_rule(&mut v, CBC_ALLOW_RULE), Err(SettingsError::RootNotObject));
    assert_eq!(ensure_session_start_hook(&mut v), Err(SettingsError::RootNotObject));
    assert!(v.as_array().unwrap().is_empty(), "a refused document is left as it was");
}

#[test]
fn each_merge_error_names_the_offending_key() {
    let mut p = obj(vec![("permissions", Json::Bool(true))]);
    assert_eq!(ensure_allow_rule(&mut p, CBC_ALLOW_RULE), Err(SettingsError::PermissionsNotObject));
    let mut a = obj(vec![("permissions", obj(vec![("allow", Json::Null)]))]);
    assert_eq!(ensure_allow_rule(&mut a, CBC_ALLOW_RULE), Err(SettingsError::AllowNotArray));
    let mut h = obj(vec![("hooks", arr(vec![]))]);
    assert_eq!(ensure_session_start_hook(&mut h), Err(SettingsError::HooksNotObject));
    let mut ss = obj(vec![("hooks", obj(vec![("SessionStart", obj(vec![]))]))]);
    assert_eq!(ensure_session_start_hook(&mut ss), Err(SettingsError::SessionStartNotArray));
    assert!(SettingsError::AllowNotArray.message().contains("refusing to overwrite"));
}

#[test]
fn merge_outcome_distinguishes_created_added_and_present() {
    assert_eq!(merge_outcome(false, true), Outcome::Created);
    assert_eq!(merge_outcome(true, true), Outcome::Added);
    assert_eq!(merge_outcome(true, false), Outcome::AlreadyPresent);
    assert_eq!(merge_outcome(false, false), Outcome::AlreadyPresent);
}

#[test]
fn json_with_next_splices_guidance_into_an_object() {
    let rendered = json_with_next(obj(vec![("room_id", s("abc-20260102-0304"))]), "do the thing");
    assert_eq!(rendered.get("room_id").and_then(|v| v.as_str()), Some("abc-20260102-0304"));
    assert_eq!(rendered.get("next").and_then(|v| v.as_str()), Some("do the thing"));
}

#[test]
fn json_with_next_replaces_an_existing_next_and_keeps_non_objects() {
    let replaced = json_with_next(obj(vec![("next", s("old")), ("seq", Json::Number("3".to_string()))]), "new");
    assert_eq!(replaced.get("next").and_then(|v| v.as_str()), Some("new"));
    match &replaced {
        Json::Object(ms) => {
            assert_eq!(ms.len(), 2);
            assert_eq!(ms[0].0, "next");
            assert_eq!(ms[1].0, "seq");
        }
        _ => panic!("expected an object"),
    }
    let kept = json_with_next(s("plain"), "ignored");
    assert_eq!(kept.as_str(), Some("plain"));
}

fn written(edit: &cbc::settings::SettingsEdit) -> serde_json::Value {
    serde_json::from_str(edit.write.as_deref().expect("a write")).unwrap()
}

#[test]
fn apply_creates_settings_when_absent() {
    let edit = plan_settings_edit(SettingsEntry::AllowRule, false, "").unwrap();
    assert_eq!(edit.outcome, Outcome::Created);
    assert!(!edit.backup);
    let w = written(&edit);
    assert_eq!(w["permissions"]["allow"][0], serde_json::Value::from(CBC_ALLOW_RULE));
}

#[test]
fn apply_appends_and_backs_up_when_present() {
    let original = "{\n  \"permissions\": {\n    \"defaultMode\": \"auto\"\n  }\n}\n";
    let edit = plan_settings_edit(SettingsEntry::AllowRule, true, original).unwrap();
    assert_eq!(edit.outcome, Outcome::Added);
    let w = written(&edit);
    assert_eq!(w["permissions"]["allow"][0], serde_json::Value::from(CBC_ALLOW_RULE));
    assert_eq!(
        w["permissions"]["defaultMode"],
        serde_json::Value::from("auto"),
        "the existing mode must be preserved through the rewrite"
    );
    assert!(edit.backup, "the original must be backed up before rewrite");
}

#[test]
fn apply_is_idempotent_and_skips_write_when_present() {
    let first = plan_settings_edit(SettingsEntry::AllowRule, false, "").unwrap();
    let text = first.write.unwrap();
    let second = plan_settings_edit(SettingsEntry::AllowRule, true, &text).unwrap();
    assert_eq!(
        second.outcome,
        Outcome::AlreadyPresent,
        "a second run must detect the rule and report no change"
    );
    assert_eq!(second.write, None);
    assert!(!second.backup);
}

#[test]
fn apply_errors_on_unparseable_settings_rather_than_overwriting() {
    let r = plan_settings_edit(SettingsEntry::AllowRule, true, "{ this is not valid json, // comment\n");
    assert_eq!(r, Err(SettingsError::NotJson));
}

#[test]
fn apply_hook_creates_when_absent() {
    let edit = plan_settings_edit(SettingsEntry::SessionStartHook, false, "").unwrap();
    assert_eq!(edit.outcome, Outcome::Created);
    let w = written(&edit);
    assert_eq!(
        w["hooks"]["SessionStart"][0]["hooks"][0]["command"],
        serde_json::Value::from(CBC_SESSION_START_COMMAND)
    );
}

#[test]
fn apply_hook_appends_and_backs_up() {
    let original = "{\n  \"permissions\": { \"allow\": [\"mcp__chatbotchat\"] }\n}\n";
    let edit = plan_settings_edit(SettingsEntry::SessionStartHook, true, original).unwrap();
    assert_eq!(edit.outcome, Outcome::Added);
    let w = written(&edit);
    assert_eq!(
        w["hooks"]["SessionStart"][0]["hooks"][0]["command"],
        serde_json::Value::from(CBC_SESSION_START_COMMAND)
    );
    assert_eq!(w["permissions"]["allow"][0], serde_json::Value::from("mcp__chatbotchat"));
    assert!(edit.backup, "backup must exist");
}

#[test]
fn apply_hook_is_idempotent() {
    let first = plan_settings_edit(SettingsEntry::SessionStartHook, false, "").unwrap();
    let second =
        plan_settings_edit(SettingsEntry::SessionStartHook, true, &first.write.unwrap()).unwrap();
    assert_eq!(second.outcome, Outcome::AlreadyPresent);
}

#[test]
fn the_edit_is_written_as_two_space_pretty_json_with_a_newline() {
    let edit = plan_settings_edit(SettingsEntry::AllowRule, false, "  \n").unwrap();
    assert_eq!(
        edit.write.as_deref(),
        Some("{\n  \"permissions\": {\n    \"allow\": [\n      \"mcp__chatbotchat\"\n    ]\n  }\n}\n")
    );
}

#[test]
fn read_settings_parses_numbers_and_refuses_non_json() {
    let j = read_settings("{\"n\": 12, \"b\": false, \"z\": null}").unwrap();
    assert!(matches!(j.get("n"), Some(Json::Number(t)) if t == "12"));
    assert!(matches!(j.get("b"), Some(Json::Bool(false))));
    assert!(matches!(j.get("z"), Some(Json::Null)));
    assert!(matches!(read_settings("nope"), Err(SettingsError::NotJson)));
    assert!(matches!(read_settings(""), Ok(Json::Object(m)) if m.is_empty()));
}
