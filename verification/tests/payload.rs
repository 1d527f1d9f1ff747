use cbc::payload::hook_payload;
use cbc::session::{relaunch_on_source, session_start_relaunch, SessionStartOutcome};

const ACTIVE_WORKER: (&str, &str) = (
    "worker-repo-feat-20260625.md",
    "status: ACTIVE\nroom-id: feat-room-20260625-1000\nmodel: sonnet\n",
);

/// The SessionStart handler's flow over a raw stdin: read the payload, default
/// a missing source to `startup`, and relaunch only when one is owed.
fn session_start(raw: &str) -> SessionStartOutcome {
    let files = vec![(ACTIVE_WORKER.0.to_string(), ACTIVE_WORKER.1.to_string())];
    let none = SessionStartOutcome { directives: String::new(), reaps: Vec::new() };
    let Some(payload) = hook_payload(raw) else { return none };
    let source = payload.source.as_deref().or(Some("startup"));
    if !relaunch_on_source(source) {
        return none;
    }
    session_start_relaunch(source, &files)
}

#[test]
fn run_empty_stdin_is_no_op() {
    assert!(hook_payload("").is_none());
    let out = session_start("");
    assert!(out.directives.is_empty());
    assert!(out.reaps.is_empty());
}

#[test]
fn run_malformed_json_is_no_op() {
    let p = hook_payload("{ not valid json").expect("a non-blank payload reads as an event");
    assert_eq!(p.source, None);
    let out = session_start("{ not valid json");
    assert!(out.directives.is_empty(), "malformed JSON must be a silent no-op");
    assert!(out.reaps.is_empty());
}

#[test]
fn blank_payload_is_nothing_to_do() {
    assert!(hook_payload("  \n\t ").is_none());
}

#[test]
fn compact_payload_relaunches() {
    let out = session_start("{\"source\":\"compact\",\"cwd\":\"/tmp/x\"}");
    assert!(out.directives.contains("cbc poll feat-room-20260625-1000 --model sonnet"));
    assert_eq!(out.reaps.len(), 1);
}

#[test]
fn each_field_is_read_on_its_own() {
    let p = hook_payload(
        "{\"source\": 7, \"cwd\": \"/work/repo\", \"session_id\": \"sess-1\", \"stop_hook_active\": true}",
    )
    .unwrap();
    assert_eq!(p.source, None, "a wrong-typed field is absent");
    assert_eq!(p.cwd.as_deref(), Some("/work/repo"));
    assert_eq!(p.session_id.as_deref(), Some("sess-1"));
    assert_eq!(p.stop_hook_active, Some(true));

    let q = hook_payload("{\"stop_hook_active\": \"yes\", \"source\": \"resume\"}").unwrap();
    assert_eq!(q.stop_hook_active, None);
    assert_eq!(q.source.as_deref(), Some("resume"));
    assert_eq!(q.cwd, None);

    let r = hook_payload("[1, 2]").unwrap();
    assert_eq!(r.source, None);
    assert_eq!(r.cwd, None);
}
