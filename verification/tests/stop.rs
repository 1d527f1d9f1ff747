use cbc::reconcile::{declared_in_files, reconcile_stop, stop_connections, StopOutcome};
use cbc::scan::md_names_in_order;

/// The `.md` files of a `.cbc/` directory, read in the order the hooks read them.
fn dir_contents(files: &[(&str, &str)]) -> Vec<String> {
    let names = md_names_in_order(files.iter().map(|(n, _)| n.to_string()).collect());
    names
        .iter()
        .map(|n| files.iter().find(|(m, _)| m == n).unwrap().1.to_string())
        .collect()
}

fn stop(
    files: &[(&str, &str)],
    stop_hook_active: bool,
    session_id: Option<&str>,
    count: usize,
) -> StopOutcome {
    probe(files, stop_hook_active, session_id, |_| count)
}

/// The Stop handler's flow: probe each declared connection once, in order,
/// then reconcile.
fn probe(
    files: &[(&str, &str)],
    stop_hook_active: bool,
    session_id: Option<&str>,
    count: impl Fn(&str) -> usize,
) -> StopOutcome {
    let conns = stop_connections(session_id, &dir_contents(files));
    let counts: Vec<usize> = conns.iter().map(|c| count(&c.room_id)).collect();
    let launched = vec![false; conns.len()];
    reconcile_stop(stop_hook_active, &conns, &counts, &launched)
}

fn context_of(advisory: &str) -> String {
    let v: serde_json::Value = serde_json::from_str(advisory).expect("Stop advisory output must be valid JSON");
    assert!(v.get("decision").is_none(), "Stop must not block turn-end; got:\n{advisory}");
    v.get("hookSpecificOutput")
        .and_then(|h| h.get("additionalContext"))
        .and_then(|c| c.as_str())
        .unwrap_or("")
        .to_string()
}

const API: &str = "status: ACTIVE\nconnections:\n  orch: room-a-20260625-1000 --as api --model opus\n";

#[test]
fn scan_declared_collects_across_active_files_only() {
    let files = [
        ("api-instructions-20260625.md", "status: ACTIVE\nconnections:\n  orch: room-a-20260625-1000 --as api --model opus\n"),
        ("worker-legacy-20260625.md", "status: ACTIVE\nroom-id: room-b-20260625-1005\nmodel: sonnet\n"),
        ("old-done-20260620.md", "status: DONE\nroom-id: room-z\n"),
        ("notes.txt", "status: ACTIVE\nroom-id: room-txt\n"),
    ];
    let conns = declared_in_files(&dir_contents(&files), None);
    let rooms: Vec<&str> = conns.iter().map(|c| c.room_id.as_str()).collect();
    assert_eq!(rooms, vec!["room-a-20260625-1000", "room-b-20260625-1005"]);
}

#[test]
fn scan_declared_scopes_to_owning_session() {
    let files = [
        ("worker-mine-20260708.md", "status: ACTIVE\nsession-id: sess-aaa\nconnections:\n  orch: room-mine-20260708-1000 --as me --model opus\n"),
        ("worker-theirs-20260708.md", "status: ACTIVE\nsession-id: sess-bbb\nconnections:\n  orch: room-theirs-20260708-1005 --as them --model opus\n"),
    ];
    let conns = declared_in_files(&dir_contents(&files), Some("sess-aaa"));
    let rooms: Vec<&str> = conns.iter().map(|c| c.room_id.as_str()).collect();
    assert_eq!(rooms, vec!["room-mine-20260708-1000"]);
}

#[test]
fn scan_declared_skips_unstamped_when_session_known() {
    let files = [("worker-legacy-20260707.md", "status: ACTIVE\nconnections:\n  orch: room-legacy-20260707-1828 --as fresh --model opus\n")];
    assert!(declared_in_files(&dir_contents(&files), Some("sess-aaa")).is_empty());
}

#[test]
fn scan_declared_includes_all_when_session_unknown() {
    let files = [
        ("worker-stamped-20260708.md", "status: ACTIVE\nsession-id: sess-bbb\nconnections:\n  orch: room-stamped-20260708-1000 --as them --model opus\n"),
        ("worker-legacy-20260707.md", "status: ACTIVE\nconnections:\n  orch: room-legacy-20260707-1828 --as fresh --model opus\n"),
    ];
    let conns = declared_in_files(&dir_contents(&files), None);
    let rooms: Vec<&str> = conns.iter().map(|c| c.room_id.as_str()).collect();
    assert!(rooms.contains(&"room-stamped-20260708-1000"));
    assert!(rooms.contains(&"room-legacy-20260707-1828"));
}

#[test]
fn run_stop_advises_relaunch_for_dead_poll_without_blocking() {
    let out = stop(&[("api-instructions-20260625.md", API)], false, None, 0);
    let ctx = context_of(out.advisory.as_deref().expect("an advisory"));
    assert!(ctx.contains("cbc poll room-a-20260625-1000 --model opus --as api"));
    assert!(out.kills.is_empty());
}

#[test]
fn run_stop_legacy_worker_advisory_carries_recovered_as() {
    let files = [(
        "worker-legacy-fullcmd-20260626.md",
        "status: ACTIVE\nroom-id: cbc-report-seeds-20260626-0027\npoll-label: cbc poll cbc-report-seeds-20260626-0027 --as mvp-api-9df0 --model sonnet-4-6\nmodel: sonnet-4-6\n",
    )];
    let out = stop(&files, false, None, 0);
    let ctx = context_of(out.advisory.as_deref().expect("an advisory"));
    assert!(ctx.contains("cbc poll cbc-report-seeds-20260626-0027 --model sonnet-4-6 --as mvp-api-9df0"));
}

#[test]
fn run_stop_does_not_nag_about_another_sessions_room() {
    let files = [
        ("worker-vet-exam-20260708.md", "status: ACTIVE\nsession-id: sess-mine\nconnections:\n  orch: room-mine-20260708-1756 --as engine-worker-vet-exam --model opus\n"),
        ("worker-fresh-20260707.md", "status: ACTIVE\nsession-id: sess-other\nconnections:\n  orch: room-other-20260707-1828 --as engine-worker-fresh --model opus\n"),
    ];
    let out = probe(&files, false, Some("sess-mine"), |room| usize::from(room == "room-mine-20260708-1756"));
    assert!(out.kills.is_empty());
    assert!(out.advisory.is_none());
}

#[test]
fn run_stop_scoped_positive_own_dead_poll_still_advises() {
    let files = [
        ("worker-mine-20260708.md", "status: ACTIVE\nsession-id: sess-mine\nconnections:\n  orch: room-mine-20260708-1756 --as engine-worker-mine --model opus\n"),
        ("worker-other-20260707.md", "status: ACTIVE\nsession-id: sess-other\nconnections:\n  orch: room-other-20260707-1828 --as engine-worker-fresh --model opus\n"),
    ];
    let out = stop(&files, false, Some("sess-mine"), 0);
    let text = out.advisory.expect("an advisory");
    assert!(text.contains("cbc poll room-mine-20260708-1756 --model opus --as engine-worker-mine"));
    assert!(!text.contains("room-other-20260707-1828"));
}

#[test]
fn run_stop_empty_session_id_falls_back_to_include_all() {
    let files = [("worker-mine-20260708.md", "status: ACTIVE\nsession-id: sess-mine\nconnections:\n  orch: room-mine-20260708-1756 --as engine-worker-mine --model opus\n")];
    let out = stop(&files, false, Some(""), 0);
    assert!(out.advisory.expect("an advisory").contains("room-mine-20260708-1756"));
}

#[test]
fn stop_advisory_mandates_a_standing_poll_not_a_heartbeat() {
    let out = stop(&[("api-instructions-20260625.md", API)], false, None, 0);
    let ctx = context_of(out.advisory.as_deref().expect("an advisory"));
    assert!(ctx.contains("standing"));
    assert!(!ctx.contains("owns liveness"));
}

#[test]
fn run_stop_loop_guard_suppresses_advisory_when_stop_hook_active() {
    let out = stop(&[("api-instructions-20260625.md", API)], true, None, 0);
    assert!(out.advisory.is_none());
}

#[test]
fn run_stop_kills_surplus_without_blocking() {
    let out = stop(&[("api-instructions-20260625.md", API)], false, None, 3);
    assert!(out.advisory.is_none(), "surplus-only must not block");
    assert_eq!(out.kills.len(), 1);
    assert_eq!(out.kills[0].room_id, "room-a-20260625-1000");
    assert_eq!(out.kills[0].identity.as_deref(), Some("api"));
}

#[test]
fn md_names_in_order_sorts_and_keeps_only_md_files() {
    let names = ["b.md", "a.md", ".md", "c.txt", "a.md.bak", "Z.md", "x..md"]
        .iter()
        .map(|s| s.to_string())
        .collect();
    assert_eq!(md_names_in_order(names), vec!["Z.md", "a.md", "b.md", "x..md"]);
}
