use cbc::hook::{ActiveEntry, WorkerEntry};
use cbc::reconcile::KillOrder;
use cbc::session::{
    active_entries, emit_relaunch, identity_for_room, relaunch_on_source, session_start_relaunch,
    POLL_LIVE_INOCULATION,
};

fn file(name: &str, content: &str) -> (String, String) {
    (name.to_string(), content.to_string())
}

#[test]
fn startup_source_owes_no_relaunch() {
    assert!(!relaunch_on_source(None));
    assert!(!relaunch_on_source(Some("startup")));
    assert!(!relaunch_on_source(Some("clear")));
    assert!(relaunch_on_source(Some("compact")));
    assert!(relaunch_on_source(Some("resume")));
}

#[test]
fn startup_emits_nothing_and_kills_nothing() {
    let files = vec![file(
        "worker-repo-feat-20260625.md",
        "status: ACTIVE\nroom-id: some-room\nmodel: sonnet\n",
    )];
    let out = session_start_relaunch(Some("startup"), &files);
    assert!(out.directives.is_empty());
    assert!(out.reaps.is_empty());
}

#[test]
fn compact_relaunches_each_active_entry_with_its_declared_identity() {
    let files = vec![
        file(
            "orchestration-repo-20260625.md",
            "status: ACTIVE\nmodel: opus\n\nagents:\n  w1: room-a-20260625-1100 (handle abc) — feat\n",
        ),
        file(
            "worker-repo-feat-20260625.md",
            "status: ACTIVE\nroom-id: room-b-20260625-1200\npoll-label: repo-worker-feat\nmodel: sonnet\nconnections:\n  orch: room-b-20260625-1200 --as me-worker --model sonnet\n",
        ),
        file("notes.md", "status: ACTIVE\nroom-id: ignored-room\n"),
        file("worker-done.md", "status: DONE\nroom-id: done-room\n"),
    ];
    let outcome = session_start_relaunch(Some("compact"), &files);
    let kills: Vec<(String, Option<String>)> =
        outcome.reaps.into_iter().map(|k| (k.room_id, k.identity)).collect();
    let out = outcome.directives;
    assert_eq!(
        kills,
        vec![
            ("room-a-20260625-1100".to_string(), None),
            ("room-b-20260625-1200".to_string(), Some("me-worker".to_string())),
        ]
    );
    assert!(out.contains("  cbc poll room-a-20260625-1100 --model opus      # w1 poll\n"));
    assert!(out.contains(
        "  cbc poll room-b-20260625-1200 --model sonnet --as me-worker      # repo-worker-feat\n"
    ));
    assert!(!out.contains("ignored-room"));
    assert!(!out.contains("done-room"));
    assert_eq!(out.matches(POLL_LIVE_INOCULATION).count(), 2);
}

#[test]
fn worker_directive_is_exact() {
    let entry = ActiveEntry::Worker(WorkerEntry {
        room_id: "r-20260625-1000".to_string(),
        poll_label: String::new(),
        model: "m".to_string(),
        identity: None,
    });
    let mut out = String::from("prefix");
    let reaps = emit_relaunch(&entry, &mut out, &|_| Some("id-1".to_string()));
    assert_eq!(
        reaps,
        vec![KillOrder { room_id: "r-20260625-1000".to_string(), identity: Some("id-1".to_string()) }]
    );
    let expected = format!(
        "prefix\n⚠ CBC POLL RESTART REQUIRED (post-compaction). Your background poll did NOT survive.\n\
         FIRST ACTION, before reading files or composing anything — relaunch as a background task:\n  \
         cbc poll r-20260625-1000 --model m --as id-1\n\
         The room is ACTIVE; you are deaf until this poll is running.\n{POLL_LIVE_INOCULATION}\n"
    );
    assert_eq!(out, expected);
}

#[test]
fn active_entries_keeps_file_order_and_prefixes() {
    let files = vec![
        file("worker-a.md", "status: ACTIVE\nroom-id: ra\n"),
        file("orchestration-b.md", "status: ACTIVE\n\nagents:\n  x: rb (handle h) — y\n"),
        file("other-c.md", "status: ACTIVE\nroom-id: rc\n"),
    ];
    let es = active_entries(&files);
    assert_eq!(es.len(), 2);
    assert!(matches!(&es[0], ActiveEntry::Worker(w) if w.room_id == "ra"));
    assert!(matches!(&es[1], ActiveEntry::Orchestrator(o) if o.rooms[0].1 == "rb"));
}

#[test]
fn identity_for_room_takes_the_first_declaration() {
    let declared = cbc::hook::declared_connections(
        "connections:\n  a: room-x --as first\n  b: room-x --as second\n  c: room-y\n",
    );
    assert_eq!(identity_for_room(&declared, "room-x"), Some("first".to_string()));
    assert_eq!(identity_for_room(&declared, "room-y"), None);
    assert_eq!(identity_for_room(&declared, "room-z"), None);
}

#[test]
fn scan_active_finds_worker_and_ignores_done() {
    let files = vec![
        file(
            "worker-repo-done-20260620.md",
            "status: DONE\nroom-id: old-room\n",
        ),
        file(
            "worker-repo-feat-20260625.md",
            "status: ACTIVE\nroom-id: feat-room-20260625-1000\nmodel: sonnet\n",
        ),
    ];
    let entries = active_entries(&files);
    assert_eq!(entries.len(), 1);
    match &entries[0] {
        ActiveEntry::Worker(w) => assert_eq!(w.room_id, "feat-room-20260625-1000"),
        _ => panic!("expected Worker entry"),
    }
}

#[test]
fn scan_active_finds_orchestration_file() {
    let files = vec![file(
        "orchestration-repo-20260625.md",
        "status: ACTIVE\nmodel: opus\n\nagents:\n  repo-worker-feat: room-abc-20260625-1000 (handle xyz) — feat\n",
    )];
    let entries = active_entries(&files);
    assert_eq!(entries.len(), 1);
    match &entries[0] {
        ActiveEntry::Orchestrator(o) => {
            assert_eq!(o.rooms.len(), 1);
            assert_eq!(o.rooms[0].1, "room-abc-20260625-1000");
        }
        _ => panic!("expected Orchestrator entry"),
    }
}

#[test]
fn no_reap_when_no_relaunch_is_owed() {
    let files = vec![file(
        "worker-repo-feat-20260625.md",
        "status: ACTIVE\nroom-id: some-room\nmodel: sonnet\nconnections:\n  o: some-room --as me\n",
    )];
    for source in [None, Some("startup"), Some("clear"), Some("")] {
        let out = session_start_relaunch(source, &files);
        assert!(out.directives.is_empty());
        assert!(out.reaps.is_empty());
    }
    let out = session_start_relaunch(Some("resume"), &files);
    assert_eq!(
        out.reaps,
        vec![KillOrder { room_id: "some-room".to_string(), identity: Some("me".to_string()) }]
    );
}
