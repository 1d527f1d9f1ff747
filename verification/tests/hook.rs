use cbc::hook::{
    declared_connections, parse_connections, parse_orchestrator, parse_worker, parse_worker_mode,
    ActiveEntry, DeclaredConnection, OrchestratorEntry, WorkerEntry, WorkerMode,
};
use cbc::reconcile::{
    plan_stop, poll_command, poll_matches, reconcile_action, KillOrder, ReconcileAction, StopPlan,
};
use cbc::session::emit_relaunch;
use cbc::statefile::flag_value;

fn conn(name: &str, room: &str, id: Option<&str>, model: &str) -> DeclaredConnection {
    DeclaredConnection {
        name: name.to_string(),
        room_id: room.to_string(),
        identity: id.map(str::to_string),
        model: model.to_string(),
    }
}

#[test]
fn reconcile_one_poll_is_ok() {
    assert_eq!(reconcile_action(1, false), ReconcileAction::Healthy);
    assert_eq!(reconcile_action(1, true), ReconcileAction::Healthy);
}

#[test]
fn reconcile_zero_not_launched_advises_relaunch() {
    assert_eq!(reconcile_action(0, false), ReconcileAction::AdviseRelaunch);
}

#[test]
fn reconcile_zero_launched_this_turn_is_ok_race_window() {
    assert_eq!(
        reconcile_action(0, true),
        ReconcileAction::Healthy,
        "a poll launched this turn isn't process-visible yet — must not block"
    );
}

#[test]
fn reconcile_more_than_one_is_kill_extras() {
    assert_eq!(reconcile_action(5, false), ReconcileAction::KillExtras);
    assert_eq!(
        reconcile_action(2, true),
        ReconcileAction::KillExtras,
        "launched-this-turn is irrelevant when polls already exist"
    );
}

#[test]
fn poll_command_includes_identity_when_present() {
    assert_eq!(
        poll_command("room-20260625-1000", "sonnet-4-6", Some("api-cbc")),
        "cbc poll room-20260625-1000 --model sonnet-4-6 --as api-cbc"
    );
}

#[test]
fn poll_command_omits_identity_when_absent() {
    assert_eq!(
        poll_command("room-20260625-1000", "sonnet", None),
        "cbc poll room-20260625-1000 --model sonnet"
    );
}

#[test]
fn poll_matches_real_child_process() {
    let line = "cbc poll report-orch-20260624-0502 --model opus-4-8 --as api-cbc";
    assert!(poll_matches(
        line,
        "report-orch-20260624-0502",
        Some("api-cbc")
    ));
}

#[test]
fn poll_matches_accepts_absolute_argv0_path() {
    let line = "/Users/me/.cargo/bin/cbc poll room-20260625-1000 --model sonnet --as me";
    assert!(poll_matches(line, "room-20260625-1000", Some("me")));
}

#[test]
fn poll_matches_rejects_zsh_wrapper_to_avoid_double_count() {
    // The run_in_background wrapper — must NOT match, else every poll counts twice.
    let wrapper = "/bin/zsh -c cbc poll room-20260625-1000 --model sonnet --as me";
    assert!(
        !poll_matches(wrapper, "room-20260625-1000", Some("me")),
        "the /bin/zsh -c wrapper must be excluded (B0.5 trap a)"
    );
}

#[test]
fn poll_matches_rejects_foreign_identity() {
    let line = "cbc poll shared-room-20260625-1000 --model sonnet --as OTHER-session";
    assert!(
        !poll_matches(line, "shared-room-20260625-1000", Some("my-session")),
        "a different --as must not match (B0.5 trap b: friendly-fire)"
    );
}

#[test]
fn poll_matches_rejects_different_room() {
    let line = "cbc poll room-A-20260625-1000 --model sonnet --as me";
    assert!(!poll_matches(line, "room-B-20260625-1000", Some("me")));
}

#[test]
fn poll_matches_identity_none_ignores_as_flag() {
    let line = "cbc poll room-20260625-1000 --model sonnet --as whoever";
    assert!(
        poll_matches(line, "room-20260625-1000", None),
        "identity None ⇒ room-only match (back-compat)"
    );
}

#[test]
fn plan_stop_advises_relaunch_for_dead_poll() {
    let conns = vec![conn("orch", "room-20260625-1000", Some("me"), "sonnet")];
    let plan = plan_stop(&conns, &[0], &[false]);
    assert!(plan.kills.is_empty());
    assert_eq!(
        plan.relaunch,
        vec!["cbc poll room-20260625-1000 --model sonnet --as me"]
    );
}

#[test]
fn plan_stop_healthy_poll_no_action() {
    let conns = vec![conn("orch", "room-20260625-1000", Some("me"), "sonnet")];
    let plan = plan_stop(&conns, &[1], &[false]);
    assert_eq!(plan, StopPlan::default());
}

#[test]
fn plan_stop_kills_surplus() {
    let conns = vec![conn("orch", "room-20260625-1000", Some("me"), "sonnet")];
    let plan = plan_stop(&conns, &[4], &[false]);
    assert!(plan.relaunch.is_empty());
    assert_eq!(
        plan.kills,
        vec![KillOrder {
            room_id: "room-20260625-1000".to_string(),
            identity: Some("me".to_string()),
        }]
    );
}

#[test]
fn plan_stop_race_window_no_block() {
    let conns = vec![conn("orch", "room-20260625-1000", Some("me"), "sonnet")];
    let plan = plan_stop(&conns, &[0], &[true]);
    assert_eq!(plan, StopPlan::default(), "launched-this-turn ⇒ no block");
}

#[test]
fn plan_stop_mixed_connections() {
    let conns = vec![
        conn("a", "room-a-20260625-1000", Some("me"), "sonnet"), // dead → relaunch
        conn("b", "room-b-20260625-1000", Some("me"), "opus"),   // healthy → ok
        conn("c", "room-c-20260625-1000", Some("me"), "sonnet"), // surplus → kill
    ];
    let counts: Vec<usize> = conns
        .iter()
        .map(|c| match c.room_id.as_str() {
            "room-a-20260625-1000" => 0,
            "room-b-20260625-1000" => 1,
            "room-c-20260625-1000" => 2,
            _ => 0,
        })
        .collect();
    let plan = plan_stop(&conns, &counts, &[false, false, false]);
    assert_eq!(plan.relaunch.len(), 1);
    assert!(plan.relaunch[0].contains("room-a-20260625-1000"));
    assert_eq!(plan.kills.len(), 1);
    assert_eq!(plan.kills[0].room_id, "room-c-20260625-1000");
    assert_eq!(plan.kills[0].identity.as_deref(), Some("me"));
}

#[test]
fn declared_connections_prefers_connections_block() {
    let content = "\
status: ACTIVE
room-id: legacy-room-should-be-ignored
connections:
  orch: new-room-20260625-1200 --as me --model sonnet
";
    let c = declared_connections(content);
    assert_eq!(c.len(), 1);
    assert_eq!(c[0].room_id, "new-room-20260625-1200");
    assert_eq!(c[0].identity.as_deref(), Some("me"));
}

#[test]
fn declared_connections_falls_back_to_worker_room_id() {
    let content = "\
status: ACTIVE
room-id: legacy-worker-room-20260625-1000
model: sonnet-4-6
";
    let c = declared_connections(content);
    assert_eq!(c.len(), 1, "legacy worker ⇒ one connection");
    assert_eq!(c[0].room_id, "legacy-worker-room-20260625-1000");
    assert_eq!(c[0].identity, None, "legacy ⇒ no identity");
    assert_eq!(c[0].model, "sonnet-4-6");
}

#[test]
fn declared_connections_falls_back_to_orchestrator_agents() {
    let content = "\
status: ACTIVE
model: opus-4-8

agents:
  repo-worker-feat: room-a-20260625-1100 (handle abc) — feat
  repo-worker-fix: room-b-20260625-1105 (handle def) — fix
";
    let c = declared_connections(content);
    assert_eq!(c.len(), 2, "legacy orchestrator ⇒ one per agent");
    assert_eq!(c[0].room_id, "room-a-20260625-1100");
    assert_eq!(c[0].model, "opus-4-8", "uses orchestrator model");
    assert_eq!(c[0].identity, None);
    assert_eq!(c[1].room_id, "room-b-20260625-1105");
}

#[test]
fn parse_connections_extracts_room_identity_and_model() {
    let content = "\
status: ACTIVE

connections:
  engine-orch: report-engine-orch-20260624-0502 --as api-cbc --model opus-4-8
  pdf-worker:  pdf-extractor-20260624-0600 --as api-cbc --model sonnet-4-6
";
    let conns = parse_connections(content);
    assert_eq!(conns.len(), 2, "should parse both connection lines");
    assert_eq!(conns[0].name, "engine-orch");
    assert_eq!(conns[0].room_id, "report-engine-orch-20260624-0502");
    assert_eq!(conns[0].identity.as_deref(), Some("api-cbc"));
    assert_eq!(conns[0].model, "opus-4-8");
    assert_eq!(conns[1].room_id, "pdf-extractor-20260624-0600");
    assert_eq!(conns[1].model, "sonnet-4-6");
}

#[test]
fn parse_connections_identity_none_and_model_default_when_absent() {
    let content = "\
connections:
  bare: some-room-20260625-1000
";
    let conns = parse_connections(content);
    assert_eq!(conns.len(), 1);
    assert_eq!(conns[0].room_id, "some-room-20260625-1000");
    assert_eq!(conns[0].identity, None, "absent --as ⇒ None");
    assert_eq!(conns[0].model, "<model>", "absent --model ⇒ fallback");
}

#[test]
fn parse_connections_ignores_lines_outside_block() {
    let content = "\
status: ACTIVE
room-id: not-a-connection
connections:
  real: real-room-20260625-1200 --as me --model sonnet

## Some other section
  fake: should-not-parse-20260625-1300 --as no --model no
";
    let conns = parse_connections(content);
    assert_eq!(conns.len(), 1, "only the indented line under connections:");
    assert_eq!(conns[0].room_id, "real-room-20260625-1200");
}

#[test]
fn parse_connections_empty_when_no_block() {
    assert!(parse_connections("status: ACTIVE\nno block here\n").is_empty());
}

/// Pins the worker SKILL.md template: a `mode: worker` file with the documented
/// `connections:` block must resolve to one identity-scoped connection.  If the
/// skill's block format drifts from the parser, this fails.
#[test]
fn declared_connections_worker_template_is_identity_scoped() {
    let content = "\
## Status
status: ACTIVE
mode: worker
room-id: report-engine-recompute-20260626-1430
model: sonnet-4-6

connections:
  orchestrator: report-engine-recompute-20260626-1430 --as engine-worker-recompute --model sonnet-4-6
";
    let conns = declared_connections(content);
    assert_eq!(conns.len(), 1);
    assert_eq!(conns[0].room_id, "report-engine-recompute-20260626-1430");
    assert_eq!(
        conns[0].identity.as_deref(),
        Some("engine-worker-recompute"),
        "the --as identity must reach the reconcile so it is session-scoped"
    );
    assert_eq!(conns[0].model, "sonnet-4-6");
}

#[test]
fn parse_worker_mode_reads_worker() {
    assert_eq!(
        parse_worker_mode("status: ACTIVE\nmode: worker\n"),
        WorkerMode::Worker
    );
}

#[test]
fn parse_worker_mode_reads_direct() {
    assert_eq!(parse_worker_mode("mode: direct\n"), WorkerMode::Direct);
}

#[test]
fn parse_worker_mode_defaults_to_direct_when_absent() {
    assert_eq!(
        parse_worker_mode("status: ACTIVE\nroom-id: x\n"),
        WorkerMode::Direct,
        "absent mode ⇒ Direct (standalone)"
    );
}

#[test]
fn parse_worker_returns_entry_for_active_file_with_all_fields() {
    let content = "\
## Worker charter — read me first, every session
(charter)

## Status
status: ACTIVE
next-action: keep implementing
phase: implementing
last-synced-to-orchestrator: implementing
task: add the thing
branch: feat/the-thing
worktree: /home/me/worktrees/the-thing
room-id: repo-worker-feat-20260625-1200
poll-label: repo-worker-feat
model: sonnet-4-6
state-file-path: /home/me/worktrees/the-thing/.cbc/worker-repo-feat-20260625.md
";
    let w = parse_worker(content).expect("should parse active worker");
    assert_eq!(w.room_id, "repo-worker-feat-20260625-1200");
    assert_eq!(w.poll_label, "repo-worker-feat");
    assert_eq!(w.model, "sonnet-4-6");
}

#[test]
fn parse_worker_returns_none_for_done_status() {
    let content = "\
## Status
status: DONE
room-id: some-room
model: sonnet
";
    assert!(
        parse_worker(content).is_none(),
        "DONE status must not produce an entry"
    );
}

#[test]
fn parse_worker_returns_none_when_no_room_id() {
    let content = "\
## Status
status: ACTIVE
model: sonnet
";
    assert!(
        parse_worker(content).is_none(),
        "missing room-id must produce None"
    );
}

#[test]
fn parse_worker_falls_back_gracefully_without_model_or_label() {
    let content = "\
## Status
status: ACTIVE
room-id: some-room-20260625-0900
";
    let w = parse_worker(content).expect("should parse with defaults");
    assert_eq!(w.room_id, "some-room-20260625-0900");
    assert_eq!(w.poll_label, "");
    assert_eq!(w.model, "<model>");
    assert_eq!(w.identity, None, "no poll-label ⇒ no identity");
}

#[test]
fn parse_worker_recovers_identity_from_full_command_poll_label() {
    // The live legacy shape: the worker stuffed the whole `cbc poll …`
    // command (with `--as`) into poll-label, plus a trailing `#` comment
    // that ALSO mentions `--as` in prose.  The first `--as` token wins.
    let content = "\
## Status
status: ACTIVE
room-id: cbc-report-seeds-20260626-0027
poll-label: cbc poll cbc-report-seeds-20260626-0027 --as mvp-api-sonnet-4-6-9df0 --model sonnet-4-6  # MUST include --as to match join identity
model: sonnet-4-6
";
    let w = parse_worker(content).expect("should parse active worker");
    assert_eq!(w.room_id, "cbc-report-seeds-20260626-0027");
    assert_eq!(
        w.identity.as_deref(),
        Some("mvp-api-sonnet-4-6-9df0"),
        "the --as handle already in poll-label must be recovered, not discarded"
    );
    assert_eq!(w.model, "sonnet-4-6");
}

#[test]
fn parse_worker_identity_none_for_bare_label() {
    let content = "\
## Status
status: ACTIVE
room-id: feat-room-20260625-1200
poll-label: repo-worker-feat
model: sonnet-4-6
";
    let w = parse_worker(content).expect("should parse");
    assert_eq!(
        w.identity, None,
        "a bare label (no --as flag) must yield identity None — no false match"
    );
}

#[test]
fn parse_worker_ignores_as_and_model_mentioned_only_in_a_comment() {
    // Footgun: a BARE label whose ONLY `--as`/`--model` mention lives inside a
    // trailing `#` comment (prose, not a real flag).  Scanning the comment
    // would fabricate identity="ghost"/model="model-x" — WORSE than None,
    // because a wrong --as makes poll_matches miss the healthy poll and the
    // reconcile relaunches `--as ghost` → the exact 400 this PR kills.  The
    // comment must be stripped before flag extraction.
    let content = "\
## Status
status: ACTIVE
room-id: feat-room-20260625-1400
poll-label: repo-worker-feat  # remember to pass --as ghost --model model-x or it 400s
model: sonnet-4-6
";
    let w = parse_worker(content).expect("should parse");
    assert_eq!(
        w.identity, None,
        "an --as mentioned only in a # comment must NOT be recovered as a real flag"
    );
    assert_eq!(
        w.model, "sonnet-4-6",
        "model must come from the real `model:` field, not the comment's --model"
    );
}

#[test]
fn parse_worker_recovers_model_from_poll_label_when_field_absent() {
    // No dedicated `model:` line — the `--model` inside poll-label is the
    // only source.  (Identity comes from the same line.)
    let content = "\
## Status
status: ACTIVE
room-id: feat-room-20260625-1300
poll-label: cbc poll feat-room-20260625-1300 --as me-9df0 --model opus-4-8
";
    let w = parse_worker(content).expect("should parse");
    assert_eq!(w.identity.as_deref(), Some("me-9df0"));
    assert_eq!(
        w.model, "opus-4-8",
        "absent model: field ⇒ fall back to the poll-label --model"
    );
}

#[test]
fn flag_value_rejects_a_following_flag_as_the_value() {
    // Malformed line: `--as` immediately followed by another flag (a missing
    // `<id>`).  Without a guard, identity becomes `"--model"` — a garbage
    // handle that `poll_matches` can never match, so the reconcile both
    // relaunches a stacked poll AND reaps the healthy one: the exact
    // friendly-fire this PR exists to kill.  The value after a flag must be
    // a real token, never another `--flag`.  The helper now backs BOTH
    // parse paths, so the guard hardens `parse_connections` too.
    assert_eq!(
        flag_value("cbc poll room --as --model model-x", "--as"),
        None,
        "a flag whose value is itself another --flag must yield None, not the next flag"
    );
    // Sanity: a real value immediately before a `#` comment still resolves.
    assert_eq!(
        flag_value("room --as good-9df0 # note", "--as"),
        Some("good-9df0".to_string())
    );
}

/// The end-to-end self-heal: a legacy worker file (no `connections:` block)
/// whose poll-label carries the full command must yield a declared
/// connection WITH identity, so the Stop reconcile's relaunch emits `--as`
/// (no 400) and the kill is identity-scoped (no 143 on the healthy poll).
#[test]
fn declared_connections_legacy_worker_recovers_identity_from_poll_label() {
    let content = "\
## Status
status: ACTIVE
room-id: cbc-report-seeds-20260626-0027
poll-label: cbc poll cbc-report-seeds-20260626-0027 --as mvp-api-9df0 --model sonnet-4-6
model: sonnet-4-6
";
    let conns = declared_connections(content);
    assert_eq!(conns.len(), 1);
    assert_eq!(conns[0].room_id, "cbc-report-seeds-20260626-0027");
    assert_eq!(
        conns[0].identity.as_deref(),
        Some("mvp-api-9df0"),
        "legacy worker must self-heal: identity reaches the reconcile"
    );
    // And the relaunch command the reconcile would emit carries --as.
    assert_eq!(
        poll_command(
            &conns[0].room_id,
            &conns[0].model,
            conns[0].identity.as_deref()
        ),
        "cbc poll cbc-report-seeds-20260626-0027 --model sonnet-4-6 --as mvp-api-9df0"
    );
}

#[test]
fn declared_connections_strips_trailing_punctuation_from_real_world_poll_label() {
    // A real production state file's `poll-label` is not the canonical
    // `cbc poll <room> --as <id> --model <m>` line the skill originally
    // taught — agents write a descriptive comment instead:
    // `cbc poll (bg task <taskid>, --as <id>) -- <prose>`. With no space
    // before the closing paren, whitespace-splitting yields `<id>)` as one
    // token. Without stripping, the recovered identity is corrupted, so the
    // hook's own kill/relaunch never matches the real running poll's
    // `--as <id>` (no paren) — a second, independent churn source from the
    // one already fixed for random-hex minting.
    let content = "\
## Status
status: ACTIVE
room-id: cbc-report-mvp-engine-chemistry-panel-casing-orchestrator-20260629-1742
poll-label: cbc poll (bg task bsjmeuspl, --as mvp-engine-opus48-9ed8) -- relaunched again post-compaction
model: opus48
";
    let conns = declared_connections(content);
    assert_eq!(conns.len(), 1);
    assert_eq!(
        conns[0].identity.as_deref(),
        Some("mvp-engine-opus48-9ed8"),
        "trailing punctuation from the parenthetical label must not leak into the identity"
    );
}

#[test]
fn parse_orchestrator_returns_entry_for_active_file() {
    let content = "\
## Orchestrator charter

status: ACTIVE
next-action: recap all rooms
branch: main
worktree: /home/me/projects/repo
model: opus-4-8

agents:
  repo-worker-feat: feat-room-20260625-1100 (handle abc123) — feat work — ✓
  repo-worker-fix:  fix-room-20260625-1105 (handle def456) — fix work — quiet
";
    let o = parse_orchestrator(content).expect("should parse active orchestrator");
    assert_eq!(o.model, "opus-4-8");
    assert_eq!(o.rooms.len(), 2);
    assert_eq!(
        o.rooms[0],
        (
            "repo-worker-feat".to_string(),
            "feat-room-20260625-1100".to_string()
        )
    );
    assert_eq!(
        o.rooms[1],
        (
            "repo-worker-fix".to_string(),
            "fix-room-20260625-1105".to_string()
        )
    );
}

#[test]
fn parse_orchestrator_returns_none_for_done() {
    let content = "\
status: DONE
model: opus

agents:
  repo-worker-feat: some-room-123 (handle abc) — done
";
    assert!(parse_orchestrator(content).is_none());
}

#[test]
fn parse_orchestrator_returns_none_when_agents_empty() {
    let content = "\
status: ACTIVE
model: opus

agents:
";
    assert!(
        parse_orchestrator(content).is_none(),
        "empty agents block must return None"
    );
}

#[test]
fn parse_orchestrator_falls_back_model_without_model_field() {
    let content = "\
status: ACTIVE

agents:
  repo-worker-feat: some-room-20260625-1200 (handle abc) — feat
";
    let o = parse_orchestrator(content).expect("should parse");
    assert_eq!(o.model, "<model>");
}

#[test]
fn emit_relaunch_worker_contains_poll_command_and_calls_kill() {
    let entry = ActiveEntry::Worker(WorkerEntry {
        room_id: "feat-room-20260625-1000".to_string(),
        poll_label: "repo-worker-feat".to_string(),
        model: "sonnet-4-6".to_string(),
        identity: None,
    });
    let mut out = String::new();
    let killed: Vec<String> = emit_relaunch(&entry, &mut out, &|_| None)
        .into_iter()
        .map(|k| {
            assert_eq!(k.identity, None);
            k.room_id
        })
        .collect();

    let text = out;
    assert!(
        text.contains("cbc poll feat-room-20260625-1000 --model sonnet-4-6"),
        "output must contain the exact poll command; got:\n{text}"
    );
    assert!(
        text.contains("repo-worker-feat"),
        "output must contain the poll label; got:\n{text}"
    );
    assert_eq!(
        killed,
        vec!["feat-room-20260625-1000"],
        "kill_fn must be called with the room id"
    );
}

#[test]
fn emit_relaunch_orchestrator_lists_all_rooms_and_kills_each() {
    let entry = ActiveEntry::Orchestrator(OrchestratorEntry {
        model: "opus-4-8".to_string(),
        rooms: vec![
            (
                "repo-worker-feat".to_string(),
                "room-a-20260625-1100".to_string(),
            ),
            (
                "repo-worker-fix".to_string(),
                "room-b-20260625-1105".to_string(),
            ),
        ],
    });
    let mut out = String::new();
    let killed: Vec<String> = emit_relaunch(&entry, &mut out, &|_| None)
        .into_iter()
        .map(|k| {
            assert_eq!(k.identity, None);
            k.room_id
        })
        .collect();

    let text = out;
    assert!(text.contains("cbc poll room-a-20260625-1100 --model opus-4-8"));
    assert!(text.contains("cbc poll room-b-20260625-1105 --model opus-4-8"));
    assert!(text.contains("repo-worker-feat"));
    assert!(text.contains("repo-worker-fix"));
    assert_eq!(
        killed,
        vec!["room-a-20260625-1100", "room-b-20260625-1105"],
        "kill_fn must be called once per room"
    );
}

#[test]
fn emit_relaunch_worker_inoculates_against_trusting_poll_live() {
    // A live incident: an agent read `poll_live: true` on its own pre-
    // compaction poll (still parked, orphaned from the new session) and
    // concluded "no relaunch needed" — overriding this very directive. The
    // directive text must pre-empt that override explicitly, not just say
    // "relaunch."
    let entry = ActiveEntry::Worker(WorkerEntry {
        room_id: "feat-room-20260625-1000".to_string(),
        poll_label: "repo-worker-feat".to_string(),
        model: "sonnet-4-6".to_string(),
        identity: None,
    });
    let mut out = String::new();
    let killed: Vec<String> = emit_relaunch(&entry, &mut out, &|_| None)
        .into_iter()
        .map(|k| {
            assert_eq!(k.identity, None);
            k.room_id
        })
        .collect();

    let text = out;
    assert!(
        text.contains("Do NOT check poll_live or ps to decide whether to skip this"),
        "directive must inoculate against trusting a self-liveness check; got:\n{text}"
    );
}

#[test]
fn emit_relaunch_orchestrator_inoculates_against_trusting_poll_live() {
    let entry = ActiveEntry::Orchestrator(OrchestratorEntry {
        model: "opus-4-8".to_string(),
        rooms: vec![(
            "repo-worker-feat".to_string(),
            "room-a-20260625-1100".to_string(),
        )],
    });
    let mut out = String::new();
    let killed: Vec<String> = emit_relaunch(&entry, &mut out, &|_| None)
        .into_iter()
        .map(|k| {
            assert_eq!(k.identity, None);
            k.room_id
        })
        .collect();

    let text = out;
    assert!(
        text.contains("Do NOT check poll_live or ps to decide whether to skip this"),
        "directive must inoculate against trusting a self-liveness check; got:\n{text}"
    );
}
