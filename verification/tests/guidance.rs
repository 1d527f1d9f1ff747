use cbc::guidance::{
    join_next, parse_mcp_wait_cap, poll_launch_clause, send_next, wait_next, CBC_INSTRUCTIONS,
    DEFAULT_MCP_WAIT_CAP_SECS,
};
use cbc::protocol::{MessageView, WaitResponse};

#[test]
fn mcp_wait_cap_defaults_when_unset_or_garbage() {
    assert_eq!(parse_mcp_wait_cap(None), DEFAULT_MCP_WAIT_CAP_SECS);
    assert_eq!(
        parse_mcp_wait_cap(Some("nonsense")),
        DEFAULT_MCP_WAIT_CAP_SECS
    );
}

#[test]
fn cbc_instructions_within_budget() {
    assert!(
        CBC_INSTRUCTIONS.len() < 2000,
        "CBC_INSTRUCTIONS is {} chars — operational detail belongs in the per-call `next` \
         field, not the server-instructions block. Keep this a concise mental model.",
        CBC_INSTRUCTIONS.len()
    );
}

#[test]
fn mcp_wait_cap_honors_a_valid_override() {
    assert_eq!(parse_mcp_wait_cap(Some("45")), 45);
    assert_eq!(parse_mcp_wait_cap(Some("  120 ")), 120);
}

#[test]
fn mcp_wait_cap_clamps_under_the_server_cap() {
    assert_eq!(parse_mcp_wait_cap(Some("0")), 1);
    assert_eq!(parse_mcp_wait_cap(Some("100000")), 590);
}

#[test]
fn poll_launch_clause_echoes_the_anchored_label_verbatim() {
    let s = poll_launch_clause(Some("mvp-engine-orchestrator"), "room-20260625-1000");
    assert!(
        s.contains("cbc poll room-20260625-1000 --model <m> --as mvp-engine-orchestrator"),
        "an anchored label must be handed back as the exact poll command; got: {s}"
    );
}

#[test]
fn poll_launch_clause_without_a_label_steers_to_a_role_label_not_a_session_id() {
    let s = poll_launch_clause(None, "room-20260625-1000");
    // Uses the literal `<label>` placeholder + the role-label conventions —
    // never a concrete value to copy. The helper is handed only the caller's
    // explicit arg, so a resolved session id cannot leak here by construction.
    assert!(s.contains("--as <label>"), "got: {s}");
    assert!(
        s.contains("<repo>-worker-<feature>") && s.contains("<repo>-orchestrator"),
        "must name the stable role-label conventions; got: {s}"
    );
    assert!(
        s.contains("rotates") || s.contains("session id"),
        "must warn against pinning a volatile session id; got: {s}"
    );
}

#[test]
fn join_next_anchors_the_poll_to_the_joined_label() {
    let s = join_next(
        "mvp-engine-opus48-2c67",
        "room-20260625-1000",
        3,
        Some("mvp-engine-orchestrator"),
    );
    assert!(s.contains("Joined as mvp-engine-opus48-2c67"), "got: {s}");
    assert!(
        s.contains("--as mvp-engine-orchestrator"),
        "the join next must hand back the anchored poll command; got: {s}"
    );
    // A regression back to "omit `--as`" is exactly what recreates the nag.
    assert!(
        !s.contains("omit `--as`"),
        "join must no longer tell the agent to omit --as; got: {s}"
    );
}

#[test]
fn join_next_without_a_label_emits_corrective_guidance() {
    let s = join_next("mvp-engine-opus48-2c67", "room-20260625-1000", 0, None);
    assert!(
        s.contains("--as <label>") && s.contains("<repo>-orchestrator"),
        "got: {s}"
    );
    assert!(!s.contains("omit `--as`"), "got: {s}");
}

#[test]
fn send_next_anchors_the_poll_to_the_label() {
    let s = send_next("room-20260625-1000", Some("mvp-engine-orchestrator"));
    assert!(
        s.contains("cbc poll room-20260625-1000 --model <m> --as mvp-engine-orchestrator"),
        "the send next must hand back the anchored poll command; got: {s}"
    );
}

#[test]
fn wait_next_on_a_message_demands_re_grounding() {
        let msg = WaitResponse::Message {
        message: MessageView {
            seq: 1,
            from: "a".into(),
            to: None,
            body: "hi".into(),
            created_at: "2026-06-07T00:00:00Z".into(),
            msg_type: "msg".into(),
            severity: None,
            question_text: None,
        },
        surface_to_user: false,
        retry_after: None,
        room_state: None,
    };
    let next = wait_next(&msg);
    assert!(
        next.contains("cbc_recap") && next.contains("git/gh"),
        "a delivered message must steer the agent to re-ground before replying; got: {next}"
    );
}

#[test]
fn wait_next_carves_the_three_status_buckets() {
    // Re-poll bucket, with the backoff prefix when retry_after is present.
    let busy = wait_next(&WaitResponse::Timeout {
        status: "paused_by_timeout".into(),
        retry_after: Some(45),
    });
    assert!(
        busy.contains("45s") && busy.contains("cbc_wait again"),
        "got: {busy}"
    );

    // Keep-waiting-not-a-hand-back bucket. The guidance deliberately NO LONGER
    // tells the agent to end its turn here — that "surface and yield" model was
    // the hand-back bug; the background poll waits through the join instead.
    let alone = wait_next(&WaitResponse::Timeout {
        status: "awaiting_counterpart".into(),
        retry_after: None,
    });
    assert!(
        alone.contains("not joined")
            && alone.contains("NOT a stop")
            && alone.contains("Keep waiting"),
        "awaiting_counterpart must say keep-waiting, not hand back; got: {alone}"
    );

    // A quiet counterpart is also held, not stopped.
    let stale = wait_next(&WaitResponse::Timeout {
        status: "counterpart_stale".into(),
        retry_after: None,
    });
    assert!(
        stale.contains("NOT a stop") && stale.contains("slower cadence"),
        "counterpart_stale must say hold-the-line, not stop; got: {stale}"
    );

    // Terminal bucket.
    let closed = wait_next(&WaitResponse::Timeout {
        status: "closed".into(),
        retry_after: None,
    });
    assert!(closed.contains("Stop polling"), "got: {closed}");
}
