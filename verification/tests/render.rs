use cbc::protocol::{MessageView, ParticipantView, RoomTranscript};
use cbc::render::{participant_label, render_message_markdown, render_transcript_markdown};

fn msg(seq: u64, msg_type: &str) -> MessageView {
    MessageView {
        seq,
        from: "alice".to_string(),
        to: None,
        body: "hello".to_string(),
        created_at: "2026-06-10T00:00:00Z".to_string(),
        msg_type: msg_type.to_string(),
        severity: None,
        question_text: None,
    }
}

#[test]
fn participant_label_shows_nickname_and_handle() {
    assert_eq!(participant_label(&Some("Ace".to_string()), "h-1"), "Ace [h-1]");
    assert_eq!(participant_label(&None, "h-1"), "h-1");
}

#[test]
fn message_markdown_renders_body_and_broadcast_target() {
    assert_eq!(render_message_markdown(&msg(7, "msg")), "- [7] **alice** → all: hello\n");
}

#[test]
fn sentinel_markdown_renders_signal_severity_and_question() {
    let mut m = msg(12, "waiting_user");
    m.to = Some("bob".to_string());
    m.severity = Some("high".to_string());
    m.question_text = Some("ship it?".to_string());
    assert_eq!(
        render_message_markdown(&m),
        "- [12] **alice** → bob _signal: waiting_user (high)_ — asks its user: ship it?\n"
    );
}

#[test]
fn transcript_markdown_is_exact() {
    let t = RoomTranscript {
        id: "room-20260625-1000".to_string(),
        subject: "Subject".to_string(),
        state: "active".to_string(),
        started_at: "s".to_string(),
        last_activity_at: "l".to_string(),
        hard_cap: 20,
        hard_cap_count: 3,
        soft_cap: 4,
        soft_cap_consecutive: 0,
        participants: vec![ParticipantView {
            handle: "h".to_string(),
            nickname: None,
            model: "opus".to_string(),
            cwd: "/x".to_string(),
        }],
        messages: vec![msg(1, "msg")],
    };
    assert_eq!(
        render_transcript_markdown(&t),
        "# Subject\n\n- Room: room-20260625-1000\n- State: active\n- Started: s\n- Last activity: l\n\
         - Caps: hard 3/20, soft 0/4\n\n## Participants\n- h (opus @ /x)\n\n## Messages\n\
         - [1] **alice** → all: hello\n"
    );
}

#[test]
fn empty_transcript_sections_say_none() {
    let t = RoomTranscript {
        id: "r".to_string(),
        subject: "S".to_string(),
        state: "closed".to_string(),
        started_at: "a".to_string(),
        last_activity_at: "b".to_string(),
        hard_cap: 0,
        hard_cap_count: 0,
        soft_cap: 0,
        soft_cap_consecutive: 0,
        participants: vec![],
        messages: vec![],
    };
    let md = render_transcript_markdown(&t);
    assert!(md.ends_with("\n## Participants\n- (none)\n\n## Messages\n- (none)\n"));
}
