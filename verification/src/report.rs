//! What `cbc poll` prints for each way it ends, human-readable or as one
//! JSON object (keys in sorted order, as `serde_json` writes a map), and the
//! one-time heads-up it prints while holding through a quiet counterpart.
use vstd::prelude::*;
use crate::json::{json_quoted, json_string_literal};
use crate::num::{decimal, push_decimal};
use crate::protocol::MessageView;
use crate::render::opt_view;
use crate::text::str_eq;
use crate::wait_status::{WaitStatus, wire_guidance};

verus! {

/// The re-ground discipline a waking agent must follow before it replies.
pub const POLL_REGROUND_NEXT: &'static str = "next: re-ground before you reply — call cbc_recap to re-read the whole room, and re-verify any status claims against git/gh. Do not recap from memory.";

/// The `next` of an empty-poll give-up.
pub const GIVEUP_NEXT: &'static str = "Gave up after the poll bound with no message; the conversation is still alive — relaunch cbc poll to keep waiting.";

/// What to do when no counterpart joined within the join window.
pub const JOIN_GIVEUP_GUIDANCE: &'static str = "Still waiting — no counterpart has joined in about an hour, but the room is still OPEN, not dead. Re-surface the room id to your user and confirm they pasted it to the other agent, then relaunch cbc poll to keep holding. A give-up here means \"relaunch me,\" never \"abandon the room.\"";

/// What to do when a quiet counterpart stayed silent through the hold.
pub const STALE_GIVEUP_GUIDANCE: &'static str = "Still waiting — nothing happened in about an hour. The room is still OPEN, not dead: a quiet counterpart is usually an idle session that resumes. Give your user a one-line heads-up and relaunch cbc poll to keep holding (or move on if you must). A give-up here means \"relaunch me,\" never \"abandon the room.\"";

/// A status that ends the poll (terminal or decision-needed), with its
/// canonical guidance.
pub open spec fn spec_status_report(status: Seq<char>, json: bool) -> Seq<char> {
    if json {
        "{\"event\":\"status\",\"next\":"@ + json_quoted(wire_guidance(status)) + ",\"status\":"@
            + json_quoted(status) + "}\n"@
    } else {
        status + "\n"@ + wire_guidance(status) + "\n"@
    }
}

/// The report of a status that ends the poll (see `spec_status_report`).
pub fn status_report(status: &str, json: bool) -> (r: String)
    ensures
        r@ == spec_status_report(status@, json),
{
    let g = WaitStatus::from_wire(status).guidance();
    if json {
        let mut s = String::from_str("{\"event\":\"status\",\"next\":");
        let q = json_string_literal(g.as_str());
        s.append(q.as_str());
        s.append(",\"status\":");
        let st = json_string_literal(status);
        s.append(st.as_str());
        s.append("}\n");
        s
    } else {
        let mut s = String::from_str(status);
        s.append("\n");
        s.append(g.as_str());
        s.append("\n");
        s
    }
}

/// A bounded poll spent its budget of empty polls.
pub open spec fn spec_giveup_report(polls: u32, json: bool) -> Seq<char> {
    if json {
        "{\"event\":\"gave_up\",\"next\":"@ + json_quoted(GIVEUP_NEXT@) + ",\"polls\":"@ + decimal(
            polls as nat,
        ) + "}\n"@
    } else {
        "Gave up after "@ + decimal(polls as nat)
            + " empty poll(s) with no message. The conversation is still alive — relaunch cbc poll to keep waiting.\n"@
    }
}

/// The report of an empty-poll give-up (see `spec_giveup_report`).
pub fn giveup_report(polls: u32, json: bool) -> (r: String)
    ensures
        r@ == spec_giveup_report(polls, json),
{
    if json {
        let mut s = String::from_str("{\"event\":\"gave_up\",\"next\":");
        let q = json_string_literal(GIVEUP_NEXT);
        s.append(q.as_str());
        s.append(",\"polls\":");
        push_decimal(&mut s, polls as u64);
        s.append("}\n");
        s
    } else {
        let mut s = String::from_str("Gave up after ");
        push_decimal(&mut s, polls as u64);
        s.append(
            " empty poll(s) with no message. The conversation is still alive — relaunch cbc poll to keep waiting.\n",
        );
        s
    }
}

/// No counterpart joined within the join window; the room is still open.
pub open spec fn spec_join_giveup_report(waited_secs: u64, json: bool) -> Seq<char> {
    if json {
        "{\"event\":\"awaiting_counterpart_still_waiting\",\"next\":"@ + json_quoted(
            JOIN_GIVEUP_GUIDANCE@,
        ) + ",\"waited_secs\":"@ + decimal(waited_secs as nat) + "}\n"@
    } else {
        "Still no counterpart after about an hour ("@ + decimal(waited_secs as nat)
            + "s) — the room is still open.\n"@ + JOIN_GIVEUP_GUIDANCE@ + "\n"@
    }
}

/// The report of a join give-up (see `spec_join_giveup_report`).
pub fn join_giveup_report(waited_secs: u64, json: bool) -> (r: String)
    ensures
        r@ == spec_join_giveup_report(waited_secs, json),
{
    if json {
        let mut s = String::from_str("{\"event\":\"awaiting_counterpart_still_waiting\",\"next\":");
        let q = json_string_literal(JOIN_GIVEUP_GUIDANCE);
        s.append(q.as_str());
        s.append(",\"waited_secs\":");
        push_decimal(&mut s, waited_secs);
        s.append("}\n");
        s
    } else {
        let mut s = String::from_str("Still no counterpart after about an hour (");
        push_decimal(&mut s, waited_secs);
        s.append("s) — the room is still open.\n");
        s.append(JOIN_GIVEUP_GUIDANCE);
        s.append("\n");
        s
    }
}

/// A quiet counterpart stayed silent through the hold; the room is still open.
pub open spec fn spec_stale_giveup_report(waited_secs: u64, json: bool) -> Seq<char> {
    if json {
        "{\"event\":\"counterpart_quiet_still_waiting\",\"next\":"@ + json_quoted(
            STALE_GIVEUP_GUIDANCE@,
        ) + ",\"waited_secs\":"@ + decimal(waited_secs as nat) + "}\n"@
    } else {
        "Still waiting after holding "@ + decimal(waited_secs as nat)
            + "s — nothing happened in about an hour.\n"@ + STALE_GIVEUP_GUIDANCE@ + "\n"@
    }
}

/// The report of a stale-hold give-up (see `spec_stale_giveup_report`).
pub fn stale_giveup_report(waited_secs: u64, json: bool) -> (r: String)
    ensures
        r@ == spec_stale_giveup_report(waited_secs, json),
{
    if json {
        let mut s = String::from_str("{\"event\":\"counterpart_quiet_still_waiting\",\"next\":");
        let q = json_string_literal(STALE_GIVEUP_GUIDANCE);
        s.append(q.as_str());
        s.append(",\"waited_secs\":");
        push_decimal(&mut s, waited_secs);
        s.append("}\n");
        s
    } else {
        let mut s = String::from_str("Still waiting after holding ");
        push_decimal(&mut s, waited_secs);
        s.append("s — nothing happened in about an hour.\n");
        s.append(STALE_GIVEUP_GUIDANCE);
        s.append("\n");
        s
    }
}

/// The one-time notice that the poll is holding through a quiet
/// counterpart; a zero hold window holds indefinitely.
pub open spec fn spec_stale_heads_up(hold_secs: u64) -> Seq<char> {
    if hold_secs == 0 {
        "[counterpart quiet] The other agent has gone silent (>15 min). Holding the line at a slower cadence — not a stop. No action needed; the poll keeps waiting.\n"@
    } else {
        "[counterpart quiet] The other agent has gone silent (>15 min). Holding the line at a slower cadence for up to ~"@
            + decimal(hold_secs as nat)
            + "s before surfacing — not a stop. No action needed; the poll keeps waiting.\n"@
    }
}

/// The quiet heads-up (see `spec_stale_heads_up`).
pub fn stale_heads_up(hold_secs: u64) -> (r: String)
    ensures
        r@ == spec_stale_heads_up(hold_secs),
{
    if hold_secs == 0 {
        String::from_str(
            "[counterpart quiet] The other agent has gone silent (>15 min). Holding the line at a slower cadence — not a stop. No action needed; the poll keeps waiting.\n",
        )
    } else {
        let mut s = String::from_str(
            "[counterpart quiet] The other agent has gone silent (>15 min). Holding the line at a slower cadence for up to ~",
        );
        push_decimal(&mut s, hold_secs);
        s.append("s before surfacing — not a stop. No action needed; the poll keeps waiting.\n");
        s
    }
}

/// The backoff hint for an engaged counterpart, when the server sent one.
pub open spec fn spec_backoff_line(retry_after: Option<u32>) -> Seq<char> {
    match retry_after {
        Some(secs) => "[backoff] Counterpart is engaged (paused or composing); wait ~"@ + decimal(
            secs as nat,
        ) + "s before re-polling.\n"@,
        None => Seq::empty(),
    }
}

/// The note for a message drained from a terminal room.
pub open spec fn note_text(room_state: Option<Seq<char>>) -> Seq<char> {
    match room_state {
        Some(rs) => "[room "@ + rs + "] delivered from a "@ + rs
            + " room — read it; you cannot just reply. Keep waiting/polling to drain any remaining backlog until you get status "@
            + rs + ".\n"@,
        None => Seq::empty(),
    }
}

/// The from/to header; a message without a recipient went to `all`.
pub open spec fn header_text(m: MessageView) -> Seq<char> {
    "From: "@ + m.from@ + "\n"@ + "To:   "@ + match opt_view(m.to) {
        Some(t) => t,
        None => "all"@,
    } + "\n"@
}

/// A sentinel's lines: its signal type and severity, the question it asks
/// its user, and an `extend` notice's body.
pub open spec fn sentinel_text(m: MessageView) -> Seq<char> {
    let signal = match opt_view(m.severity) {
        Some(sev) => "Signal: "@ + m.msg_type@ + " ("@ + sev + ")\n"@,
        None => "Signal: "@ + m.msg_type@ + "\n"@,
    };
    let question = match opt_view(m.question_text) {
        Some(q) => "Asking its user: "@ + q + "\n"@,
        None => Seq::<char>::empty(),
    };
    let extend = if m.msg_type@ == "extend"@ && m.body@.len() > 0 {
        m.body@ + "\n"@
    } else {
        Seq::<char>::empty()
    };
    signal + question + extend
}

/// The soft-cap prompt.
pub open spec fn soft_cap_text(surface_to_user: bool) -> Seq<char> {
    if surface_to_user {
        "\n[soft cap] Consecutive autonomous turns hit the soft cap. Consult your user and send the next turn with --human.\n"@
    } else {
        Seq::empty()
    }
}

/// A delivered message as a human reads it: a note when it was drained from
/// a terminal room, the from/to header, the body (or a sentinel's lines), and
/// the soft-cap prompt when the cap is reached.
pub open spec fn spec_message_human(m: MessageView, surface_to_user: bool, room_state: Option<Seq<char>>) -> Seq<char> {
    note_text(room_state) + header_text(m) + (if m.msg_type@ != "msg"@ {
        sentinel_text(m)
    } else {
        "Body: "@ + m.body@ + "\n"@
    }) + soft_cap_text(surface_to_user)
}

/// A delivered message as `cbc poll` prints it for a human: the message, the
/// backoff hint, then the re-ground instruction.
pub open spec fn spec_poll_message_human(
    m: MessageView,
    surface_to_user: bool,
    retry_after: Option<u32>,
    room_state: Option<Seq<char>>,
) -> Seq<char> {
    spec_message_human(m, surface_to_user, room_state) + spec_backoff_line(retry_after)
        + POLL_REGROUND_NEXT@ + "\n"@
}

fn push_note(s: &mut String, room_state: Option<&str>)
    ensures
        final(s)@ == old(s)@ + note_text(crate::reconcile::opt_str_view(room_state)),
{
    match room_state {
        Some(rs) => {
            s.append("[room ");
            s.append(rs);
            s.append("] delivered from a ");
            s.append(rs);
            s.append(
                " room — read it; you cannot just reply. Keep waiting/polling to drain any remaining backlog until you get status ",
            );
            s.append(rs);
            s.append(".\n");
        },
        None => {
            assert(s@ =~= s@ + Seq::<char>::empty());
        },
    }
}

fn push_header(s: &mut String, m: &MessageView)
    ensures
        final(s)@ == old(s)@ + header_text(*m),
{
    s.append("From: ");
    s.append(m.from.as_str());
    s.append("\n");
    s.append("To:   ");
    match &m.to {
        Some(t) => s.append(t.as_str()),
        None => s.append("all"),
    }
    s.append("\n");
}

fn push_sentinel(s: &mut String, m: &MessageView)
    ensures
        final(s)@ == old(s)@ + sentinel_text(*m),
{
    let ghost s0 = s@;
    s.append("Signal: ");
    s.append(m.msg_type.as_str());
    match &m.severity {
        Some(sev) => {
            s.append(" (");
            s.append(sev.as_str());
            s.append(")\n");
        },
        None => s.append("\n"),
    }
    let ghost s1 = s@;
    match &m.question_text {
        Some(q) => {
            s.append("Asking its user: ");
            s.append(q.as_str());
            s.append("\n");
        },
        None => {},
    }
    let ghost s2 = s@;
    if str_eq(m.msg_type.as_str(), "extend") && m.body.unicode_len() > 0 {
        s.append(m.body.as_str());
        s.append("\n");
    }
    proof {
        let signal = match opt_view(m.severity) {
            Some(sev) => "Signal: "@ + m.msg_type@ + " ("@ + sev + ")\n"@,
            None => "Signal: "@ + m.msg_type@ + "\n"@,
        };
        let question = match opt_view(m.question_text) {
            Some(q) => "Asking its user: "@ + q + "\n"@,
            None => Seq::<char>::empty(),
        };
        let extend = if m.msg_type@ == "extend"@ && m.body@.len() > 0 {
            m.body@ + "\n"@
        } else {
            Seq::<char>::empty()
        };
        assert(s1 =~= s0 + signal);
        assert(s2 =~= s1 + question);
        assert(s@ =~= s2 + extend);
        assert(s@ =~= s0 + signal + question + extend);
    }
}

/// A delivered message as a human reads it (see `spec_message_human`).
pub fn message_human(m: &MessageView, surface_to_user: bool, room_state: Option<&str>) -> (r: String)
    ensures
        r@ == spec_message_human(*m, surface_to_user, crate::reconcile::opt_str_view(room_state)),
{
    let mut s = String::new();
    push_note(&mut s, room_state);
    let ghost a = s@;
    push_header(&mut s, m);
    let ghost b = s@;
    if !str_eq(m.msg_type.as_str(), "msg") {
        push_sentinel(&mut s, m);
    } else {
        s.append("Body: ");
        s.append(m.body.as_str());
        s.append("\n");
    }
    let ghost c = s@;
    if surface_to_user {
        s.append(
            "\n[soft cap] Consecutive autonomous turns hit the soft cap. Consult your user and send the next turn with --human.\n",
        );
    }
    proof {
        assert(s@ =~= a + header_text(*m) + (c.subrange(b.len() as int, c.len() as int)) + soft_cap_text(surface_to_user));
    }
    s
}

/// The human-readable report of a delivered message (see
/// `spec_poll_message_human`).
pub fn poll_message_human(
    m: &MessageView,
    surface_to_user: bool,
    retry_after: Option<u32>,
    room_state: Option<&str>,
) -> (r: String)
    ensures
        r@ == spec_poll_message_human(
            *m,
            surface_to_user,
            retry_after,
            crate::reconcile::opt_str_view(room_state),
        ),
{
    let mut s = message_human(m, surface_to_user, room_state);
    let ghost a = s@;
    match retry_after {
        Some(secs) => {
            s.append("[backoff] Counterpart is engaged (paused or composing); wait ~");
            push_decimal(&mut s, secs as u64);
            s.append("s before re-polling.\n");
        },
        None => {},
    }
    assert(s@ =~= a + spec_backoff_line(retry_after));
    s.append(POLL_REGROUND_NEXT);
    s.append("\n");
    s
}

} // verus!
