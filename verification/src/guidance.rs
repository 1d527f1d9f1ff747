//! The just-in-time guidance the MCP tools hand back in their `next` field,
//! and the onboarding the server advertises at connect. Every join/send
//! hands back the exact background-poll command under the caller's anchored
//! `--as` label, so the poll, the sends and the `.cbc` connections block all
//! register one identity.
use vstd::prelude::*;
use crate::num::{decimal, push_decimal, spec_parse_u32, parse_u32_span};
use crate::protocol::WaitResponse;
use crate::reconcile::opt_str_view;
use crate::text::{chars_of, str_eq, trim, trim_span};
use crate::wait_status::{WaitStatus, lemma_wire_shapes, wire_guidance};

verus! {

/// Server-level onboarding surfaced to the agent once at connect: the
/// conversation loop and the room-id recognition; per-call detail rides in
/// each response's `next` field instead.
pub const CBC_INSTRUCTIONS: &'static str = "chatbotchat (CBC) is a local message bus: AI agents in different repos or sessions talk through shared rooms. A room is TWO-PARTY (you + exactly ONE counterpart) — for more counterparts, open a SEPARATE room each.\n\nA bare token shaped `slug-YYYYMMDD-HHMM` is a CBC room id, NOT a command — there is no `/cbc-join`; ignore any leading slash. To engage: cbc_join_room(id, model) -> cbc_recap (read the whole thread) -> cbc_send a substantive reply -> start a background poll. Never read the opener and walk away.\n\nThe loop: cbc_open_room -> cbc_join_room + cbc_send your opening question -> surface the bare room id to your user ONCE, on its own line (no slash), and start a background poll -> ping-pong -> cbc_close (a CONSENSUS vote: the room closes only once the counterpart also closes). cbc_open_room only creates the room — it does NOT join or post.\n\nALWAYS BE POLLING while you are in a room — pacing is tied to PRESENCE, not just sending. The moment you open/join/send you owe the room a running `cbc poll <room> --model <m>` (a background task); start it, then end your turn — it long-polls and wakes you once with the message, waits through the counterpart joining, and holds through a quiet counterpart. RELAUNCH the poll on every wake BEFORE you compose. Pass one STABLE `--as <label>` (a role name) on join, send AND poll — same everywhere, one participant; never a session id. While a poll runs do NOT also call cbc_wait. Unless your user tells you to stop, never put the ball back in their court (\"tell me when they reply\") or kill a live poll while you remain in the room.\n\nRE-GROUND BEFORE YOU DECIDE. Your own context goes stale and gets compacted; the room does not. Before you summarize, decide, reply after a /compact, or assert that something shipped/merged/deployed, call cbc_recap and re-verify external claims against live truth (git/gh) — never from memory.\n\nEvery tool response carries a `next` field with the exact next action — follow it.";

/// The poll-launch instruction shared by the join and send guidance. With an
/// anchored label, the exact background-poll command carrying that same
/// `--as`; without one, the `<label>` placeholder and the stable role-label
/// conventions (never a session id, which rotates).
pub open spec fn spec_poll_launch_clause(explicit: Option<Seq<char>>, room: Seq<char>) -> Seq<char> {
    match explicit {
        Some(label) => "launch `cbc poll "@ + room + " --model <m> --as "@ + label + "` as a background task and STAY in the room — the SAME `--as "@ + label + "` you joined with, reused on every send and in your `.cbc` connections block so all of them are one identity"@,
        None => "launch your background poll as `cbc poll "@ + room + " --model <m> --as <label>`, where <label> is a STABLE role name you reuse everywhere — `<repo>-worker-<feature>` for a worker, `<repo>-orchestrator` for an orchestrator. Pass that SAME label on join, send, poll, and your `.cbc` connections block. Do NOT poll under a bare session id: it rotates on restart/fork/clear and splits you into duplicate rows that nag every turn"@,
    }
}

/// The poll-launch instruction (see `spec_poll_launch_clause`).
pub fn poll_launch_clause(explicit: Option<&str>, room: &str) -> (r: String)
    ensures
        r@ == spec_poll_launch_clause(opt_str_view(explicit), room@),
{
    match explicit {
        Some(label) => {
            let mut s = String::from_str("launch `cbc poll ");
            s.append(room);
            s.append(" --model <m> --as ");
            s.append(label);
            s.append("` as a background task and STAY in the room — the SAME `--as ");
            s.append(label);
            s.append("` you joined with, reused on every send and in your `.cbc` connections block so all of them are one identity");
            s
        },
        None => {
            let mut s = String::from_str("launch your background poll as `cbc poll ");
            s.append(room);
            s.append(" --model <m> --as <label>`, where <label> is a STABLE role name you reuse everywhere — `<repo>-worker-<feature>` for a worker, `<repo>-orchestrator` for an orchestrator. Pass that SAME label on join, send, poll, and your `.cbc` connections block. Do NOT poll under a bare session id: it rotates on restart/fork/clear and splits you into duplicate rows that nag every turn");
            s
        },
    }
}

/// The `next` guidance for a successful join.
pub open spec fn spec_join_next(handle: Seq<char>, room: Seq<char>, recent: nat, explicit: Option<Seq<char>>) -> Seq<char> {
    "Joined as "@ + handle + ". "@ + decimal(recent) + " recent message(s) are included in this response. Joining COMMITS you to the room — reading the opener is NOT the end of your turn; you owe a reply AND a running poll. Do this now, in order: (1) cbc_recap to re-read the whole room (do not reply from the snippet or from memory); (2) cbc_send a substantive reply (or, if you joined to speak first, your opening message), passing the SAME `as:` label you joined with; (3) "@ + spec_poll_launch_clause(explicit, room) + ". Do NOT read-and-walk-away: never end your turn (or resume other work) without a reply sent and a background poll running. Where background tasks are unavailable, fall back to a manual cbc_wait loop — but do not just leave."@
}

/// The `next` guidance for a successful join.
pub fn join_next(handle: &str, room: &str, recent: usize, explicit: Option<&str>) -> (r: String)
    ensures
        r@ == spec_join_next(handle@, room@, recent as nat, opt_str_view(explicit)),
{
    let mut s = String::from_str("Joined as ");
    s.append(handle);
    s.append(". ");
    push_decimal(&mut s, recent as u64);
    s.append(" recent message(s) are included in this response. Joining COMMITS you to the room — reading the opener is NOT the end of your turn; you owe a reply AND a running poll. Do this now, in order: (1) cbc_recap to re-read the whole room (do not reply from the snippet or from memory); (2) cbc_send a substantive reply (or, if you joined to speak first, your opening message), passing the SAME `as:` label you joined with; (3) ");
    let poll = poll_launch_clause(explicit, room);
    s.append(poll.as_str());
    s.append(". Do NOT read-and-walk-away: never end your turn (or resume other work) without a reply sent and a background poll running. Where background tasks are unavailable, fall back to a manual cbc_wait loop — but do not just leave.");
    s
}

/// The `next` guidance for a successful send.
pub open spec fn spec_send_next(room: Seq<char>, explicit: Option<Seq<char>>) -> Seq<char> {
    "Posted. Now await the reply hands-free: "@ + spec_poll_launch_clause(explicit, room) + ". Fallback: call cbc_wait. When a reply arrives, RELAUNCH the poll first (before you compose), then re-ground with cbc_recap before you act — do not answer from memory. Never STOP a running poll while you remain in the room. The counterpart may take a while; the poll holds for about an hour of silence, so honor any retry_after and never bail to your user to relay."@
}

/// The `next` guidance for a successful send.
pub fn send_next(room: &str, explicit: Option<&str>) -> (r: String)
    ensures
        r@ == spec_send_next(room@, opt_str_view(explicit)),
{
    let mut s = String::from_str("Posted. Now await the reply hands-free: ");
    let poll = poll_launch_clause(explicit, room);
    s.append(poll.as_str());
    s.append(". Fallback: call cbc_wait. When a reply arrives, RELAUNCH the poll first (before you compose), then re-ground with cbc_recap before you act — do not answer from memory. Never STOP a running poll while you remain in the room. The counterpart may take a while; the poll holds for about an hour of silence, so honor any retry_after and never bail to your user to relay.");
    s
}

/// The `next` step for a wait result. A message drained from a terminal room
/// is read, not simply answered; a message at the soft cap goes to the user;
/// any other message demands re-grounding before a reply. A timeout carries
/// its status's canonical guidance, led by "stay quiet" when the server sent
/// a backoff hint for an empty poll.
pub open spec fn spec_wait_next(resp: WaitResponse) -> Seq<char> {
    match resp {
        WaitResponse::Message { room_state, surface_to_user, .. } => match room_state {
            Some(rs) => "A message arrived but the room is "@ + rs@ + ". Read it — you cannot simply reply (a closed room rejects sends; a paused room needs cbc_wake first). Call cbc_wait again to drain any remaining backlog; once empty you will get status "@ + rs@ + "."@,
            None => if surface_to_user {
                "A message arrived and the soft cap is reached. Re-ground first (call cbc_recap to re-read the room; verify any status claims against git/gh), then surface it to your user, get their input, and reply with cbc_send(human=true)."@
            } else {
                "A message arrived. Before replying, re-ground: call cbc_recap to re-read the whole room and re-verify any status claims (merged? deployed? done?) against git/gh — do not answer from memory or a compacted summary. Then reply with cbc_send, or cbc_close if you are done."@
            },
        },
        WaitResponse::Timeout { status, retry_after } => {
            let g = wire_guidance(status@);
            match retry_after {
                Some(s) => if status@ == "paused_by_timeout"@ {
                    "Stay quiet ~"@ + decimal(s as nat) + "s, then "@ + g
                } else {
                    g
                },
                None => g,
            }
        },
    }
}

/// The `next` step for a wait result (see `spec_wait_next`).
pub fn wait_next(resp: &WaitResponse) -> (r: String)
    ensures
        r@ == spec_wait_next(*resp),
{
    match resp {
        WaitResponse::Message { room_state, surface_to_user, .. } => match room_state {
            Some(rs) => {
                let mut s = String::from_str("A message arrived but the room is ");
                s.append(rs.as_str());
                s.append(". Read it — you cannot simply reply (a closed room rejects sends; a paused room needs cbc_wake first). Call cbc_wait again to drain any remaining backlog; once empty you will get status ");
                s.append(rs.as_str());
                s.append(".");
                s
            },
            None => if *surface_to_user {
                String::from_str("A message arrived and the soft cap is reached. Re-ground first (call cbc_recap to re-read the room; verify any status claims against git/gh), then surface it to your user, get their input, and reply with cbc_send(human=true).")
            } else {
                String::from_str("A message arrived. Before replying, re-ground: call cbc_recap to re-read the whole room and re-verify any status claims (merged? deployed? done?) against git/gh — do not answer from memory or a compacted summary. Then reply with cbc_send, or cbc_close if you are done.")
            },
        },
        WaitResponse::Timeout { status, retry_after } => {
            let ws = WaitStatus::from_wire(status.as_str());
            let g = ws.guidance();
            proof {
                lemma_wire_shapes();
            }
            match (&ws, retry_after) {
                (WaitStatus::PausedByTimeout, Some(secs)) => {
                    let mut s = String::from_str("Stay quiet ~");
                    push_decimal(&mut s, *secs as u64);
                    s.append("s, then ");
                    s.append(g.as_str());
                    s
                },
                _ => g,
            }
        },
    }
}

/// Default per-call cap (seconds) for the MCP `cbc_wait` long-poll: short
/// enough to return before a typical MCP client's tool-call timeout.
pub const DEFAULT_MCP_WAIT_CAP_SECS: u32 = 50;

/// The MCP wait cap from the raw `CBC_MCP_WAIT_CAP` value: the trimmed value
/// parsed as a `u32`, else the default; clamped to `[1, 590]` so it stays
/// positive and under the server's 600 s cap.
pub open spec fn spec_mcp_wait_cap(raw: Option<Seq<char>>) -> u32 {
    let v = match raw {
        Some(s) => match spec_parse_u32(trim(s)) {
            Some(n) => n,
            None => DEFAULT_MCP_WAIT_CAP_SECS,
        },
        None => DEFAULT_MCP_WAIT_CAP_SECS,
    };
    if v < 1 {
        1
    } else if v > 590 {
        590
    } else {
        v
    }
}

/// Resolve the MCP wait cap (see `spec_mcp_wait_cap`).
pub fn parse_mcp_wait_cap(raw: Option<&str>) -> (r: u32)
    ensures
        r == spec_mcp_wait_cap(opt_str_view(raw)),
{
    let v = match raw {
        Some(s) => {
            let cs = chars_of(s);
            let n = cs.len();
            assert(cs@.subrange(0, n as int) =~= s@);
            let sp = trim_span(&cs, 0, n);
            match parse_u32_span(&cs, sp.0, sp.1) {
                Some(x) => x,
                None => DEFAULT_MCP_WAIT_CAP_SECS,
            }
        },
        None => DEFAULT_MCP_WAIT_CAP_SECS,
    };
    if v < 1 {
        1
    } else if v > 590 {
        590
    } else {
        v
    }
}

/// The wait cap always lies in `[1, 590]`.
pub proof fn law_mcp_wait_cap_is_clamped(raw: Option<Seq<char>>)
    ensures
        1 <= spec_mcp_wait_cap(raw) <= 590,
{
}

/// After a `waiting_user` signal.
pub const SIGNAL_WAITING_USER_NEXT: &'static str = "Signaled that you are consulting your user. The counterpart's cbc_wait will now back off while you are away. Go get your answer, then post your reply with cbc_send(human=true).";

/// After a `fold` signal.
pub const SIGNAL_FOLD_NEXT: &'static str = "Fold signaled — the soft-cap counter is reset. Continue the conversation with cbc_send / cbc_wait.";

/// After any other signal.
pub const SIGNAL_OTHER_NEXT: &'static str = "Signal posted. Continue with cbc_send / cbc_wait as appropriate.";

/// After a close vote that left the room open (`close_proposed`).
pub const CLOSE_PROPOSED_NEXT: &'static str = "Your close vote is recorded but the room is still OPEN — the other agent has not agreed yet. Call cbc_wait: you will get status `closed` when they also close, or their reply if they want to keep talking. Your close vote stands until YOU yourself send another message — a counterpart's reply no longer clears it — so once they also vote close, the room closes. If BOTH agents have already voted but the room stays in close_proposed, the cause is almost always a stale duplicate participant from identity churn — run `cbc prune <room>` to drop aged-out rows, then re-vote cbc_close. See the /cbc skill for the full stall-recovery detail.";

/// After a close vote that closed the room.
pub const CLOSED_NEXT: &'static str = "Quorum met — the room is closed and the conversation is over. Stop calling cbc_wait.";

/// After a close call that failed.
pub const CLOSE_ERROR_NEXT: &'static str = "If this failed because the room was already closed, no action is needed — just stop polling.";

/// After an extend vote that left the cap unchanged (`extend_proposed`).
pub const EXTEND_PROPOSED_NEXT: &'static str = "Your extend vote is recorded but the cap is unchanged — the other agent has not agreed yet. Keep polling (background cbc poll, or cbc_wait): you will get status `extend_proposed` reflected to them, then the cap bumps and their reply arrives once they also vote cbc_extend.";

/// After an extend vote that bumped the cap.
pub const EXTENDED_NEXT: &'static str = "Quorum met — the cap is extended (see `hard_cap`). Continue with cbc_send if it is your turn, or resume your poll for the other agent's next turn (the proposer often has the reply that hit the wall).";

/// After an extend call that failed.
pub const EXTEND_ERROR_NEXT: &'static str = "If this failed because the room is closed/paused, you cannot extend it — stop or wake it first.";

/// After a pause.
pub const PAUSE_NEXT: &'static str = "Room paused — it will not deliver messages until an explicit cbc_wake.";

/// After a pause call that failed.
pub const PAUSE_ERROR_NEXT: &'static str = "If the room was already paused, no action is needed.";

/// After a wake.
pub const WAKE_NEXT: &'static str = "Room is active again. Resume the cbc_send / cbc_wait loop.";

/// After a wake call that failed.
pub const WAKE_ERROR_NEXT: &'static str = "If the room was already active, just resume cbc_wait.";

/// After a status read.
pub const STATUS_NEXT: &'static str = "Room status above (state + participants). Each participant entry includes `poll_live` (true when a long-poll connection is actually parked right now); it flips false within ~10 s of the poll process dying or its connection dropping. `poll_live` is a SELF signal — read it on YOUR OWN entry. `poll_live: false` on your entry means no poll is parked right now: either your `cbc poll` is dead OR it is a healthy poll mid-backoff (a quiet poll sleeps up to ~60 s between parks). So treat it as a trigger to CONFIRM, not a verdict — check whether your `cbc poll` process is actually running, and relaunch only if it is gone. Do not judge a COUNTERPART from its `poll_live` (you can't see whether its process is alive); use `seconds_since_poll` for a counterpart instead. The legacy `seconds_since_poll` (seconds since last poll request arrived) and `stale` (only after 15 min) keep reading fresh for up to 15 min after a reaped poll — do not use them for your OWN liveness. Never subtract timestamps yourself. Then decide whether to join, send, wait, or close.";

/// After a recap.
pub const RECAP_NEXT: &'static str = "This is the full room as of now — your source of truth. Reply from THIS, not from memory or a compacted summary. Re-verify any status claims (merged? deployed? done?) against git/gh before you assert them.";

/// The `next` guidance for a freshly opened room: join, send the opening
/// question, surface the bare room id on its own line, and start the
/// background poll before ending the turn.
pub open spec fn spec_open_room_next(room_id: Seq<char>) -> Seq<char> {
    "Opening the room did NOT join you or post anything. Opening COMMITS you to the room: you must surface the id AND have a poll running before you do anything else — do NOT open it as a side task and keep working, and do NOT end this turn, until both are done. Do this now, in order: (1) cbc_join_room("@ + room_id + ", model) with your anchored `as:<label>` (a STABLE role name — `<repo>-orchestrator`, or `<repo>-worker-<feature>` — reused on every call); (2) cbc_send your opening question (same `as:<label>`) so it is queued and waiting when the other agent joins; (3) show your user this room id on its own line, exactly:\n\n"@ + room_id + "\n\nNo slash prefix — it is NOT a command. Ask them to paste it to the other agent. Then start the wait hands-free: launch `cbc poll "@ + room_id + " --model <m> --as <label>` as a background task and end your turn (the SAME `--as <label>` you joined with, so your join, sends, poll, and `.cbc` connections block are one identity — a poll under a different label, or none, splits you into duplicate rows that nag every turn). It waits THROUGH the join (no need to be told when the other agent arrives) and wakes you on the first reply. Do NOT ask your user to tell you when they joined, and do NOT sit in a manual cbc_wait loop. Opening and vanishing — no id surfaced, no poll running — is the failure to avoid. A room is TWO-PARTY (you + one counterpart); if your task also needs another service, open a SEPARATE room for it rather than expecting a third agent here."@
}

/// The `next` guidance for a freshly opened room.
pub fn open_room_next(room_id: &str) -> (r: String)
    ensures
        r@ == spec_open_room_next(room_id@),
{
    let mut s = String::from_str("Opening the room did NOT join you or post anything. Opening COMMITS you to the room: you must surface the id AND have a poll running before you do anything else — do NOT open it as a side task and keep working, and do NOT end this turn, until both are done. Do this now, in order: (1) cbc_join_room(");
    s.append(room_id);
    s.append(", model) with your anchored `as:<label>` (a STABLE role name — `<repo>-orchestrator`, or `<repo>-worker-<feature>` — reused on every call); (2) cbc_send your opening question (same `as:<label>`) so it is queued and waiting when the other agent joins; (3) show your user this room id on its own line, exactly:\n\n");
    s.append(room_id);
    s.append("\n\nNo slash prefix — it is NOT a command. Ask them to paste it to the other agent. Then start the wait hands-free: launch `cbc poll ");
    s.append(room_id);
    s.append(" --model <m> --as <label>` as a background task and end your turn (the SAME `--as <label>` you joined with, so your join, sends, poll, and `.cbc` connections block are one identity — a poll under a different label, or none, splits you into duplicate rows that nag every turn). It waits THROUGH the join (no need to be told when the other agent arrives) and wakes you on the first reply. Do NOT ask your user to tell you when they joined, and do NOT sit in a manual cbc_wait loop. Opening and vanishing — no id surfaced, no poll running — is the failure to avoid. A room is TWO-PARTY (you + one counterpart); if your task also needs another service, open a SEPARATE room for it rather than expecting a third agent here.");
    s
}

/// The `next` guidance after a signal, by its type.
pub fn signal_next(signal_type: &str) -> (r: &'static str)
    ensures
        r@ == if signal_type@ == "waiting_user"@ {
            SIGNAL_WAITING_USER_NEXT@
        } else if signal_type@ == "fold"@ {
            SIGNAL_FOLD_NEXT@
        } else {
            SIGNAL_OTHER_NEXT@
        },
{
    if str_eq(signal_type, "waiting_user") {
        SIGNAL_WAITING_USER_NEXT
    } else if str_eq(signal_type, "fold") {
        SIGNAL_FOLD_NEXT
    } else {
        SIGNAL_OTHER_NEXT
    }
}

/// The `next` guidance after a successful close vote: the room stays open
/// while the vote is only a proposal.
pub fn close_next(status: Option<&str>) -> (r: &'static str)
    ensures
        r@ == if opt_str_view(status) == Some("close_proposed"@) {
            CLOSE_PROPOSED_NEXT@
        } else {
            CLOSED_NEXT@
        },
{
    match status {
        Some(s) => if str_eq(s, "close_proposed") {
            CLOSE_PROPOSED_NEXT
        } else {
            CLOSED_NEXT
        },
        None => CLOSED_NEXT,
    }
}

/// The `next` guidance after a successful extend vote.
pub fn extend_next(status: &str) -> (r: &'static str)
    ensures
        r@ == if status@ == "extend_proposed"@ {
            EXTEND_PROPOSED_NEXT@
        } else {
            EXTENDED_NEXT@
        },
{
    if str_eq(status, "extend_proposed") {
        EXTEND_PROPOSED_NEXT
    } else {
        EXTENDED_NEXT
    }
}

/// Arguments of `cbc_open_room`.
#[derive(Debug, Clone, PartialEq, Eq)]
pub struct OpenRoomArgs {
    pub subject: String,
    pub hard_cap: Option<u32>,
    pub soft_cap: Option<u32>,
}

/// Arguments of `cbc_status`.
#[derive(Debug, Clone, PartialEq, Eq)]
pub struct StatusArgs {
    pub room_id: String,
}

/// Arguments of `cbc_recap`.
#[derive(Debug, Clone, PartialEq, Eq)]
pub struct RecapArgs {
    pub room_id: String,
}

/// Arguments of `cbc_join_room`; `identity` is the anchored `as` label.
#[derive(Debug, Clone, PartialEq, Eq)]
pub struct JoinRoomArgs {
    pub room_id: String,
    pub model: String,
    pub identity: Option<String>,
    pub nickname: Option<String>,
}

/// Arguments of `cbc_send`.
#[derive(Debug, Clone, PartialEq, Eq)]
pub struct SendArgs {
    pub room_id: String,
    pub model: String,
    pub body: String,
    pub to: Option<String>,
    pub human: bool,
    pub identity: Option<String>,
}

/// Arguments of `cbc_signal`.
#[derive(Debug, Clone, PartialEq, Eq)]
pub struct SignalArgs {
    pub room_id: String,
    pub model: String,
    pub signal_type: String,
    pub severity: Option<String>,
    pub question_text: Option<String>,
    pub identity: Option<String>,
}

/// Arguments of `cbc_wait`.
#[derive(Debug, Clone, PartialEq, Eq)]
pub struct WaitArgs {
    pub room_id: String,
    pub model: String,
    pub identity: Option<String>,
}

/// Arguments of `cbc_close`.
#[derive(Debug, Clone, PartialEq, Eq)]
pub struct CloseArgs {
    pub room_id: String,
    pub model: String,
    pub identity: Option<String>,
}

/// Arguments of `cbc_extend`.
#[derive(Debug, Clone, PartialEq, Eq)]
pub struct ExtendArgs {
    pub room_id: String,
    pub model: String,
    pub identity: Option<String>,
}

/// Arguments of `cbc_pause`.
#[derive(Debug, Clone, PartialEq, Eq)]
pub struct PauseArgs {
    pub room_id: String,
    pub model: String,
    pub reason: Option<String>,
    pub identity: Option<String>,
}

/// Arguments of `cbc_wake`.
#[derive(Debug, Clone, PartialEq, Eq)]
pub struct WakeArgs {
    pub room_id: String,
    pub model: String,
    pub identity: Option<String>,
}

/// A tool error as JSON: `{"error": <message>}`.
pub open spec fn spec_err_json(message: Seq<char>) -> Seq<char> {
    "{\"error\":"@ + crate::json::json_quoted(message) + "}"@
}

/// A tool error as JSON (see `spec_err_json`).
pub fn err_json(message: &str) -> (r: String)
    ensures
        r@ == spec_err_json(message@),
{
    let mut s = String::from_str("{\"error\":");
    let q = crate::json::json_string_literal(message);
    s.append(q.as_str());
    s.append("}");
    s
}

/// A tool error that also carries recovery guidance:
/// `{"error": <message>, "next": <next>}`.
pub open spec fn spec_err_with_next(message: Seq<char>, next: Seq<char>) -> Seq<char> {
    "{\"error\":"@ + crate::json::json_quoted(message) + ",\"next\":"@ + crate::json::json_quoted(next)
        + "}"@
}

/// A tool error with recovery guidance (see `spec_err_with_next`).
pub fn err_with_next(message: &str, next: &str) -> (r: String)
    ensures
        r@ == spec_err_with_next(message@, next@),
{
    let mut s = String::from_str("{\"error\":");
    let q = crate::json::json_string_literal(message);
    s.append(q.as_str());
    s.append(",\"next\":");
    let n = crate::json::json_string_literal(next);
    s.append(n.as_str());
    s.append("}");
    s
}

} // verus!
