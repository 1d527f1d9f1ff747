//! The closed set of timeout statuses a long-poll can return, and the single
//! canonical guidance text for each. Both wait surfaces (the MCP `cbc_wait`
//! `next` field and the CLI `cbc poll` status output) derive their guidance
//! from `WaitStatus::guidance`, so the instruction for a status lives in one
//! place. An unrecognized status (a differently-versioned server) parses to
//! `Unknown` and degrades to a safe "stop unless you know how to resume".
use vstd::prelude::*;
use crate::text::{is_ws, str_eq, trim, trim_end, trim_start};

verus! {

/// A timeout status, parsed from the wire string.
#[derive(Debug, Clone, PartialEq, Eq)]
pub enum WaitStatus {
    /// Nothing addressed to us yet; the conversation is alive — keep waiting.
    PausedByTimeout,
    /// The counterpart has not joined yet. Not a stop.
    AwaitingCounterpart,
    /// A joined counterpart has gone silent. Not a stop — hold at a slower cadence.
    CounterpartStale,
    /// The counterpart voted to close; our decision is needed.
    CloseProposed,
    /// The counterpart voted to extend the message cap; our decision is needed.
    ExtendProposed,
    /// The room is paused — terminal for polling until an explicit wake.
    Paused,
    /// The room is closed — terminal.
    Closed,
    /// The room is archived — terminal.
    Archived,
    /// A status this build does not recognize, carrying the raw wire string.
    Unknown(String),
}

/// The wire string a status was parsed from.
pub open spec fn wire_of(w: WaitStatus) -> Seq<char> {
    match w {
        WaitStatus::PausedByTimeout => "paused_by_timeout"@,
        WaitStatus::AwaitingCounterpart => "awaiting_counterpart"@,
        WaitStatus::CounterpartStale => "counterpart_stale"@,
        WaitStatus::CloseProposed => "close_proposed"@,
        WaitStatus::ExtendProposed => "extend_proposed"@,
        WaitStatus::Paused => "paused"@,
        WaitStatus::Closed => "closed"@,
        WaitStatus::Archived => "archived"@,
        WaitStatus::Unknown(s) => s@,
    }
}

/// One of the eight statuses this build knows.
pub open spec fn is_known_wire(s: Seq<char>) -> bool {
    s == "paused_by_timeout"@ || s == "awaiting_counterpart"@ || s == "counterpart_stale"@
        || s == "close_proposed"@ || s == "extend_proposed"@ || s == "paused"@ || s
        == "closed"@ || s == "archived"@
}

/// Guidance for `PausedByTimeout`.
pub const GUIDE_PAUSED_BY_TIMEOUT: &'static str = "call cbc_wait again — nothing arrived yet but the conversation is alive. Do not give up.";

/// Guidance for `AwaitingCounterpart`.
pub const GUIDE_AWAITING: &'static str = "The other agent has not joined yet — this is NOT a stop and NOT a hand-back. Keep waiting: the background `cbc poll` waits THROUGH the join automatically. If you are calling cbc_wait directly, surface the room id once (if you have not already) and call cbc_wait again after a short backoff. Do NOT end your turn to wait for your user to confirm the join.";

/// Guidance for `CounterpartStale`.
pub const GUIDE_STALE: &'static str = "The other agent has gone quiet (>15 min with no poll) — this is NOT a stop. A quiet counterpart is usually an idle session that will resume. Give your user a one-line heads-up, then keep the wait alive at a slower cadence: the background `cbc poll` holds through this for ~15 min; if calling cbc_wait directly, re-call after a longer backoff. Surface to abandon only if it stays silent past that window.";

/// Guidance for `CloseProposed`.
pub const GUIDE_CLOSE_PROPOSED: &'static str = "The other agent proposed closing the room. If you also think the conversation is done, call cbc_close to agree — the room then closes. If you have more to say, call cbc_send instead: that cancels the proposal and continues the conversation.";

/// Guidance for `ExtendProposed`.
pub const GUIDE_EXTEND_PROPOSED: &'static str = "The other agent proposed extending the message cap (+10) so you can keep talking. If you also want to continue, call cbc_extend to agree — the cap bumps once you both vote. If you would rather wrap up, call cbc_close, or just keep talking.";

/// Guidance for `Paused`.
pub const GUIDE_PAUSED: &'static str = "The room is paused. Stop polling — it needs an explicit cbc_wake to resume.";

/// Guidance for `Closed`.
pub const GUIDE_CLOSED: &'static str = "The room is closed. Stop polling.";

/// Guidance for `Archived`.
pub const GUIDE_ARCHIVED: &'static str = "The room is archived. Stop polling.";

/// The canonical instruction for a status.
pub open spec fn spec_guidance(w: WaitStatus) -> Seq<char> {
    match w {
        WaitStatus::PausedByTimeout => GUIDE_PAUSED_BY_TIMEOUT@,
        WaitStatus::AwaitingCounterpart => GUIDE_AWAITING@,
        WaitStatus::CounterpartStale => GUIDE_STALE@,
        WaitStatus::CloseProposed => GUIDE_CLOSE_PROPOSED@,
        WaitStatus::ExtendProposed => GUIDE_EXTEND_PROPOSED@,
        WaitStatus::Paused => GUIDE_PAUSED@,
        WaitStatus::Closed => GUIDE_CLOSED@,
        WaitStatus::Archived => GUIDE_ARCHIVED@,
        WaitStatus::Unknown(s) => "Room status: "@ + s@
            + ". Stop polling unless you know how to resume."@,
    }
}

/// The canonical instruction for a wire status string.
pub open spec fn wire_guidance(s: Seq<char>) -> Seq<char> {
    if s == "paused_by_timeout"@ {
        GUIDE_PAUSED_BY_TIMEOUT@
    } else if s == "awaiting_counterpart"@ {
        GUIDE_AWAITING@
    } else if s == "counterpart_stale"@ {
        GUIDE_STALE@
    } else if s == "close_proposed"@ {
        GUIDE_CLOSE_PROPOSED@
    } else if s == "extend_proposed"@ {
        GUIDE_EXTEND_PROPOSED@
    } else if s == "paused"@ {
        GUIDE_PAUSED@
    } else if s == "closed"@ {
        GUIDE_CLOSED@
    } else if s == "archived"@ {
        GUIDE_ARCHIVED@
    } else {
        "Room status: "@ + s + ". Stop polling unless you know how to resume."@
    }
}

impl WaitStatus {
    /// Parse a timeout status string. Never fails: an unrecognized status
    /// becomes `Unknown` carrying the raw string.
    pub fn from_wire(status: &str) -> (r: WaitStatus)
        ensures
            wire_of(r) == status@,
            r is Unknown <==> !is_known_wire(status@),
            spec_guidance(r) == wire_guidance(status@),
    {
        proof {
            lemma_wire_shapes();
        }
        if str_eq(status, "paused_by_timeout") {
            WaitStatus::PausedByTimeout
        } else if str_eq(status, "awaiting_counterpart") {
            WaitStatus::AwaitingCounterpart
        } else if str_eq(status, "counterpart_stale") {
            WaitStatus::CounterpartStale
        } else if str_eq(status, "close_proposed") {
            WaitStatus::CloseProposed
        } else if str_eq(status, "extend_proposed") {
            WaitStatus::ExtendProposed
        } else if str_eq(status, "paused") {
            WaitStatus::Paused
        } else if str_eq(status, "closed") {
            WaitStatus::Closed
        } else if str_eq(status, "archived") {
            WaitStatus::Archived
        } else {
            WaitStatus::Unknown(String::from_str(status))
        }
    }

    /// The single canonical instruction for this status, shared by every wait
    /// surface.
    pub fn guidance(&self) -> (r: String)
        ensures
            r@ == spec_guidance(*self),
    {
        match self {
            WaitStatus::PausedByTimeout => String::from_str(GUIDE_PAUSED_BY_TIMEOUT),
            WaitStatus::AwaitingCounterpart => String::from_str(GUIDE_AWAITING),
            WaitStatus::CounterpartStale => String::from_str(GUIDE_STALE),
            WaitStatus::CloseProposed => String::from_str(GUIDE_CLOSE_PROPOSED),
            WaitStatus::ExtendProposed => String::from_str(GUIDE_EXTEND_PROPOSED),
            WaitStatus::Paused => String::from_str(GUIDE_PAUSED),
            WaitStatus::Closed => String::from_str(GUIDE_CLOSED),
            WaitStatus::Archived => String::from_str(GUIDE_ARCHIVED),
            WaitStatus::Unknown(s) => {
                let mut g = String::from_str("Room status: ");
                g.append(s.as_str());
                g.append(". Stop polling unless you know how to resume.");
                g
            },
        }
    }
}

/// The known wire strings, told apart by length and first character.
pub proof fn lemma_wire_shapes()
    ensures
        "paused_by_timeout"@.len() == 17 && "paused_by_timeout"@[0] == 'p',
        "awaiting_counterpart"@.len() == 20 && "awaiting_counterpart"@[0] == 'a',
        "counterpart_stale"@.len() == 17 && "counterpart_stale"@[0] == 'c',
        "close_proposed"@.len() == 14 && "close_proposed"@[0] == 'c',
        "extend_proposed"@.len() == 15 && "extend_proposed"@[0] == 'e',
        "paused"@.len() == 6 && "paused"@[0] == 'p',
        "closed"@.len() == 6 && "closed"@[0] == 'c',
        "archived"@.len() == 8 && "archived"@[0] == 'a',
{
    reveal_strlit("paused_by_timeout");
    reveal_strlit("awaiting_counterpart");
    reveal_strlit("counterpart_stale");
    reveal_strlit("close_proposed");
    reveal_strlit("extend_proposed");
    reveal_strlit("paused");
    reveal_strlit("closed");
    reveal_strlit("archived");
}

/// Parsing the wire string of a known status gives that status back, and two
/// known statuses never share a wire string.
pub proof fn law_from_wire_round_trip(w: WaitStatus, v: WaitStatus)
    requires
        !(w is Unknown),
        !(v is Unknown),
        wire_of(w) == wire_of(v),
    ensures
        w == v,
        is_known_wire(wire_of(w)),
{
    lemma_wire_shapes();
}

proof fn lemma_trim_end_keeps_a_visible_first_char(s: Seq<char>)
    requires
        s.len() > 0,
        !is_ws(s[0]),
    ensures
        trim_end(s).len() > 0,
    decreases s.len(),
{
    if is_ws(s.last()) {
        assert(s.len() > 1);
        assert(s.drop_last()[0] == s[0]);
        lemma_trim_end_keeps_a_visible_first_char(s.drop_last());
    }
}

/// Every status, known or not, has guidance that is not blank.
pub proof fn law_guidance_is_never_blank(w: WaitStatus)
    ensures
        trim(spec_guidance(w)).len() > 0,
{
    let g = spec_guidance(w);
    reveal_strlit("Room status: ");
    reveal_strlit("call cbc_wait again — nothing arrived yet but the conversation is alive. Do not give up.");
    reveal_strlit("The other agent has not joined yet — this is NOT a stop and NOT a hand-back. Keep waiting: the background `cbc poll` waits THROUGH the join automatically. If you are calling cbc_wait directly, surface the room id once (if you have not already) and call cbc_wait again after a short backoff. Do NOT end your turn to wait for your user to confirm the join.");
    reveal_strlit("The other agent has gone quiet (>15 min with no poll) — this is NOT a stop. A quiet counterpart is usually an idle session that will resume. Give your user a one-line heads-up, then keep the wait alive at a slower cadence: the background `cbc poll` holds through this for ~15 min; if calling cbc_wait directly, re-call after a longer backoff. Surface to abandon only if it stays silent past that window.");
    reveal_strlit("The other agent proposed closing the room. If you also think the conversation is done, call cbc_close to agree — the room then closes. If you have more to say, call cbc_send instead: that cancels the proposal and continues the conversation.");
    reveal_strlit("The other agent proposed extending the message cap (+10) so you can keep talking. If you also want to continue, call cbc_extend to agree — the cap bumps once you both vote. If you would rather wrap up, call cbc_close, or just keep talking.");
    reveal_strlit("The room is paused. Stop polling — it needs an explicit cbc_wake to resume.");
    reveal_strlit("The room is closed. Stop polling.");
    reveal_strlit("The room is archived. Stop polling.");
    assert(g.len() > 0 && !is_ws(g[0]));
    assert(trim_start(g) == g);
    lemma_trim_end_keeps_a_visible_first_char(g);
}

} // verus!
