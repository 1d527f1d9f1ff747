//! A room transcript as human-readable markdown: one renderer shared by
//! `cbc show` and the MCP `cbc_recap` tool.
use vstd::prelude::*;
use crate::num::{decimal, push_decimal};
use crate::protocol::{MessageView, ParticipantView, RoomTranscript};
use crate::text::str_eq;

verus! {

/// The text of an optional string.
pub open spec fn opt_view(o: Option<String>) -> Option<Seq<char>> {
    match o {
        Some(s) => Some(s@),
        None => None,
    }
}

/// A participant's display label: its nickname with the handle in brackets
/// when a nickname is set (so identity stays visible), else just the handle.
pub open spec fn spec_participant_label(nickname: Option<Seq<char>>, handle: Seq<char>) -> Seq<char> {
    match nickname {
        Some(n) => n + " ["@ + handle + "]"@,
        None => handle,
    }
}

/// A participant's display label.
pub fn participant_label(nickname: &Option<String>, handle: &str) -> (r: String)
    ensures
        r@ == spec_participant_label(opt_view(*nickname), handle@),
{
    match nickname {
        Some(n) => {
            let mut s = n.clone();
            s.append(" [");
            s.append(handle);
            s.append("]");
            s
        },
        None => String::from_str(handle),
    }
}

/// One message as a markdown bullet. A sentinel (type other than `msg`)
/// shows its signal type, its severity and the question it asks its user; a
/// `msg` shows its body. A message without a recipient went to `all`.
pub open spec fn spec_message_markdown(m: MessageView) -> Seq<char> {
    let to = match m.to {
        Some(t) => t@,
        None => "all"@,
    };
    let head = "- ["@ + decimal(m.seq as nat) + "] **"@ + m.from@ + "** → "@ + to;
    if m.msg_type@ != "msg"@ {
        let sev = match m.severity {
            Some(s) => " ("@ + s@ + ")"@,
            None => Seq::empty(),
        };
        let question = match m.question_text {
            Some(q) => " — asks its user: "@ + q@,
            None => Seq::empty(),
        };
        head + " _signal: "@ + m.msg_type@ + sev + "_"@ + question + "\n"@
    } else {
        head + ": "@ + m.body@ + "\n"@
    }
}

/// One message as a markdown bullet (see `spec_message_markdown`).
pub fn render_message_markdown(m: &MessageView) -> (r: String)
    ensures
        r@ == spec_message_markdown(*m),
{
    let mut out = String::from_str("- [");
    push_decimal(&mut out, m.seq);
    out.append("] **");
    out.append(m.from.as_str());
    out.append("** → ");
    match &m.to {
        Some(t) => out.append(t.as_str()),
        None => out.append("all"),
    }
    if !str_eq(m.msg_type.as_str(), "msg") {
        out.append(" _signal: ");
        out.append(m.msg_type.as_str());
        match &m.severity {
            Some(s) => {
                out.append(" (");
                out.append(s.as_str());
                out.append(")");
            },
            None => {},
        }
        out.append("_");
        match &m.question_text {
            Some(q) => {
                out.append(" — asks its user: ");
                out.append(q.as_str());
            },
            None => {},
        }
        out.append("\n");
    } else {
        out.append(": ");
        out.append(m.body.as_str());
        out.append("\n");
    }
    proof {
        let to = match opt_view(m.to) {
            Some(t) => t,
            None => "all"@,
        };
        let head = "- ["@ + decimal(m.seq as nat) + "] **"@ + m.from@ + "** → "@ + to;
        let sev = match opt_view(m.severity) {
            Some(s) => " ("@ + s + ")"@,
            None => Seq::<char>::empty(),
        };
        let question = match opt_view(m.question_text) {
            Some(q) => " — asks its user: "@ + q,
            None => Seq::<char>::empty(),
        };
        if m.msg_type@ != "msg"@ {
            assert(out@ =~= head + " _signal: "@ + m.msg_type@ + sev + "_"@ + question + "\n"@);
        } else {
            assert(out@ =~= head + ": "@ + m.body@ + "\n"@);
        }
    }
    out
}

/// The participants section's bullets.
pub open spec fn participant_lines(ps: Seq<ParticipantView>) -> Seq<char>
    decreases ps.len(),
{
    if ps.len() == 0 {
        Seq::empty()
    } else {
        let p = ps.last();
        participant_lines(ps.drop_last()) + "- "@ + spec_participant_label(
            opt_view(p.nickname),
            p.handle@,
        ) + " ("@ + p.model@ + " @ "@ + p.cwd@ + ")\n"@
    }
}

/// The messages section's bullets.
pub open spec fn message_lines(ms: Seq<MessageView>) -> Seq<char>
    decreases ms.len(),
{
    if ms.len() == 0 {
        Seq::empty()
    } else {
        message_lines(ms.drop_last()) + spec_message_markdown(ms.last())
    }
}

/// A whole room as markdown: the subject as a heading, the room facts, then
/// the participants and the messages, each `- (none)` when empty.
pub open spec fn spec_transcript_markdown(t: RoomTranscript) -> Seq<char> {
    "# "@ + t.subject@ + "\n\n"@ + "- Room: "@ + t.id@ + "\n"@ + "- State: "@ + t.state@ + "\n"@
        + "- Started: "@ + t.started_at@ + "\n"@ + "- Last activity: "@ + t.last_activity_at@
        + "\n"@ + "- Caps: hard "@ + decimal(t.hard_cap_count as nat) + "/"@ + decimal(
        t.hard_cap as nat,
    ) + ", soft "@ + decimal(t.soft_cap_consecutive as nat) + "/"@ + decimal(t.soft_cap as nat)
        + "\n"@ + "\n## Participants\n"@ + (if t.participants@.len() == 0 {
        "- (none)\n"@
    } else {
        participant_lines(t.participants@)
    }) + "\n## Messages\n"@ + (if t.messages@.len() == 0 {
        "- (none)\n"@
    } else {
        message_lines(t.messages@)
    })
}

/// The markdown bullet of each message, in order.
pub open spec fn message_bullets(ms: Seq<MessageView>) -> Seq<Seq<char>> {
    ms.map_values(|m: MessageView| spec_message_markdown(m))
}

proof fn lemma_message_lines_flatten(ms: Seq<MessageView>)
    ensures
        message_lines(ms) == message_bullets(ms).flatten(),
    decreases ms.len(),
{
    let b = message_bullets(ms);
    if ms.len() > 0 {
        lemma_message_lines_flatten(ms.drop_last());
        assert(b.drop_last() =~= message_bullets(ms.drop_last()));
        message_bullets(ms.drop_last()).lemma_flatten_and_flatten_alt_are_equivalent();
    } else {
        assert(b =~= Seq::<Seq<char>>::empty());
    }
    b.lemma_flatten_and_flatten_alt_are_equivalent();
    if ms.len() > 0 {
        assert(b.last() == spec_message_markdown(ms.last()));
        assert(b.flatten_alt() == b.drop_last().flatten_alt() + b.last());
    }
}

/// A transcript with messages ends with its Messages section, which is the
/// markdown bullet of every message, one per message, in order; everything
/// before the section depends on the room alone, not on its messages. So two
/// transcripts of the same room differ exactly in those bullets: no message,
/// the opener included, is dropped, repeated or reordered.
pub proof fn law_transcript_lists_every_message_in_order(t1: RoomTranscript, t2: RoomTranscript)
    requires
        t2 == (RoomTranscript { messages: t2.messages, ..t1 }),
        t1.messages@.len() > 0,
        t2.messages@.len() > 0,
    ensures
        exists|a: Seq<char>|
            spec_transcript_markdown(t1) == a + "\n## Messages\n"@ + message_bullets(
                t1.messages@,
            ).flatten() && spec_transcript_markdown(t2) == a + "\n## Messages\n"@
                + message_bullets(t2.messages@).flatten(),
{
    lemma_message_lines_flatten(t1.messages@);
    lemma_message_lines_flatten(t2.messages@);
    let a = "# "@ + t1.subject@ + "\n\n"@ + "- Room: "@ + t1.id@ + "\n"@ + "- State: "@ + t1.state@
        + "\n"@ + "- Started: "@ + t1.started_at@ + "\n"@ + "- Last activity: "@
        + t1.last_activity_at@ + "\n"@ + "- Caps: hard "@ + decimal(t1.hard_cap_count as nat) + "/"@
        + decimal(t1.hard_cap as nat) + ", soft "@ + decimal(t1.soft_cap_consecutive as nat) + "/"@
        + decimal(t1.soft_cap as nat) + "\n"@ + "\n## Participants\n"@ + (if t1.participants@.len()
        == 0 {
        "- (none)\n"@
    } else {
        participant_lines(t1.participants@)
    });
    assert(spec_transcript_markdown(t1) =~= a + "\n## Messages\n"@ + message_bullets(
        t1.messages@,
    ).flatten());
    assert(spec_transcript_markdown(t2) =~= a + "\n## Messages\n"@ + message_bullets(
        t2.messages@,
    ).flatten());
}

fn push_header(out: &mut String, t: &RoomTranscript)
    ensures
        final(out)@ == old(out)@ + "# "@ + t.subject@ + "\n\n"@ + "- Room: "@ + t.id@ + "\n"@
            + "- State: "@ + t.state@ + "\n"@ + "- Started: "@ + t.started_at@ + "\n"@
            + "- Last activity: "@ + t.last_activity_at@ + "\n"@ + "- Caps: hard "@ + decimal(
            t.hard_cap_count as nat,
        ) + "/"@ + decimal(t.hard_cap as nat) + ", soft "@ + decimal(
            t.soft_cap_consecutive as nat,
        ) + "/"@ + decimal(t.soft_cap as nat) + "\n"@,
{
    out.append("# ");
    out.append(t.subject.as_str());
    out.append("\n\n");
    out.append("- Room: ");
    out.append(t.id.as_str());
    out.append("\n");
    out.append("- State: ");
    out.append(t.state.as_str());
    out.append("\n");
    out.append("- Started: ");
    out.append(t.started_at.as_str());
    out.append("\n");
    out.append("- Last activity: ");
    out.append(t.last_activity_at.as_str());
    out.append("\n");
    out.append("- Caps: hard ");
    push_decimal(out, t.hard_cap_count as u64);
    out.append("/");
    push_decimal(out, t.hard_cap as u64);
    out.append(", soft ");
    push_decimal(out, t.soft_cap_consecutive as u64);
    out.append("/");
    push_decimal(out, t.soft_cap as u64);
    out.append("\n");
}

/// Render a room transcript as markdown (see `spec_transcript_markdown`).
pub fn render_transcript_markdown(t: &RoomTranscript) -> (r: String)
    ensures
        r@ == spec_transcript_markdown(*t),
{
    let mut out = String::new();
    push_header(&mut out, t);
    let ghost header = out@;
    out.append("\n## Participants\n");
    let ghost after_title = out@;
    let n = t.participants.len();
    if n == 0 {
        out.append("- (none)\n");
    } else {
        let mut i: usize = 0;
        assert(t.participants@.take(0) =~= Seq::<ParticipantView>::empty());
        while i < n
            invariant
                n == t.participants@.len(),
                i <= n,
                out@ == after_title + participant_lines(t.participants@.take(i as int)),
            decreases n - i,
        {
            let p = &t.participants[i];
            out.append("- ");
            let label = participant_label(&p.nickname, p.handle.as_str());
            out.append(label.as_str());
            out.append(" (");
            out.append(p.model.as_str());
            out.append(" @ ");
            out.append(p.cwd.as_str());
            out.append(")\n");
            assert(t.participants@.take(i + 1).drop_last() =~= t.participants@.take(i as int));
            i = i + 1;
        }
        assert(t.participants@.take(n as int) =~= t.participants@);
    }
    let ghost parts = out@;
    out.append("\n## Messages\n");
    let ghost after_msgs_title = out@;
    let m = t.messages.len();
    if m == 0 {
        out.append("- (none)\n");
    } else {
        let mut j: usize = 0;
        assert(t.messages@.take(0) =~= Seq::<MessageView>::empty());
        while j < m
            invariant
                m == t.messages@.len(),
                j <= m,
                out@ == after_msgs_title + message_lines(t.messages@.take(j as int)),
            decreases m - j,
        {
            let line = render_message_markdown(&t.messages[j]);
            out.append(line.as_str());
            assert(t.messages@.take(j + 1).drop_last() =~= t.messages@.take(j as int));
            j = j + 1;
        }
        assert(t.messages@.take(m as int) =~= t.messages@);
    }
    assert(out@ =~= spec_transcript_markdown(*t));
    out
}

} // verus!
