//! The daemon's startup diagnostics: the message shown when its loopback port
//! is taken, and the pid read back from `lsof -ti tcp:<port>`.
use vstd::prelude::*;
use crate::num::{decimal, parse_u32_span, push_decimal, spec_parse_u32};
use crate::text::{chars_of, line_spans, lines, span_texts, trim, trim_span};

verus! {

/// The bind-failure message: names the port, the conflicting pid when known,
/// and the `--port` escape hatch.
pub open spec fn spec_port_conflict_message(port: u16, pid: Option<u32>) -> Seq<char> {
    let pid_note = match pid {
        Some(p) => " (PID "@ + decimal(p as nat) + ")"@,
        None => Seq::empty(),
    };
    "could not bind 127.0.0.1:"@ + decimal(port as nat)
        + " — another instance may already be running"@ + pid_note
        + ". Use --port <N> to run on a different port (e.g. --port 8485)."@
}

/// The user-facing error when the daemon cannot bind its port.
pub fn port_conflict_message(port: u16, pid: Option<u32>) -> (r: String)
    ensures
        r@ == spec_port_conflict_message(port, pid),
{
    let mut s = String::from_str("could not bind 127.0.0.1:");
    push_decimal(&mut s, port as u64);
    s.append(" — another instance may already be running");
    match pid {
        Some(p) => {
            s.append(" (PID ");
            push_decimal(&mut s, p as u64);
            s.append(")");
        },
        None => {},
    }
    s.append(". Use --port <N> to run on a different port (e.g. --port 8485).");
    s
}

/// The pid `lsof -ti` printed: its first line, trimmed, as a `u32`.
pub open spec fn spec_lsof_pid(output: Seq<char>) -> Option<u32> {
    let ls = lines(output);
    if ls.len() == 0 {
        None
    } else {
        spec_parse_u32(trim(ls[0]))
    }
}

/// Read the listener's pid from `lsof -ti` output (see `spec_lsof_pid`).
pub fn lsof_pid(output: &str) -> (r: Option<u32>)
    ensures
        r == spec_lsof_pid(output@),
{
    let cs = chars_of(output);
    let spans = line_spans(&cs);
    if spans.len() == 0 {
        return None;
    }
    let sp = spans[0];
    assert(span_texts(cs@, spans@)[0] == cs@.subrange(sp.0 as int, sp.1 as int));
    let t = trim_span(&cs, sp.0, sp.1);
    parse_u32_span(&cs, t.0, t.1)
}

} // verus!
