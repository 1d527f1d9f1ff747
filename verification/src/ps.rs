//! Reading the process table: which live processes are this session's
//! identity-scoped `cbc poll` for a room. The `/bin/zsh -c` wrapper around a
//! background poll and a peer's poll of the same shared room never count.
use vstd::prelude::*;
use crate::num::{parse_u32_span, spec_parse_u32};
use crate::reconcile::{opt_str_view, poll_matches, spec_poll_matches};
use crate::text::{
    Span, chars_of, find_ws, first_ws, line_spans, lines, skip_ws, slice_string, span_texts,
    spans_in, trim_start,
};

verus! {

/// The pid of one `ps -o pid=,command=` line when it is a matching poll: the
/// line's leading whitespace is dropped, the pid runs up to the first
/// whitespace character and parses as a `u32`, and the rest (leading
/// whitespace dropped) is a matching `cbc poll` command line.
pub open spec fn line_pid(line: Seq<char>, room: Seq<char>, identity: Option<Seq<char>>) -> Option<u32> {
    let l = trim_start(line);
    let k = first_ws(l);
    if k >= l.len() {
        None
    } else {
        match spec_parse_u32(l.subrange(0, k)) {
            Some(pid) => if spec_poll_matches(trim_start(l.subrange(k + 1, l.len() as int)), room, identity) {
                Some(pid)
            } else {
                None
            },
            None => None,
        }
    }
}

/// The pids of the matching polls, line by line in order.
pub open spec fn pids_of(ls: Seq<Seq<char>>, room: Seq<char>, identity: Option<Seq<char>>) -> Seq<u32>
    decreases ls.len(),
{
    if ls.len() == 0 {
        seq![]
    } else {
        pids_of(ls.drop_last(), room, identity) + match line_pid(ls.last(), room, identity) {
            Some(p) => seq![p],
            None => seq![],
        }
    }
}

/// Pids of every process in `ps -o pid=,command=` output whose command line
/// is an identity-scoped `cbc poll <room>` (see `line_pid`).
pub fn select_poll_pids(ps_output: &str, room: &str, identity: Option<&str>) -> (r: Vec<u32>)
    ensures
        r@ == pids_of(lines(ps_output@), room@, opt_str_view(identity)),
{
    let cs = chars_of(ps_output);
    let spans = line_spans(&cs);
    let ghost ls = span_texts(cs@, spans@);
    let mut pids: Vec<u32> = Vec::new();
    let n = spans.len();
    let mut i: usize = 0;
    assert(ls.take(0) =~= Seq::<Seq<char>>::empty());
    while i < n
        invariant
            n == spans@.len(),
            i <= n,
            cs@ == ps_output@,
            spans_in(cs@, spans@),
            ls == span_texts(cs@, spans@),
            pids@ == pids_of(ls.take(i as int), room@, opt_str_view(identity)),
        decreases n - i,
    {
        let sp: Span = spans[i];
        let ghost line = cs@.subrange(sp.0 as int, sp.1 as int);
        assert(ls[i as int] == line);
        let a = skip_ws(&cs, sp.0, sp.1);
        let k = find_ws(&cs, a, sp.1);
        let ghost l = cs@.subrange(a as int, sp.1 as int);
        assert(l == trim_start(line));
        let ghost before = pids@;
        if k < sp.1 {
            assert(l.subrange(0, k - a) =~= cs@.subrange(a as int, k as int));
            match parse_u32_span(&cs, a, k) {
                Some(pid) => {
                    let c = skip_ws(&cs, k + 1, sp.1);
                    assert(l.subrange(k - a + 1, l.len() as int) =~= cs@.subrange(k + 1, sp.1 as int));
                    let cmd = slice_string(ps_output, &cs, c, sp.1);
                    if poll_matches(cmd.as_str(), room, identity) {
                        pids.push(pid);
                    }
                },
                None => {},
            }
        }
        proof {
            assert(ls.take(i + 1).drop_last() =~= ls.take(i as int));
            assert(ls.take(i + 1).last() == line);
            assert(pids@ =~= before + match line_pid(line, room@, opt_str_view(identity)) {
                Some(p) => seq![p],
                None => Seq::<u32>::empty(),
            });
        }
        i = i + 1;
    }
    assert(ls.take(n as int) =~= ls);
    pids
}

/// The polls to reap so that at most one remains: every matching pid but the
/// first.
pub fn surplus_pids(pids: &Vec<u32>) -> (r: Vec<u32>)
    ensures
        pids@.len() == 0 ==> r@.len() == 0,
        pids@.len() > 0 ==> r@ == pids@.skip(1),
{
    let mut out: Vec<u32> = Vec::new();
    let n = pids.len();
    let mut i: usize = 1;
    while i < n
        invariant
            n == pids@.len(),
            1 <= i,
            n > 0 ==> i <= n,
            n > 0 ==> out@ == pids@.subrange(1, i as int),
            n == 0 ==> out@.len() == 0,
        decreases n - i,
    {
        out.push(pids[i]);
        assert(out@ =~= pids@.subrange(1, i + 1));
        i = i + 1;
    }
    if n > 0 {
        assert(out@ =~= pids@.skip(1));
    }
    out
}

} // verus!
