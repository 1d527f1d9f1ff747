//! The `key: value` line format of the `.cbc/*.md` state files and the
//! `--flag value` command-line fragments they carry.
use vstd::prelude::*;
use crate::text::{
    Span, chars_of, is_alnum, is_alnum_char, line_spans, lines, slice_string, span_eq,
    span_starts_with, span_texts, spans_in, starts_with, token_spans, tokens, trim, trim_span,
};

verus! {

/// The text of a span.
pub open spec fn sp_text(cs: Seq<char>, sp: Span) -> Seq<char> {
    cs.subrange(sp.0 as int, sp.1 as int)
}

/// The value of a `key: value` line: present when the line starts with `key:`,
/// and then the rest of the line trimmed.
pub open spec fn spec_kv(line: Seq<char>, key: Seq<char>) -> Option<Seq<char>> {
    if starts_with(line, key) && line.len() > key.len() && line[key.len() as int] == ':' {
        Some(trim(line.skip(key.len() as int + 1)))
    } else {
        None
    }
}

/// The value of the first line (trimmed) that is a `key:` line.
pub open spec fn first_kv(ls: Seq<Seq<char>>, key: Seq<char>) -> Option<Seq<char>>
    decreases ls.len(),
{
    if ls.len() == 0 {
        None
    } else {
        match spec_kv(trim(ls[0]), key) {
            Some(v) => Some(v),
            None => first_kv(ls.drop_first(), key),
        }
    }
}

/// A line is indented when it starts with a space or a tab.
pub open spec fn indented(line: Seq<char>) -> bool {
    line.len() > 0 && (line[0] == ' ' || line[0] == '\t')
}

/// The file declares `status: ACTIVE` on some line.
pub open spec fn spec_is_active(content: Seq<char>) -> bool {
    exists|i: int|
        0 <= i < lines(content).len() && spec_kv(trim(#[trigger] lines(content)[i]), "status"@)
            == Some("ACTIVE"@)
}

/// The owning session stamp: the first `session-id:` value, when non-empty.
pub open spec fn spec_owner_session(content: Seq<char>) -> Option<Seq<char>> {
    match first_kv(lines(content), "session-id"@) {
        Some(v) => if v.len() > 0 {
            Some(v)
        } else {
            None
        },
        None => None,
    }
}

/// Index of the first token that starts a `#` comment, or `toks.len()`.
pub open spec fn first_comment(toks: Seq<Seq<char>>) -> int
    decreases toks.len(),
{
    if toks.len() == 0 {
        0
    } else if starts_with(toks[0], "#"@) {
        0
    } else {
        1 + first_comment(toks.drop_first())
    }
}

/// Index of the first token equal to `x`, or `toks.len()`.
pub open spec fn position_of(toks: Seq<Seq<char>>, x: Seq<char>) -> int
    decreases toks.len(),
{
    if toks.len() == 0 {
        0
    } else if toks[0] == x {
        0
    } else {
        1 + position_of(toks.drop_first(), x)
    }
}

/// A character that can end an identity: an ASCII letter or digit, `-` or `_`.
pub open spec fn id_char(c: char) -> bool {
    is_alnum(c) || c == '-' || c == '_'
}

/// Drop trailing characters that cannot appear in an identity.
pub open spec fn trim_id_end(v: Seq<char>) -> Seq<char>
    decreases v.len(),
{
    if v.len() > 0 && !id_char(v.last()) {
        trim_id_end(v.drop_last())
    } else {
        v
    }
}

/// The tokens of `source` before the first `#`-comment token.
pub open spec fn command_tokens(source: Seq<char>) -> Seq<Seq<char>> {
    tokens(source).take(first_comment(tokens(source)))
}

/// The value following `flag` in `source`: the first occurrence of `flag` among
/// the tokens before any `#` comment, followed by a token that is not itself a
/// `--flag`, with trailing non-identity punctuation trimmed, when that leaves
/// something.
pub open spec fn spec_flag_value(source: Seq<char>, flag: Seq<char>) -> Option<Seq<char>> {
    let toks = command_tokens(source);
    let i = position_of(toks, flag);
    if i + 1 < toks.len() && !starts_with(toks[i + 1], "--"@) && trim_id_end(toks[i + 1]).len()
        > 0 {
        Some(trim_id_end(toks[i + 1]))
    } else {
        None
    }
}

/// A scanned document: its source text, its characters, and its line spans.
pub struct Doc<'a> {
    pub src: &'a str,
    pub cs: Vec<char>,
    pub lines: Vec<Span>,
}

impl<'a> Doc<'a> {
    pub open spec fn wf(&self) -> bool {
        &&& self.cs@ == self.src@
        &&& spans_in(self.cs@, self.lines@)
        &&& span_texts(self.cs@, self.lines@) == lines(self.src@)
    }

    /// The text of line `i`.
    pub open spec fn line(&self, i: int) -> Seq<char> {
        sp_text(self.cs@, self.lines@[i])
    }

    pub fn new(src: &'a str) -> (d: Doc<'a>)
        ensures
            d.wf(),
            d.src == src,
    {
        let cs = chars_of(src);
        let lines = line_spans(&cs);
        Doc { src, cs, lines }
    }

    /// An owned copy of a span's text.
    pub fn string_of(&self, sp: Span) -> (r: String)
        requires
            self.wf(),
            sp.0 <= sp.1 <= self.cs@.len(),
        ensures
            r@ == sp_text(self.cs@, sp),
    {
        slice_string(self.src, &self.cs, sp.0, sp.1)
    }
}

pub proof fn lemma_line_text(d: &Doc, i: int)
    requires
        d.wf(),
        0 <= i < d.lines@.len(),
    ensures
        d.line(i) == lines(d.src@)[i],
        d.lines@[i].0 <= d.lines@[i].1 <= d.cs@.len(),
{
    assert(span_texts(d.cs@, d.lines@)[i] == d.line(i));
}

/// The span of the value of a `key:` line spanning `cs[lo..hi]`.
pub fn kv_span(cs: &Vec<char>, lo: usize, hi: usize, key: &str) -> (r: Option<Span>)
    requires
        lo <= hi <= cs@.len(),
    ensures
        match r {
            Some(sp) => lo <= sp.0 <= sp.1 <= hi && spec_kv(
                cs@.subrange(lo as int, hi as int),
                key@,
            ) == Some(sp_text(cs@, sp)),
            None => spec_kv(cs@.subrange(lo as int, hi as int), key@) is None,
        },
{
    let k = key.unicode_len();
    let ghost line = cs@.subrange(lo as int, hi as int);
    if hi - lo > k && span_starts_with(cs, lo, hi, key) && cs[lo + k] == ':' {
        assert(line[k as int] == cs@[lo + k]);
        assert(line.skip(k + 1) =~= cs@.subrange(lo + k + 1, hi as int));
        Some(trim_span(cs, lo + k + 1, hi))
    } else {
        proof {
            if hi - lo > k && starts_with(line, key@) {
                assert(line[k as int] == cs@[lo + k]);
            }
        }
        None
    }
}

/// The span of the value of the first `key:` line (each line trimmed first).
pub fn first_kv_span(d: &Doc, key: &str) -> (r: Option<Span>)
    requires
        d.wf(),
    ensures
        match r {
            Some(sp) => sp.0 <= sp.1 <= d.cs@.len() && first_kv(lines(d.src@), key@) == Some(
                sp_text(d.cs@, sp),
            ),
            None => first_kv(lines(d.src@), key@) is None,
        },
{
    let ghost ls = lines(d.src@);
    let n = d.lines.len();
    let mut i: usize = 0;
    assert(ls.skip(0) =~= ls);
    while i < n
        invariant
            d.wf(),
            ls == lines(d.src@),
            n == d.lines@.len() == ls.len(),
            i <= n,
            first_kv(ls, key@) == first_kv(ls.skip(i as int), key@),
        decreases n - i,
    {
        proof {
            lemma_line_text(d, i as int);
            assert(ls.skip(i as int)[0] == ls[i as int]);
            assert(ls.skip(i as int).drop_first() =~= ls.skip(i + 1));
        }
        let sp = d.lines[i];
        let t = trim_span(&d.cs, sp.0, sp.1);
        match kv_span(&d.cs, t.0, t.1, key) {
            Some(v) => {
                return Some(v);
            },
            None => {},
        }
        i = i + 1;
    }
    None
}

/// `status: ACTIVE` appears on some line.
pub fn doc_is_active(d: &Doc) -> (r: bool)
    requires
        d.wf(),
    ensures
        r == spec_is_active(d.src@),
{
    let ghost ls = lines(d.src@);
    let n = d.lines.len();
    let mut i: usize = 0;
    while i < n
        invariant
            d.wf(),
            ls == lines(d.src@),
            n == d.lines@.len() == ls.len(),
            i <= n,
            forall|j: int| 0 <= j < i ==> spec_kv(trim(#[trigger] ls[j]), "status"@) != Some("ACTIVE"@),
        decreases n - i,
    {
        proof {
            lemma_line_text(d, i as int);
        }
        let sp = d.lines[i];
        let t = trim_span(&d.cs, sp.0, sp.1);
        match kv_span(&d.cs, t.0, t.1, "status") {
            Some(v) => {
                if span_eq(&d.cs, v.0, v.1, "ACTIVE") {
                    return true;
                }
            },
            None => {},
        }
        i = i + 1;
    }
    false
}

/// Whether a state file declares `status: ACTIVE`.
pub fn is_active(content: &str) -> (r: bool)
    ensures
        r == spec_is_active(content@),
{
    let d = Doc::new(content);
    doc_is_active(&d)
}

/// The `session-id:` stamp of the session owning a state file: the first such
/// line wins, and an empty stamp counts as none.
pub fn owner_session(content: &str) -> (r: Option<String>)
    ensures
        r.deep_view() == spec_owner_session(content@),
{
    let d = Doc::new(content);
    match first_kv_span(&d, "session-id") {
        Some(sp) => {
            if sp.0 < sp.1 {
                Some(d.string_of(sp))
            } else {
                None
            }
        },
        None => None,
    }
}

/// The span of `trim_id_end(cs[lo..hi])`.
fn trim_id_end_span(cs: &Vec<char>, lo: usize, hi: usize) -> (r: usize)
    requires
        lo <= hi <= cs@.len(),
    ensures
        lo <= r <= hi,
        cs@.subrange(lo as int, r as int) == trim_id_end(cs@.subrange(lo as int, hi as int)),
{
    let mut b = hi;
    while b > lo && !(is_alnum_char(cs[b - 1]) || cs[b - 1] == '-' || cs[b - 1] == '_')
        invariant
            lo <= b <= hi <= cs@.len(),
            trim_id_end(cs@.subrange(lo as int, hi as int)) == trim_id_end(
                cs@.subrange(lo as int, b as int),
            ),
        decreases b - lo,
    {
        assert(cs@.subrange(lo as int, b as int).drop_last() =~= cs@.subrange(
            lo as int,
            b - 1,
        ));
        b = b - 1;
    }
    b
}

/// Over the token spans of `cs[lo..hi]`, the value that follows `flag`.
pub fn flag_value_span(cs: &Vec<char>, lo: usize, hi: usize, flag: &str) -> (r: Option<Span>)
    requires
        lo <= hi <= cs@.len(),
    ensures
        match r {
            Some(sp) => lo <= sp.0 <= sp.1 <= hi && spec_flag_value(
                cs@.subrange(lo as int, hi as int),
                flag@,
            ) == Some(sp_text(cs@, sp)),
            None => spec_flag_value(cs@.subrange(lo as int, hi as int), flag@) is None,
        },
{
    let toks = token_spans(cs, lo, hi);
    let ghost all = span_texts(cs@, toks@);
    let n = toks.len();
    // The comment-free prefix.
    let mut k: usize = 0;
    assert(all.skip(0) =~= all);
    while k < n && !span_starts_with(cs, toks[k].0, toks[k].1, "#")
        invariant
            all == span_texts(cs@, toks@),
            spans_in(cs@, toks@),
            n == toks@.len() == all.len(),
            k <= n,
            first_comment(all) == k + first_comment(all.skip(k as int)),
        decreases n - k,
    {
        assert(all[k as int] == sp_text(cs@, toks@[k as int]));
        assert(all.skip(k as int)[0] == all[k as int]);
        assert(all.skip(k as int).drop_first() =~= all.skip(k + 1));
        k = k + 1;
    }
    proof {
        if k < n {
            assert(all[k as int] == sp_text(cs@, toks@[k as int]));
            assert(all.skip(k as int)[0] == all[k as int]);
        }
    }
    let ghost ct = all.take(k as int);
    assert(ct == command_tokens(cs@.subrange(lo as int, hi as int)));
    // The first occurrence of `flag`.
    let mut i: usize = 0;
    assert(ct.skip(0) =~= ct);
    while i < k && !span_eq(cs, toks[i].0, toks[i].1, flag)
        invariant
            all == span_texts(cs@, toks@),
            ct == all.take(k as int),
            spans_in(cs@, toks@),
            n == toks@.len() == all.len(),
            k <= n,
            i <= k,
            position_of(ct, flag@) == i + position_of(ct.skip(i as int), flag@),
        decreases k - i,
    {
        assert(ct[i as int] == all[i as int]);
        assert(all[i as int] == sp_text(cs@, toks@[i as int]));
        assert(ct.skip(i as int)[0] == ct[i as int]);
        assert(ct.skip(i as int).drop_first() =~= ct.skip(i + 1));
        i = i + 1;
    }
    proof {
        if i < k {
            assert(ct[i as int] == all[i as int]);
            assert(all[i as int] == sp_text(cs@, toks@[i as int]));
            assert(ct.skip(i as int)[0] == ct[i as int]);
        }
    }
    if k - i > 1 {
        let v = toks[i + 1];
        assert(ct[i + 1] == all[i + 1]);
        assert(all[i + 1] == sp_text(cs@, toks@[i + 1]));
        if span_starts_with(cs, v.0, v.1, "--") {
            return None;
        }
        let e = trim_id_end_span(cs, v.0, v.1);
        if e > v.0 {
            assert(lo <= toks@[i + 1].0);
            Some((v.0, e))
        } else {
            None
        }
    } else {
        None
    }
}

/// The whitespace-delimited token that follows `flag` in `source`, ignoring a
/// trailing `#` comment: the first real occurrence wins, a value that is itself a
/// `--flag` is rejected, and trailing punctuation that cannot belong to an
/// identity is trimmed.
pub fn flag_value(source: &str, flag: &str) -> (r: Option<String>)
    ensures
        r.deep_view() == spec_flag_value(source@, flag@),
{
    let cs = chars_of(source);
    let n = cs.len();
    assert(cs@.subrange(0, n as int) =~= source@);
    match flag_value_span(&cs, 0, n, flag) {
        Some(sp) => Some(slice_string(source, &cs, sp.0, sp.1)),
        None => None,
    }
}

} // verus!
