//! Character-level text primitives shared by the state-file and process-table
//! parsers: Unicode whitespace, trimming, line splitting, whitespace tokens, and
//! the conversions between `&str` and a scanned `Vec<char>`.
//!
//! Every exec helper works on a `Vec<char>` plus a half-open index range, and is
//! specified against the corresponding spec function on `Seq<char>`.
use vstd::prelude::*;

verus! {

/// A `(start, end)` half-open range of character indices.
pub type Span = (usize, usize);

/// Unicode `White_Space`, the property behind `char::is_whitespace`.
pub open spec fn is_ws(c: char) -> bool {
    let u = c as u32;
    ||| u == 0x20
    ||| (0x09 <= u && u <= 0x0d)
    ||| u == 0x85
    ||| u == 0xa0
    ||| u == 0x1680
    ||| (0x2000 <= u && u <= 0x200a)
    ||| u == 0x2028
    ||| u == 0x2029
    ||| u == 0x202f
    ||| u == 0x205f
    ||| u == 0x3000
}

/// ASCII letter or digit.
pub open spec fn is_alnum(c: char) -> bool {
    let u = c as u32;
    ||| (0x30 <= u && u <= 0x39)
    ||| (0x41 <= u && u <= 0x5a)
    ||| (0x61 <= u && u <= 0x7a)
}

pub fn is_ws_char(c: char) -> (r: bool)
    ensures
        r == is_ws(c),
{
    let u = c as u32;
    u == 0x20 || (0x09 <= u && u <= 0x0d) || u == 0x85 || u == 0xa0 || u == 0x1680 || (0x2000
        <= u && u <= 0x200a) || u == 0x2028 || u == 0x2029 || u == 0x202f || u == 0x205f || u
        == 0x3000
}

pub fn is_alnum_char(c: char) -> (r: bool)
    ensures
        r == is_alnum(c),
{
    let u = c as u32;
    (0x30 <= u && u <= 0x39) || (0x41 <= u && u <= 0x5a) || (0x61 <= u && u <= 0x7a)
}

/// Drop leading whitespace.
pub open spec fn trim_start(s: Seq<char>) -> Seq<char>
    decreases s.len(),
{
    if s.len() > 0 && is_ws(s[0]) {
        trim_start(s.drop_first())
    } else {
        s
    }
}

/// Drop trailing whitespace.
pub open spec fn trim_end(s: Seq<char>) -> Seq<char>
    decreases s.len(),
{
    if s.len() > 0 && is_ws(s.last()) {
        trim_end(s.drop_last())
    } else {
        s
    }
}

/// `str::trim`: drop leading and trailing whitespace.
pub open spec fn trim(s: Seq<char>) -> Seq<char> {
    trim_end(trim_start(s))
}

/// Does `s` begin with `p`?
pub open spec fn starts_with(s: Seq<char>, p: Seq<char>) -> bool {
    p.len() <= s.len() && s.take(p.len() as int) == p
}

/// Index of the first occurrence of `c` in `s`, or `s.len()` when absent.
pub open spec fn first_index(s: Seq<char>, c: char) -> int
    decreases s.len(),
{
    if s.len() == 0 {
        0
    } else if s[0] == c {
        0
    } else {
        1 + first_index(s.drop_first(), c)
    }
}

/// Drop a single trailing `'\r'`.
pub open spec fn strip_cr(s: Seq<char>) -> Seq<char> {
    if s.len() > 0 && s.last() == '\r' {
        s.drop_last()
    } else {
        s
    }
}

/// Line splitting as `str::lines` does it, with `cur` the line read so far:
/// a line ends at `'\n'` (a `'\r'` right before it is dropped), and a final
/// empty remainder yields no line.
pub open spec fn lines_from(s: Seq<char>, cur: Seq<char>) -> Seq<Seq<char>>
    decreases s.len(),
{
    if s.len() == 0 {
        if cur.len() > 0 {
            seq![cur]
        } else {
            seq![]
        }
    } else if s[0] == '\n' {
        seq![strip_cr(cur)] + lines_from(s.drop_first(), seq![])
    } else {
        lines_from(s.drop_first(), cur.push(s[0]))
    }
}

/// The lines of `s`, as `str::lines` yields them.
pub open spec fn lines(s: Seq<char>) -> Seq<Seq<char>> {
    lines_from(s, seq![])
}

/// Whitespace tokenization as `str::split_whitespace` does it, with `cur` the
/// token read so far.
pub open spec fn tokens_from(s: Seq<char>, cur: Seq<char>) -> Seq<Seq<char>>
    decreases s.len(),
{
    if s.len() == 0 {
        if cur.len() > 0 {
            seq![cur]
        } else {
            seq![]
        }
    } else if is_ws(s[0]) {
        (if cur.len() > 0 {
            seq![cur]
        } else {
            seq![]
        }) + tokens_from(s.drop_first(), seq![])
    } else {
        tokens_from(s.drop_first(), cur.push(s[0]))
    }
}

/// The whitespace-separated tokens of `s`.
pub open spec fn tokens(s: Seq<char>) -> Seq<Seq<char>> {
    tokens_from(s, seq![])
}

/// The text of each span of `cs`.
pub open spec fn span_texts(cs: Seq<char>, spans: Seq<Span>) -> Seq<Seq<char>> {
    spans.map_values(|sp: Span| cs.subrange(sp.0 as int, sp.1 as int))
}

/// Every span lies inside `cs`.
pub open spec fn spans_in(cs: Seq<char>, spans: Seq<Span>) -> bool {
    forall|i: int| 0 <= i < spans.len() ==> #[trigger] spans[i].0 <= spans[i].1 <= cs.len()
}

/// The characters of `s`, scanned once.
pub fn chars_of(s: &str) -> (r: Vec<char>)
    ensures
        r@ == s@,
{
    let mut v: Vec<char> = Vec::new();
    for c in it: s.chars()
        invariant
            it.seq() == s@,
            v@ == it.seq().take(it.index() as int),
    {
        v.push(c);
        assert(v@ =~= it.seq().take(it.index() + 1));
    }
    assert(v@ =~= s@);
    v
}

/// An owned copy of the characters `cs[lo..hi]`, where `cs` is the scan of `src`.
pub fn slice_string(src: &str, cs: &Vec<char>, lo: usize, hi: usize) -> (r: String)
    requires
        cs@ == src@,
        lo <= hi <= cs@.len(),
    ensures
        r@ == cs@.subrange(lo as int, hi as int),
{
    String::from_str(src.substring_char(lo, hi))
}

proof fn lemma_trim_start_subrange(cs: Seq<char>, lo: int, hi: int)
    requires
        0 <= lo < hi <= cs.len(),
        is_ws(cs[lo]),
    ensures
        trim_start(cs.subrange(lo, hi)) == trim_start(cs.subrange(lo + 1, hi)),
{
    assert(cs.subrange(lo, hi).drop_first() =~= cs.subrange(lo + 1, hi));
}

proof fn lemma_trim_end_subrange(cs: Seq<char>, lo: int, hi: int)
    requires
        0 <= lo < hi <= cs.len(),
        is_ws(cs[hi - 1]),
    ensures
        trim_end(cs.subrange(lo, hi)) == trim_end(cs.subrange(lo, hi - 1)),
{
    assert(cs.subrange(lo, hi).drop_last() =~= cs.subrange(lo, hi - 1));
}

/// The span of `trim(cs[lo..hi])`.
pub fn trim_span(cs: &Vec<char>, lo: usize, hi: usize) -> (r: Span)
    requires
        lo <= hi <= cs@.len(),
    ensures
        lo <= r.0 <= r.1 <= hi,
        cs@.subrange(r.0 as int, r.1 as int) == trim(cs@.subrange(lo as int, hi as int)),
{
    let mut a = lo;
    while a < hi && is_ws_char(cs[a])
        invariant
            lo <= a <= hi <= cs@.len(),
            trim_start(cs@.subrange(lo as int, hi as int)) == trim_start(
                cs@.subrange(a as int, hi as int),
            ),
        decreases hi - a,
    {
        proof {
            lemma_trim_start_subrange(cs@, a as int, hi as int);
        }
        a = a + 1;
    }
    let ghost t = cs@.subrange(a as int, hi as int);
    assert(trim_start(t) == t);
    let mut b = hi;
    while b > a && is_ws_char(cs[b - 1])
        invariant
            lo <= a <= b <= hi <= cs@.len(),
            trim_end(t) == trim_end(cs@.subrange(a as int, b as int)),
        decreases b - a,
    {
        proof {
            lemma_trim_end_subrange(cs@, a as int, b as int);
        }
        b = b - 1;
    }
    assert(trim_end(cs@.subrange(a as int, b as int)) == cs@.subrange(a as int, b as int));
    (a, b)
}

/// The spans of `lines(cs)`.
pub fn line_spans(cs: &Vec<char>) -> (r: Vec<Span>)
    ensures
        spans_in(cs@, r@),
        span_texts(cs@, r@) == lines(cs@),
{
    let mut out: Vec<Span> = Vec::new();
    let mut start: usize = 0;
    let mut i: usize = 0;
    let n = cs.len();
    assert(cs@.skip(0) =~= cs@);
    assert(cs@.subrange(0, 0) =~= Seq::<char>::empty());
    assert(span_texts(cs@, out@) + lines(cs@) =~= lines(cs@));
    while i < n
        invariant
            n == cs@.len(),
            start <= i <= n,
            spans_in(cs@, out@),
            span_texts(cs@, out@) + lines_from(
                cs@.skip(i as int),
                cs@.subrange(start as int, i as int),
            ) == lines(cs@),
        decreases n - i,
    {
        let ghost prev = span_texts(cs@, out@);
        let ghost cur = cs@.subrange(start as int, i as int);
        assert(cs@.skip(i as int).drop_first() =~= cs@.skip(i + 1));
        if cs[i] == '\n' {
            let mut end = i;
            if end > start && cs[end - 1] == '\r' {
                end = end - 1;
            }
            assert(cs@.subrange(start as int, end as int) =~= strip_cr(cur));
            out.push((start, end));
            assert(span_texts(cs@, out@) =~= prev + seq![strip_cr(cur)]);
            assert(cs@.subrange((i + 1) as int, (i + 1) as int) =~= Seq::<char>::empty());
            start = i + 1;
        } else {
            assert(cur.push(cs@[i as int]) =~= cs@.subrange(start as int, i + 1));
        }
        i = i + 1;
    }
    let ghost cur = cs@.subrange(start as int, n as int);
    let ghost prev = span_texts(cs@, out@);
    assert(cs@.skip(n as int) =~= Seq::<char>::empty());
    if start < n {
        out.push((start, n));
        assert(span_texts(cs@, out@) =~= prev + seq![cur]);
    } else {
        assert(prev + seq![] =~= prev);
    }
    out
}

/// The spans of `tokens(cs[lo..hi])`.
pub fn token_spans(cs: &Vec<char>, lo: usize, hi: usize) -> (r: Vec<Span>)
    requires
        lo <= hi <= cs@.len(),
    ensures
        spans_in(cs@, r@),
        span_texts(cs@, r@) == tokens(cs@.subrange(lo as int, hi as int)),
        forall|k: int| 0 <= k < r@.len() ==> lo <= #[trigger] r@[k].0 && r@[k].1 <= hi,
{
    let ghost s = cs@.subrange(lo as int, hi as int);
    let mut out: Vec<Span> = Vec::new();
    let mut start: usize = lo;
    let mut i: usize = lo;
    assert(s.skip(0) =~= s);
    assert(cs@.subrange(lo as int, lo as int) =~= Seq::<char>::empty());
    assert(span_texts(cs@, out@) + tokens(s) =~= tokens(s));
    while i < hi
        invariant
            lo <= start <= i <= hi <= cs@.len(),
            s == cs@.subrange(lo as int, hi as int),
            spans_in(cs@, out@),
            forall|k: int| 0 <= k < out@.len() ==> lo <= #[trigger] out@[k].0 && out@[k].1 <= hi,
            span_texts(cs@, out@) + tokens_from(
                s.skip(i - lo),
                cs@.subrange(start as int, i as int),
            ) == tokens(s),
        decreases hi - i,
    {
        let ghost prev = span_texts(cs@, out@);
        let ghost cur = cs@.subrange(start as int, i as int);
        assert(s.skip(i - lo).drop_first() =~= s.skip(i + 1 - lo));
        assert(s.skip(i - lo)[0] == cs@[i as int]);
        if is_ws_char(cs[i]) {
            if start < i {
                let ghost old_out = out@;
                out.push((start, i));
                assert(span_texts(cs@, out@) =~= prev + seq![cur]);
                assert forall|k: int| 0 <= k < out@.len() implies lo <= #[trigger] out@[k].0 && out@[k].1 <= hi by {
                    if k < old_out.len() {
                        assert(out@[k] == old_out[k]);
                    }
                }
            } else {
                assert(prev + seq![] =~= prev);
            }
            assert(cs@.subrange((i + 1) as int, (i + 1) as int) =~= Seq::<char>::empty());
            start = i + 1;
            assert(span_texts(cs@, out@) + tokens_from(
                s.skip(i + 1 - lo),
                cs@.subrange(start as int, (i + 1) as int),
            ) =~= tokens(s));
        } else {
            assert(cur.push(cs@[i as int]) =~= cs@.subrange(start as int, i + 1));
        }
        assert(forall|k: int| 0 <= k < out@.len() ==> lo <= #[trigger] out@[k].0 && out@[k].1 <= hi);
        i = i + 1;
    }
    let ghost cur = cs@.subrange(start as int, hi as int);
    let ghost prev = span_texts(cs@, out@);
    assert(s.skip(hi - lo) =~= Seq::<char>::empty());
    if start < hi {
        let ghost old_out = out@;
        out.push((start, hi));
        assert(span_texts(cs@, out@) =~= prev + seq![cur]);
        assert forall|k: int| 0 <= k < out@.len() implies lo <= #[trigger] out@[k].0 && out@[k].1 <= hi by {
            if k < old_out.len() {
                assert(out@[k] == old_out[k]);
            }
        }
    } else {
        assert(prev + seq![] =~= prev);
    }
    out
}

/// Does `cs[lo..hi]` equal `lit`?
pub fn span_eq(cs: &Vec<char>, lo: usize, hi: usize, lit: &str) -> (r: bool)
    requires
        lo <= hi <= cs@.len(),
    ensures
        r == (cs@.subrange(lo as int, hi as int) == lit@),
{
    let n = lit.unicode_len();
    if hi - lo != n {
        return false;
    }
    let mut j: usize = 0;
    while j < n
        invariant
            n == lit@.len(),
            hi - lo == n,
            lo <= hi <= cs@.len(),
            j <= n,
            forall|k: int| 0 <= k < j ==> cs@[lo + k] == lit@[k],
        decreases n - j,
    {
        if cs[lo + j] != lit.get_char(j) {
            assert(cs@.subrange(lo as int, hi as int)[j as int] != lit@[j as int]);
            return false;
        }
        j = j + 1;
    }
    assert(cs@.subrange(lo as int, hi as int) =~= lit@);
    true
}

/// Do two strings hold the same characters?
pub fn str_eq(a: &str, b: &str) -> (r: bool)
    ensures
        r == (a@ == b@),
{
    let cs = chars_of(a);
    assert(cs@.subrange(0, cs@.len() as int) =~= a@);
    span_eq(&cs, 0, cs.len(), b)
}

/// Does `s` begin with `lit`?
pub fn str_starts_with(s: &str, lit: &str) -> (r: bool)
    ensures
        r == starts_with(s@, lit@),
{
    let cs = chars_of(s);
    assert(cs@.subrange(0, cs@.len() as int) =~= s@);
    span_starts_with(&cs, 0, cs.len(), lit)
}

/// Index of the first whitespace character of `s`, or `s.len()` when none.
pub open spec fn first_ws(s: Seq<char>) -> int
    decreases s.len(),
{
    if s.len() == 0 {
        0
    } else if is_ws(s[0]) {
        0
    } else {
        1 + first_ws(s.drop_first())
    }
}

/// Index (absolute) of the first whitespace character of `cs[lo..hi]`, or
/// `hi` when none.
pub fn find_ws(cs: &Vec<char>, lo: usize, hi: usize) -> (r: usize)
    requires
        lo <= hi <= cs@.len(),
    ensures
        lo <= r <= hi,
        r - lo == first_ws(cs@.subrange(lo as int, hi as int)),
{
    let mut i = lo;
    while i < hi
        invariant
            lo <= i <= hi <= cs@.len(),
            first_ws(cs@.subrange(lo as int, hi as int)) == (i - lo) + first_ws(
                cs@.subrange(i as int, hi as int),
            ),
        decreases hi - i,
    {
        if is_ws_char(cs[i]) {
            return i;
        }
        assert(cs@.subrange(i as int, hi as int).drop_first() =~= cs@.subrange(i + 1, hi as int));
        i = i + 1;
    }
    i
}

/// Start (absolute) of `trim_start(cs[lo..hi])`.
pub fn skip_ws(cs: &Vec<char>, lo: usize, hi: usize) -> (r: usize)
    requires
        lo <= hi <= cs@.len(),
    ensures
        lo <= r <= hi,
        cs@.subrange(r as int, hi as int) == trim_start(cs@.subrange(lo as int, hi as int)),
{
    let mut i = lo;
    while i < hi && is_ws_char(cs[i])
        invariant
            lo <= i <= hi <= cs@.len(),
            trim_start(cs@.subrange(lo as int, hi as int)) == trim_start(cs@.subrange(i as int, hi as int)),
        decreases hi - i,
    {
        assert(cs@.subrange(i as int, hi as int).drop_first() =~= cs@.subrange(i + 1, hi as int));
        i = i + 1;
    }
    i
}

/// Does `cs[lo..hi]` begin with `lit`?
pub fn span_starts_with(cs: &Vec<char>, lo: usize, hi: usize, lit: &str) -> (r: bool)
    requires
        lo <= hi <= cs@.len(),
    ensures
        r == starts_with(cs@.subrange(lo as int, hi as int), lit@),
{
    let n = lit.unicode_len();
    if hi - lo < n {
        return false;
    }
    let r = span_eq(cs, lo, lo + n, lit);
    assert(cs@.subrange(lo as int, hi as int).take(n as int) =~= cs@.subrange(
        lo as int,
        (lo + n) as int,
    ));
    r
}

/// Index (absolute) of the first `c` in `cs[lo..hi]`, or `hi` when absent.
pub fn find_char(cs: &Vec<char>, lo: usize, hi: usize, c: char) -> (r: usize)
    requires
        lo <= hi <= cs@.len(),
    ensures
        lo <= r <= hi,
        r - lo == first_index(cs@.subrange(lo as int, hi as int), c),
{
    let mut i = lo;
    while i < hi
        invariant
            lo <= i <= hi <= cs@.len(),
            first_index(cs@.subrange(lo as int, hi as int), c) == (i - lo) + first_index(
                cs@.subrange(i as int, hi as int),
                c,
            ),
        decreases hi - i,
    {
        if cs[i] == c {
            return i;
        }
        assert(cs@.subrange(i as int, hi as int).drop_first() =~= cs@.subrange(
            i + 1,
            hi as int,
        ));
        i = i + 1;
    }
    i
}

/// A non-empty run of non-whitespace characters.
pub open spec fn is_word(w: Seq<char>) -> bool {
    w.len() > 0 && forall|i: int| 0 <= i < w.len() ==> !is_ws(#[trigger] w[i])
}

proof fn lemma_tokens_word_then(w: Seq<char>, rest: Seq<char>, k: int)
    requires
        is_word(w),
        0 <= k <= w.len(),
    ensures
        tokens_from(w.skip(k) + seq![' '] + rest, w.take(k)) == seq![w] + tokens_from(
            rest,
            seq![],
        ),
    decreases w.len() - k,
{
    let s = w.skip(k) + seq![' '] + rest;
    if k == w.len() {
        assert(s[0] == ' ');
        assert(is_ws(' '));
        assert(s.drop_first() =~= rest);
        assert(w.take(k) =~= w);
    } else {
        assert(s[0] == w[k]);
        assert(s.drop_first() =~= w.skip(k + 1) + seq![' '] + rest);
        assert(w.take(k).push(w[k]) =~= w.take(k + 1));
        lemma_tokens_word_then(w, rest, k + 1);
    }
}

proof fn lemma_tokens_word_last(w: Seq<char>, k: int)
    requires
        is_word(w),
        0 <= k <= w.len(),
    ensures
        tokens_from(w.skip(k), w.take(k)) == seq![w],
    decreases w.len() - k,
{
    if k == w.len() {
        assert(w.skip(k) =~= Seq::<char>::empty());
        assert(w.take(k) =~= w);
    } else {
        assert(w.skip(k)[0] == w[k]);
        assert(w.skip(k).drop_first() =~= w.skip(k + 1));
        assert(w.take(k).push(w[k]) =~= w.take(k + 1));
        lemma_tokens_word_last(w, k + 1);
    }
}

/// A word followed by a space and more text tokenizes as that word, then the
/// tokens of the rest.
pub proof fn lemma_tokens_word_space(w: Seq<char>, rest: Seq<char>)
    requires
        is_word(w),
    ensures
        tokens(w + seq![' '] + rest) == seq![w] + tokens(rest),
{
    lemma_tokens_word_then(w, rest, 0);
    assert(w.skip(0) =~= w);
    assert(w.take(0) =~= Seq::<char>::empty());
}

/// A single word tokenizes as itself.
pub proof fn lemma_tokens_word(w: Seq<char>)
    requires
        is_word(w),
    ensures
        tokens(w) == seq![w],
{
    lemma_tokens_word_last(w, 0);
    assert(w.skip(0) =~= w);
    assert(w.take(0) =~= Seq::<char>::empty());
}

} // verus!
