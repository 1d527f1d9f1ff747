//! Which files of a `.cbc/` directory the hooks read, and in what order: the
//! `.md` files, sorted by name, so every scan is deterministic.
use vstd::prelude::*;

verus! {

/// `a` sorts strictly before `b`, character by character (for UTF-8 text,
/// the same order as comparing the bytes).
pub open spec fn lex_lt(a: Seq<char>, b: Seq<char>) -> bool
    decreases a.len(),
{
    if a.len() == 0 {
        b.len() > 0
    } else if b.len() == 0 {
        false
    } else if a[0] != b[0] {
        (a[0] as u32) < (b[0] as u32)
    } else {
        lex_lt(a.drop_first(), b.drop_first())
    }
}

proof fn lemma_lex_asym(a: Seq<char>, b: Seq<char>)
    ensures
        !(lex_lt(a, b) && lex_lt(b, a)),
    decreases a.len(),
{
    if a.len() > 0 && b.len() > 0 && a[0] == b[0] {
        lemma_lex_asym(a.drop_first(), b.drop_first());
    }
}

proof fn lemma_lex_trans(a: Seq<char>, b: Seq<char>, c: Seq<char>)
    requires
        lex_lt(a, b),
        lex_lt(b, c),
    ensures
        lex_lt(a, c),
    decreases a.len(),
{
    if a.len() > 0 && b.len() > 0 && c.len() > 0 && a[0] == b[0] && b[0] == c[0] {
        lemma_lex_trans(a.drop_first(), b.drop_first(), c.drop_first());
    }
}

/// Is `a` strictly before `b` (see `lex_lt`)?
pub fn str_lt(a: &str, b: &str) -> (r: bool)
    ensures
        r == lex_lt(a@, b@),
{
    let x = crate::text::chars_of(a);
    let y = crate::text::chars_of(b);
    let mut i: usize = 0;
    assert(a@.skip(0) =~= a@);
    assert(b@.skip(0) =~= b@);
    while i < x.len() && i < y.len() && x[i] == y[i]
        invariant
            x@ == a@,
            y@ == b@,
            i <= x@.len(),
            i <= y@.len(),
            lex_lt(a@, b@) == lex_lt(a@.skip(i as int), b@.skip(i as int)),
        decreases x@.len() - i,
    {
        assert(a@.skip(i as int).drop_first() =~= a@.skip(i + 1));
        assert(b@.skip(i as int).drop_first() =~= b@.skip(i + 1));
        i = i + 1;
    }
    if i == x.len() {
        i < y.len()
    } else if i == y.len() {
        false
    } else {
        assert(a@.skip(i as int)[0] == x@[i as int]);
        assert(b@.skip(i as int)[0] == y@[i as int]);
        (x[i] as u32) < (y[i] as u32)
    }
}

/// A file name whose extension is `md`: it ends in `.md` with a non-empty
/// stem before the dot.
pub open spec fn is_md_name(name: Seq<char>) -> bool {
    name.len() > 3 && name.subrange(name.len() - 3, name.len() as int) == ".md"@
}

/// Does `name` have the `md` extension?
pub fn md_name(name: &str) -> (r: bool)
    ensures
        r == is_md_name(name@),
{
    let n = name.unicode_len();
    if n <= 3 {
        return false;
    }
    let tail = name.substring_char(n - 3, n);
    crate::text::str_eq(tail, ".md")
}

/// Names in order: nothing sorts after a later one.
pub open spec fn sorted_names(s: Seq<String>) -> bool {
    forall|i: int, j: int| 0 <= i < j < s.len() ==> !lex_lt(#[trigger] s[j]@, #[trigger] s[i]@)
}

/// The `md` names among `names`, in their original order.
pub open spec fn md_names(names: Seq<String>) -> Seq<String>
    decreases names.len(),
{
    if names.len() == 0 {
        seq![]
    } else if is_md_name(names.last()@) {
        md_names(names.drop_last()).push(names.last())
    } else {
        md_names(names.drop_last())
    }
}

proof fn lemma_empty_to_multiset(s: Seq<String>)
    requires
        s.len() == 0,
    ensures
        s.to_multiset() == vstd::multiset::Multiset::<String>::empty(),
{
    broadcast use vstd::seq_lib::group_to_multiset_ensures;
    broadcast use vstd::multiset::group_multiset_properties;

    assert(s.to_multiset().len() == 0);
}

/// The `.md` file names of a directory listing, sorted by name: the same
/// names, each as often as listed, in order.
pub fn md_names_in_order(names: Vec<String>) -> (r: Vec<String>)
    ensures
        r@.to_multiset() == md_names(names@).to_multiset(),
        sorted_names(r@),
{
    let mut names = names;
    let ghost all = names@;
    let mut out: Vec<String> = Vec::new();
    proof {
        assert(all.take(all.len() as int) =~= all);
        lemma_empty_to_multiset(out@);
    }
    while names.len() > 0
        invariant
            names@ == all.take(names@.len() as int),
            names@.len() <= all.len(),
            out@.to_multiset().add(md_names(names@).to_multiset()) == md_names(all).to_multiset(),
            sorted_names(out@),
        decreases names@.len(),
    {
        let ghost before = names@;
        let name = names.pop().unwrap();
        proof {
            assert(names@ =~= all.take(names@.len() as int));
            assert(before.drop_last() =~= names@);
        }
        if md_name(name.as_str()) {
            let mut p: usize = 0;
            while p < out.len() && !str_lt(name.as_str(), out[p].as_str())
                invariant
                    p <= out@.len(),
                    forall|k: int| 0 <= k < p ==> !lex_lt(name@, #[trigger] out@[k]@),
                decreases out@.len() - p,
            {
                p = p + 1;
            }
            let ghost old_out = out@;
            proof {
                assert forall|j: int| p <= j < old_out.len() implies !lex_lt(#[trigger] old_out[j]@, name@) by {
                    lemma_lex_asym(name@, old_out[p as int]@);
                    if lex_lt(old_out[j]@, name@) {
                        lemma_lex_trans(old_out[j]@, name@, old_out[p as int]@);
                    }
                }
            }
            out.insert(p, name);
            proof {
                vstd::seq_lib::to_multiset_insert(old_out, p as int, name);
                assert forall|i: int, j: int| 0 <= i < j < out@.len() implies !lex_lt(#[trigger] out@[j]@, #[trigger] out@[i]@) by {
                    if j < p {
                        assert(out@[i] == old_out[i] && out@[j] == old_out[j]);
                    } else if j == p {
                        assert(out@[i] == old_out[i]);
                    } else if i < p {
                        assert(out@[i] == old_out[i] && out@[j] == old_out[j - 1]);
                    } else if i == p {
                        assert(out@[j] == old_out[j - 1]);
                    } else {
                        assert(out@[i] == old_out[i - 1] && out@[j] == old_out[j - 1]);
                    }
                }
                assert(md_names(before) == md_names(names@).push(name));
                vstd::seq_lib::to_multiset_build(md_names(names@), name);
                assert(out@.to_multiset().add(md_names(names@).to_multiset()) =~= md_names(
                    all,
                ).to_multiset());
            }
        } else {
            assert(md_names(before) == md_names(names@));
        }
    }
    proof {
        assert(md_names(names@) =~= Seq::<String>::empty());
        lemma_empty_to_multiset(md_names(names@));
        assert(out@.to_multiset().add(vstd::multiset::Multiset::<String>::empty()) =~= out@.to_multiset());
    }
    out
}

} // verus!
