//! Caller-environment resolution shared by the CLI and MCP surfaces: the repo
//! name from a git toplevel or the working directory, and the `instance`
//! identity key from the explicit `--as` label, the environment, or a
//! per-process floor.
use vstd::prelude::*;
use crate::reconcile::opt_str_view;
use crate::text::{chars_of, slice_string, trim, trim_span};

verus! {

/// The pieces of a path between its `/` separators (empty pieces included).
pub open spec fn segments(p: Seq<char>) -> Seq<Seq<char>>
    decreases p.len(),
{
    if p.len() == 0 {
        seq![Seq::empty()]
    } else {
        let s = segments(p.drop_last());
        if p.last() == '/' {
            s.push(Seq::empty())
        } else {
            s.update(s.len() - 1, s.last().push(p.last()))
        }
    }
}

/// A piece that names a component: not empty and not `.` (both are
/// normalized away).
pub open spec fn names_component(seg: Seq<char>) -> bool {
    seg.len() > 0 && seg != "."@
}

/// The last piece that names a component.
pub open spec fn last_component(segs: Seq<Seq<char>>) -> Option<Seq<char>>
    decreases segs.len(),
{
    if segs.len() == 0 {
        None
    } else if names_component(segs.last()) {
        Some(segs.last())
    } else {
        last_component(segs.drop_last())
    }
}

/// `Path::file_name`: the final component of the path, unless there is none
/// or it is `..`.
pub open spec fn spec_file_name(p: Seq<char>) -> Option<Seq<char>> {
    match last_component(segments(p)) {
        Some(s) => if s == ".."@ {
            None
        } else {
            Some(s)
        },
        None => None,
    }
}

proof fn lemma_segments_nonempty(p: Seq<char>)
    ensures
        segments(p).len() >= 1,
    decreases p.len(),
{
    if p.len() > 0 {
        lemma_segments_nonempty(p.drop_last());
    }
}

/// The basename of a path: its final component, when it has one that is
/// not `..`.
pub fn basename(path: &str) -> (r: Option<String>)
    ensures
        r matches Some(s) ==> spec_file_name(path@) == Some(s@),
        r is None ==> spec_file_name(path@) is None,
{
    let cs = chars_of(path);
    let n = cs.len();
    let mut cur: usize = 0;
    let mut best: Option<(usize, usize)> = None;
    let mut i: usize = 0;
    proof {
        assert(cs@.take(0) =~= Seq::<char>::empty());
        assert(segments(cs@.take(0)).drop_last() =~= Seq::<Seq<char>>::empty());
    }
    while i < n
        invariant
            n == cs@.len(),
            cur <= i <= n,
            segments(cs@.take(i as int)).len() >= 1,
            segments(cs@.take(i as int)).last() == cs@.subrange(cur as int, i as int),
            match best {
                Some(sp) => sp.0 <= sp.1 <= cur && last_component(
                    segments(cs@.take(i as int)).drop_last(),
                ) == Some(cs@.subrange(sp.0 as int, sp.1 as int)),
                None => last_component(segments(cs@.take(i as int)).drop_last()) is None,
            },
        decreases n - i,
    {
        let ghost pre = cs@.take(i as int);
        let ghost segs = segments(pre);
        proof {
            assert(cs@.take(i + 1).drop_last() =~= pre);
            lemma_segments_nonempty(pre);
        }
        if cs[i] == '/' {
            let seg_is_name = cur < i && !(i - cur == 1 && cs[cur] == '.');
            proof {
                let seg = cs@.subrange(cur as int, i as int);
                assert(segments(cs@.take(i + 1)) == segs.push(Seq::empty()));
                assert(segs.push(Seq::empty()).drop_last() =~= segs);
                reveal_strlit(".");
                assert("."@ =~= seq!['.']);
                if i - cur == 1 {
                    assert(seg =~= seq![cs@[cur as int]]);
                    if cs@[cur as int] != '.' {
                        assert(seg[0] != "."@[0]);
                    }
                } else if i - cur > 1 {
                    assert(seg.len() != "."@.len());
                }
                assert(seg_is_name == names_component(seg));
                assert(segs.drop_last() == segs.subrange(0, segs.len() - 1));
            }
            if seg_is_name {
                best = Some((cur, i));
            }
            cur = i + 1;
            proof {
                assert(cs@.subrange(cur as int, i + 1) =~= Seq::<char>::empty());
            }
        } else {
            proof {
                let s2 = segs.update(segs.len() - 1, segs.last().push(cs@[i as int]));
                assert(segments(cs@.take(i + 1)) == s2);
                assert(s2.drop_last() =~= segs.drop_last());
                assert(cs@.subrange(cur as int, i + 1) =~= cs@.subrange(cur as int, i as int).push(
                    cs@[i as int],
                ));
            }
        }
        i = i + 1;
    }
    proof {
        assert(cs@.take(n as int) =~= path@);
    }
    let last_is_name = cur < n && !(n - cur == 1 && cs[cur] == '.');
    proof {
        let seg = cs@.subrange(cur as int, n as int);
        reveal_strlit(".");
        assert("."@ =~= seq!['.']);
        if n - cur == 1 {
            assert(seg =~= seq![cs@[cur as int]]);
            if cs@[cur as int] != '.' {
                assert(seg[0] != "."@[0]);
            }
        } else if n - cur > 1 {
            assert(seg.len() != "."@.len());
        }
        assert(last_is_name == names_component(seg));
    }
    let span = if last_is_name {
        Some((cur, n))
    } else {
        best
    };
    match span {
        Some(sp) => {
            let is_parent = sp.1 - sp.0 == 2 && cs[sp.0] == '.' && cs[sp.0 + 1] == '.';
            proof {
                reveal_strlit("..");
                assert(".."@ =~= seq!['.', '.']);
                let seg = cs@.subrange(sp.0 as int, sp.1 as int);
                if sp.1 - sp.0 == 2 {
                    assert(seg =~= seq![cs@[sp.0 as int], cs@[sp.0 + 1]]);
                }
                assert(is_parent == (seg == ".."@));
            }
            if is_parent {
                None
            } else {
                Some(slice_string(path, &cs, sp.0, sp.1))
            }
        },
        None => None,
    }
}

/// The repo name: the basename of the git toplevel, else of the working
/// directory, else the literal `repo`.
pub open spec fn spec_repo_from(git_toplevel: Option<Seq<char>>, cwd: Seq<char>) -> Seq<char> {
    match git_toplevel {
        Some(g) if spec_file_name(g) is Some => spec_file_name(g)->Some_0,
        _ => match spec_file_name(cwd) {
            Some(c) => c,
            None => "repo"@,
        },
    }
}

/// Resolve the repo name from a (possibly absent) git toplevel and the cwd.
pub fn repo_from(git_toplevel: Option<String>, cwd: &str) -> (r: String)
    ensures
        r@ == spec_repo_from(git_toplevel.deep_view(), cwd@),
{
    match &git_toplevel {
        Some(g) => match basename(g.as_str()) {
            Some(b) => {
                return b;
            },
            None => {},
        },
        None => {},
    }
    match basename(cwd) {
        Some(c) => c,
        None => String::from_str("repo"),
    }
}

/// The identity key: the first of the explicit label, `CBC_INSTANCE` and the
/// session id that is not blank, trimmed; else the per-process floor.
pub open spec fn spec_resolve_instance(
    explicit: Option<Seq<char>>,
    cbc_instance: Option<Seq<char>>,
    session_id: Option<Seq<char>>,
    floor: Seq<char>,
) -> Seq<char> {
    match explicit {
        Some(e) if trim(e).len() > 0 => trim(e),
        _ => match cbc_instance {
            Some(c) if trim(c).len() > 0 => trim(c),
            _ => match session_id {
                Some(s) if trim(s).len() > 0 => trim(s),
                _ => floor,
            },
        },
    }
}

fn trimmed(s: &str) -> (r: String)
    ensures
        r@ == trim(s@),
{
    let cs = chars_of(s);
    let n = cs.len();
    assert(cs@.subrange(0, n as int) =~= s@);
    let sp = trim_span(&cs, 0, n);
    slice_string(s, &cs, sp.0, sp.1)
}

/// Resolve the instance key from its candidate sources (see
/// `spec_resolve_instance`).
pub fn resolve_instance(
    explicit: Option<&str>,
    cbc_instance: Option<&str>,
    session_id: Option<&str>,
    floor: &str,
) -> (r: String)
    ensures
        r@ == spec_resolve_instance(
            opt_str_view(explicit),
            opt_str_view(cbc_instance),
            opt_str_view(session_id),
            floor@,
        ),
{
    if let Some(e) = explicit {
        let t = trimmed(e);
        if t.unicode_len() > 0 {
            return t;
        }
    }
    if let Some(c) = cbc_instance {
        let t = trimmed(c);
        if t.unicode_len() > 0 {
            return t;
        }
    }
    if let Some(sid) = session_id {
        let t = trimmed(sid);
        if t.unicode_len() > 0 {
            return t;
        }
    }
    String::from_str(floor)
}

/// The resolved identity key is never blank when the floor is not.
pub proof fn law_instance_is_never_empty(
    explicit: Option<Seq<char>>,
    cbc_instance: Option<Seq<char>>,
    session_id: Option<Seq<char>>,
    floor: Seq<char>,
)
    requires
        floor.len() > 0,
    ensures
        spec_resolve_instance(explicit, cbc_instance, session_id, floor).len() > 0,
{
}

/// A path printed by a helper command (`git rev-parse --show-toplevel`,
/// `which`): the output trimmed, when anything is left.
pub open spec fn spec_printed_path(output: Seq<char>) -> Option<Seq<char>> {
    if trim(output).len() == 0 {
        None
    } else {
        Some(trim(output))
    }
}

/// Read a path printed by a helper command (see `spec_printed_path`).
pub fn printed_path(output: &str) -> (r: Option<String>)
    ensures
        r.deep_view() == spec_printed_path(output@),
{
    let t = trimmed(output);
    if t.unicode_len() == 0 {
        None
    } else {
        Some(t)
    }
}

} // verus!
