//! The Stop-hook poll reconcile: converge each declared connection to exactly
//! one live, identity-scoped `cbc poll`, and the non-blocking advisory it
//! surfaces when a poll is owed.
use vstd::prelude::*;
use crate::hook::{
    ConnectionView, DeclaredConnection, conns_view, declared_connections, spec_declared,
};
use crate::json::{json_quoted, json_string_literal};
use crate::statefile::{
    is_active, owner_session, position_of, sp_text, spec_is_active, spec_owner_session,
};
use crate::text::{is_ws, 
    Span, chars_of, is_word, lemma_tokens_word, lemma_tokens_word_space, span_eq, span_texts,
    spans_in, token_spans, tokens,
};

verus! {

/// What the reconcile must do for one declared connection.
#[derive(Debug, PartialEq, Eq, Clone, Copy)]
pub enum ReconcileAction {
    /// Exactly one healthy poll (or one launched this turn): leave it alone.
    Healthy,
    /// More than one: the hook kills the surplus itself.
    KillExtras,
    /// None, and none launched this turn: surface a non-blocking relaunch hint.
    AdviseRelaunch,
}

/// The reconcile decision for `n` live polls.
pub open spec fn spec_reconcile(n: usize, launched_this_turn: bool) -> ReconcileAction {
    if n == 1 {
        ReconcileAction::Healthy
    } else if n == 0 {
        if launched_this_turn {
            ReconcileAction::Healthy
        } else {
            ReconcileAction::AdviseRelaunch
        }
    } else {
        ReconcileAction::KillExtras
    }
}

/// The pure reconcile decision. `n` counts the live polls matching the
/// connection's `{room, identity}`; `launched_this_turn` covers the race window
/// in which a brand-new poll is not yet visible in the process table.
pub fn reconcile_action(n: usize, launched_this_turn: bool) -> (r: ReconcileAction)
    ensures
        r == spec_reconcile(n, launched_this_turn),
{
    if n == 1 {
        ReconcileAction::Healthy
    } else if n == 0 {
        if launched_this_turn {
            ReconcileAction::Healthy
        } else {
            ReconcileAction::AdviseRelaunch
        }
    } else {
        ReconcileAction::KillExtras
    }
}

pub open spec fn opt_str_view(o: Option<&str>) -> Option<Seq<char>> {
    match o {
        Some(s) => Some(s@),
        None => None,
    }
}

/// The canonical `cbc poll` command for a connection.
pub open spec fn spec_poll_command(room: Seq<char>, model: Seq<char>, identity: Option<Seq<char>>) -> Seq<char> {
    "cbc poll "@ + room + " --model "@ + model + match identity {
        Some(id) => " --as "@ + id,
        None => seq![],
    }
}

/// The exact relaunch / declared poll command for a connection: both what the
/// reconcile surfaces and the form a running poll is matched against.
pub fn poll_command(room_id: &str, model: &str, identity: Option<&str>) -> (r: String)
    ensures
        r@ == spec_poll_command(room_id@, model@, opt_str_view(identity)),
{
    let mut s = String::from_str("cbc poll ");
    s.append(room_id);
    s.append(" --model ");
    s.append(model);
    match identity {
        Some(id) => {
            s.append(" --as ");
            s.append(id);
        },
        None => {
            assert(s@ + seq![] =~= s@);
        },
    }
    s
}

/// One identity-scoped kill the reconcile performs itself (surplus polls).
#[derive(Debug, PartialEq, Eq, Clone)]
pub struct KillOrder {
    pub room_id: String,
    pub identity: Option<String>,
}

impl View for KillOrder {
    type V = (Seq<char>, Option<Seq<char>>);

    open spec fn view(&self) -> (Seq<char>, Option<Seq<char>>) {
        (self.room_id@, self.identity.deep_view())
    }
}

/// The reconcile plan for one Stop event: surplus kills to perform now, and the
/// relaunch commands to surface as a non-blocking advisory.
#[derive(Debug, PartialEq, Eq, Clone, Default)]
pub struct StopPlan {
    pub kills: Vec<KillOrder>,
    pub relaunch: Vec<String>,
}

pub struct PlanView {
    pub kills: Seq<(Seq<char>, Option<Seq<char>>)>,
    pub relaunch: Seq<Seq<char>>,
}

impl View for StopPlan {
    type V = PlanView;

    open spec fn view(&self) -> PlanView {
        PlanView {
            kills: self.kills@.map_values(|k: KillOrder| k@),
            relaunch: self.relaunch@.map_values(|s: String| s@),
        }
    }
}

/// The plan for connections `cs` given each one's live-poll count `ns` and
/// launched-this-turn flag `ls`, connection by connection in order.
pub open spec fn spec_plan(cs: Seq<ConnectionView>, ns: Seq<usize>, ls: Seq<bool>) -> PlanView
    decreases cs.len(),
{
    if cs.len() == 0 {
        PlanView { kills: seq![], relaunch: seq![] }
    } else {
        let p = spec_plan(cs.drop_last(), ns.drop_last(), ls.drop_last());
        let c = cs.last();
        match spec_reconcile(ns.last(), ls.last()) {
            ReconcileAction::Healthy => p,
            ReconcileAction::KillExtras => PlanView {
                kills: p.kills.push((c.room_id, c.identity)),
                relaunch: p.relaunch,
            },
            ReconcileAction::AdviseRelaunch => PlanView {
                kills: p.kills,
                relaunch: p.relaunch.push(spec_poll_command(c.room_id, c.model, c.identity)),
            },
        }
    }
}

fn clone_opt(o: &Option<String>) -> (r: Option<String>)
    ensures
        r.deep_view() == o.deep_view(),
{
    match o {
        Some(s) => Some(s.clone()),
        None => None,
    }
}

fn as_opt_str(o: &Option<String>) -> (r: Option<&str>)
    ensures
        opt_str_view(r) == o.deep_view(),
{
    match o {
        Some(s) => Some(s.as_str()),
        None => None,
    }
}

/// The reconcile planner over the declared connections: `counts[i]` is the
/// number of live identity-scoped polls the caller found for connection `i`,
/// `launched[i]` whether a matching poll was launched in the turn that just
/// ended. A surplus is killed (identity-scoped), a dead room with nothing
/// launched gets its relaunch command, in connection order.
pub fn plan_stop(conns: &[DeclaredConnection], counts: &[usize], launched: &[bool]) -> (r: StopPlan)
    requires
        counts@.len() == conns@.len(),
        launched@.len() == conns@.len(),
    ensures
        r@ == spec_plan(conns_view(conns@), counts@, launched@),
{
    let ghost cv = conns_view(conns@);
    let mut plan = StopPlan { kills: Vec::new(), relaunch: Vec::new() };
    let n = conns.len();
    let mut i: usize = 0;
    assert(cv.take(0) =~= Seq::<ConnectionView>::empty());
    assert(plan@.kills =~= Seq::<(Seq<char>, Option<Seq<char>>)>::empty());
    assert(plan@.relaunch =~= Seq::<Seq<char>>::empty());
    while i < n
        invariant
            cv == conns_view(conns@),
            n == conns@.len() == counts@.len() == launched@.len(),
            i <= n,
            plan@ == spec_plan(cv.take(i as int), counts@.take(i as int), launched@.take(i as int)),
        decreases n - i,
    {
        let c = &conns[i];
        proof {
            assert(cv.take(i + 1).drop_last() =~= cv.take(i as int));
            assert(counts@.take(i + 1).drop_last() =~= counts@.take(i as int));
            assert(launched@.take(i + 1).drop_last() =~= launched@.take(i as int));
            assert(cv.take(i + 1).last() == c@);
        }
        let ghost before = plan@;
        match reconcile_action(counts[i], launched[i]) {
            ReconcileAction::Healthy => {},
            ReconcileAction::KillExtras => {
                let k = KillOrder { room_id: c.room_id.clone(), identity: clone_opt(&c.identity) };
                plan.kills.push(k);
                assert(plan@.kills =~= before.kills.push(k@));
                assert(plan@.relaunch =~= before.relaunch);
            },
            ReconcileAction::AdviseRelaunch => {
                let cmd = poll_command(c.room_id.as_str(), c.model.as_str(), as_opt_str(&c.identity));
                plan.relaunch.push(cmd);
                assert(plan@.relaunch =~= before.relaunch.push(cmd@));
                assert(plan@.kills =~= before.kills);
            },
        }
        i = i + 1;
    }
    assert(cv.take(n as int) =~= cv);
    assert(counts@.take(n as int) =~= counts@);
    assert(launched@.take(n as int) =~= launched@);
    plan
}

/// The advisory's lead-in: a held room must always have one standing poll.
pub const ADVISE_LEAD: &'static str = "CBC liveness (advisory) — one or more declared rooms have NO live poll right now and none was launched this turn. A held room must ALWAYS have one standing `cbc poll` running; if you still hold these rooms, relaunch each as a background task now (run_in_background). A timer beat is only a backstop that re-arms a dead standing poll, never a substitute for it. This is a hint, not a block:";

/// The advisory text: the lead-in, then each relaunch command on its own
/// indented line.
pub open spec fn advise_context(cmds: Seq<Seq<char>>) -> Seq<char>
    decreases cmds.len(),
{
    if cmds.len() == 0 {
        ADVISE_LEAD@
    } else {
        advise_context(cmds.drop_last()) + "\n  "@ + cmds.last()
    }
}

/// The Stop-hook output: the advisory rides the non-blocking
/// `hookSpecificOutput.additionalContext` channel, never a top-level `decision`.
pub open spec fn spec_stop_advise_json(cmds: Seq<Seq<char>>) -> Seq<char> {
    "{\"hookSpecificOutput\":{\"additionalContext\":"@ + json_quoted(advise_context(cmds))
        + ",\"hookEventName\":\"Stop\"}}"@
}

/// The Stop-hook advisory JSON: a non-blocking nudge to relaunch absent polls.
pub fn stop_advise_json(relaunch: &[String]) -> (r: String)
    ensures
        r@ == spec_stop_advise_json(relaunch@.map_values(|s: String| s@)),
{
    let ghost cmds = relaunch@.map_values(|s: String| s@);
    let mut ctx = String::from_str(ADVISE_LEAD);
    let n = relaunch.len();
    let mut i: usize = 0;
    assert(cmds.take(0) =~= Seq::<Seq<char>>::empty());
    while i < n
        invariant
            cmds == relaunch@.map_values(|s: String| s@),
            n == relaunch@.len(),
            i <= n,
            ctx@ == advise_context(cmds.take(i as int)),
        decreases n - i,
    {
        ctx.append("\n  ");
        ctx.append(relaunch[i].as_str());
        assert(cmds.take(i + 1).drop_last() =~= cmds.take(i as int));
        i = i + 1;
    }
    assert(cmds.take(n as int) =~= cmds);
    let mut out = String::from_str("{\"hookSpecificOutput\":{\"additionalContext\":");
    let lit = json_string_literal(ctx.as_str());
    out.append(lit.as_str());
    out.append(",\"hookEventName\":\"Stop\"}}");
    out
}

pub open spec fn texts_view(v: Seq<String>) -> Seq<Seq<char>> {
    v.map_values(|s: String| s@)
}

/// A state file contributes to a Stop reconcile when it is `ACTIVE` and, when
/// the session is known, stamped with that session.
pub open spec fn file_in_scope(content: Seq<char>, session: Option<Seq<char>>) -> bool {
    spec_is_active(content) && match session {
        Some(sid) => spec_owner_session(content) == Some(sid),
        None => true,
    }
}

/// Every declared connection of the in-scope files, file by file in order.
pub open spec fn spec_scan_declared(files: Seq<Seq<char>>, session: Option<Seq<char>>) -> Seq<ConnectionView>
    decreases files.len(),
{
    if files.len() == 0 {
        seq![]
    } else {
        spec_scan_declared(files.drop_last(), session) + if file_in_scope(files.last(), session) {
            spec_declared(files.last())
        } else {
            seq![]
        }
    }
}

fn opt_str_eq(a: &Option<String>, b: &str) -> (r: bool)
    ensures
        r == (a.deep_view() == Some(b@)),
{
    match a {
        Some(s) => {
            let t = String::from_str(b);
            *s == t
        },
        None => false,
    }
}

/// Every declared connection across the given state-file contents (already in
/// a deterministic order). With `session_id = Some(sid)` only files stamped
/// `session-id: sid` contribute (unstamped files are skipped: ownership that
/// cannot be proven never nags); with `None` every active file contributes.
pub fn declared_in_files(files: &[String], session_id: Option<&str>) -> (r: Vec<DeclaredConnection>)
    ensures
        conns_view(r@) == spec_scan_declared(texts_view(files@), opt_str_view(session_id)),
{
    let ghost fs = texts_view(files@);
    let mut out: Vec<DeclaredConnection> = Vec::new();
    let n = files.len();
    let mut i: usize = 0;
    assert(fs.take(0) =~= Seq::<Seq<char>>::empty());
    assert(conns_view(out@) =~= Seq::<ConnectionView>::empty());
    while i < n
        invariant
            fs == texts_view(files@),
            n == files@.len(),
            i <= n,
            conns_view(out@) == spec_scan_declared(fs.take(i as int), opt_str_view(session_id)),
        decreases n - i,
    {
        let content = files[i].as_str();
        proof {
            assert(fs.take(i + 1).drop_last() =~= fs.take(i as int));
            assert(fs.take(i + 1).last() == content@);
        }
        let ghost before = conns_view(out@);
        let in_scope = is_active(content) && match session_id {
            Some(sid) => opt_str_eq(&owner_session(content), sid),
            None => true,
        };
        if in_scope {
            let mut add = declared_connections(content);
            let ghost added = conns_view(add@);
            out.append(&mut add);
            assert(conns_view(out@) =~= before + added);
        } else {
            assert(conns_view(out@) =~= before + seq![]);
        }
        i = i + 1;
    }
    assert(fs.take(n as int) =~= fs);
    out
}

/// What a Stop event does: the surplus kills to perform and the advisory (if
/// any) to write.
#[derive(Debug, PartialEq, Eq, Clone)]
pub struct StopOutcome {
    pub kills: Vec<KillOrder>,
    pub advisory: Option<String>,
}

/// An empty payload session id counts as missing.
pub open spec fn effective_session(session_id: Option<&str>) -> Option<Seq<char>> {
    match session_id {
        Some(s) => if s@.len() > 0 {
            Some(s@)
        } else {
            None
        },
        None => None,
    }
}

/// The connections a Stop event probes, in order: those declared by the
/// active `.cbc/` state files, scoped to the payload's session (an empty id
/// counts as missing). The caller probes each once, in this order, for its
/// live-poll count and launched-this-turn flag.
pub fn stop_connections(session_id: Option<&str>, files: &[String]) -> (r: Vec<DeclaredConnection>)
    ensures
        conns_view(r@) == spec_scan_declared(texts_view(files@), effective_session(session_id)),
{
    let sid = match session_id {
        Some(s) => if s.unicode_len() > 0 {
            Some(s)
        } else {
            None
        },
        None => None,
    };
    assert(opt_str_view(sid) == effective_session(session_id));
    declared_in_files(files, sid)
}

/// The Stop-hook reconcile over the probed connections: the surplus kills of
/// the plan, and an advisory only when some room needs a relaunch and the loop
/// guard `stop_hook_active` is clear.
pub fn reconcile_stop(
    stop_hook_active: bool,
    conns: &[DeclaredConnection],
    counts: &[usize],
    launched: &[bool],
) -> (r: StopOutcome)
    requires
        counts@.len() == conns@.len(),
        launched@.len() == conns@.len(),
    ensures
        ({
            let p = spec_plan(conns_view(conns@), counts@, launched@);
            &&& r.kills@.map_values(|k: KillOrder| k@) == p.kills
            &&& r.advisory.deep_view() == if p.relaunch.len() > 0 && !stop_hook_active {
                Some(spec_stop_advise_json(p.relaunch))
            } else {
                None
            }
        }),
{
    let plan = plan_stop(conns, counts, launched);
    let advisory = if plan.relaunch.len() > 0 && !stop_hook_active {
        Some(stop_advise_json(plan.relaunch.as_slice()))
    } else {
        None
    };
    StopOutcome { kills: plan.kills, advisory }
}

// ── Matching a running poll ───────────────────────────────────────────────────

/// The part of a path after its last `/` (the whole path when it has none).
pub open spec fn after_last_slash(a: Seq<char>) -> Seq<char>
    decreases a.len(),
{
    if a.len() == 0 {
        a
    } else if a.last() == '/' {
        seq![]
    } else {
        after_last_slash(a.drop_last()).push(a.last())
    }
}

/// A process command line is a live `cbc poll` for `room`: `argv[0]`'s basename
/// is exactly `cbc` (so a `/bin/zsh -c "cbc poll …"` wrapper never counts),
/// `argv[1]` is `poll`, `argv[2]` is the room, and, when `identity` is given, the
/// first `--as` is followed by exactly that identity.
pub open spec fn spec_poll_matches(cmdline: Seq<char>, room: Seq<char>, identity: Option<Seq<char>>) -> bool {
    let t = tokens(cmdline);
    &&& t.len() >= 3
    &&& after_last_slash(t[0]) == "cbc"@
    &&& t[1] == "poll"@
    &&& t[2] == room
    &&& match identity {
        None => true,
        Some(id) => {
            let p = position_of(t, "--as"@);
            p + 1 < t.len() && t[p + 1] == id
        },
    }
}

/// Start (absolute) of `after_last_slash(cs[lo..hi])`.
fn after_last_slash_start(cs: &Vec<char>, lo: usize, hi: usize) -> (r: usize)
    requires
        lo <= hi <= cs@.len(),
    ensures
        lo <= r <= hi,
        cs@.subrange(r as int, hi as int) == after_last_slash(cs@.subrange(lo as int, hi as int)),
{
    let mut b = hi;
    assert(cs@.subrange(hi as int, hi as int) =~= Seq::<char>::empty());
    assert(after_last_slash(cs@.subrange(lo as int, hi as int)) =~= after_last_slash(
        cs@.subrange(lo as int, hi as int),
    ) + Seq::<char>::empty());
    while b > lo && cs[b - 1] != '/'
        invariant
            lo <= b <= hi <= cs@.len(),
            after_last_slash(cs@.subrange(lo as int, hi as int)) == after_last_slash(
                cs@.subrange(lo as int, b as int),
            ) + cs@.subrange(b as int, hi as int),
        decreases b - lo,
    {
        let ghost pre = cs@.subrange(lo as int, b as int);
        assert(pre.drop_last() =~= cs@.subrange(lo as int, b - 1));
        assert(pre.last() == cs@[b - 1]);
        assert(after_last_slash(pre.drop_last()).push(pre.last()) + cs@.subrange(b as int, hi as int)
            =~= after_last_slash(pre.drop_last()) + cs@.subrange(b - 1, hi as int));
        b = b - 1;
    }
    proof {
        let pre = cs@.subrange(lo as int, b as int);
        if b > lo {
            assert(pre.last() == cs@[b - 1]);
        }
        assert(after_last_slash(pre) =~= Seq::<char>::empty());
        assert(Seq::<char>::empty() + cs@.subrange(b as int, hi as int) =~= cs@.subrange(
            b as int,
            hi as int,
        ));
    }
    b
}

/// Decide whether a process command line is a live `cbc poll` for `room`
/// (optionally scoped to `identity`).
pub fn poll_matches(cmdline: &str, room: &str, identity: Option<&str>) -> (r: bool)
    ensures
        r == spec_poll_matches(cmdline@, room@, opt_str_view(identity)),
{
    let cs = chars_of(cmdline);
    let n = cs.len();
    assert(cs@.subrange(0, n as int) =~= cmdline@);
    let toks = token_spans(&cs, 0, n);
    let ghost t = span_texts(cs@, toks@);
    assert(t == tokens(cmdline@));
    if toks.len() < 3 {
        return false;
    }
    assert(t[0] == sp_text(cs@, toks@[0]));
    assert(t[1] == sp_text(cs@, toks@[1]));
    assert(t[2] == sp_text(cs@, toks@[2]));
    let a = after_last_slash_start(&cs, toks[0].0, toks[0].1);
    if !span_eq(&cs, a, toks[0].1, "cbc") {
        return false;
    }
    if !span_eq(&cs, toks[1].0, toks[1].1, "poll") {
        return false;
    }
    if !span_eq(&cs, toks[2].0, toks[2].1, room) {
        return false;
    }
    match identity {
        None => true,
        Some(id) => {
            let m = toks.len();
            let mut p: usize = 0;
            assert(t.skip(0) =~= t);
            while p < m && !span_eq(&cs, toks[p].0, toks[p].1, "--as")
                invariant
                    t == span_texts(cs@, toks@),
                    spans_in(cs@, toks@),
                    m == toks@.len() == t.len(),
                    p <= m,
                    position_of(t, "--as"@) == p + position_of(t.skip(p as int), "--as"@),
                decreases m - p,
            {
                assert(t[p as int] == sp_text(cs@, toks@[p as int]));
                assert(t.skip(p as int)[0] == t[p as int]);
                assert(t.skip(p as int).drop_first() =~= t.skip(p + 1));
                p = p + 1;
            }
            proof {
                if p < m {
                    assert(t[p as int] == sp_text(cs@, toks@[p as int]));
                    assert(t.skip(p as int)[0] == t[p as int]);
                }
            }
            if m - p > 1 {
                assert(t[p + 1] == sp_text(cs@, toks@[p + 1]));
                span_eq(&cs, toks[p + 1].0, toks[p + 1].1, id)
            } else {
                false
            }
        },
    }
}

proof fn lemma_position_of(t: Seq<Seq<char>>, x: Seq<char>)
    ensures
        0 <= position_of(t, x) <= t.len(),
        position_of(t, x) < t.len() ==> t[position_of(t, x)] == x,
        forall|j: int| 0 <= j < position_of(t, x) ==> t[j] != x,
    decreases t.len(),
{
    if t.len() > 0 && t[0] != x {
        lemma_position_of(t.drop_first(), x);
        assert forall|j: int| 0 <= j < position_of(t, x) implies t[j] != x by {
            if j > 0 {
                assert(t[j] == t.drop_first()[j - 1]);
            }
        }
    }
}

/// A poll is counted for an identity only when it carries it: for
/// `Some(id)`, a matching command line has an `--as` token immediately
/// followed by the token `id`, and it is the first `--as` on the line. So a
/// poll launched with no `--as` at all, or under another identity, is never
/// this session's poll: it is neither counted nor reaped.
pub proof fn law_identity_scoped_match_needs_the_as_flag(
    cmdline: Seq<char>,
    room: Seq<char>,
    id: Seq<char>,
)
    ensures
        spec_poll_matches(cmdline, room, Some(id)) ==> exists|i: int|
            0 <= i && i + 1 < tokens(cmdline).len() && #[trigger] tokens(cmdline)[i] == "--as"@
                && tokens(cmdline)[i + 1] == id && forall|j: int|
                0 <= j < i ==> tokens(cmdline)[j] != "--as"@,
        (forall|i: int| 0 <= i < tokens(cmdline).len() ==> #[trigger] tokens(cmdline)[i] != "--as"@)
            ==> !spec_poll_matches(cmdline, room, Some(id)),
{
    let t = tokens(cmdline);
    lemma_position_of(t, "--as"@);
    let p = position_of(t, "--as"@);
    if spec_poll_matches(cmdline, room, Some(id)) {
        assert(t[p] == "--as"@);
    }
    if forall|i: int| 0 <= i < t.len() ==> #[trigger] t[i] != "--as"@ {
        if p < t.len() {
            assert(t[p] == "--as"@);
        }
    }
}

/// The relaunch command the reconcile surfaces is matched by the very poll it
/// launches: `poll_matches(poll_command(room, model, identity), room, identity)`
/// holds whenever the room, model and identity are single words and neither the
/// room nor the model is itself the `--as` flag.
pub proof fn law_poll_command_matches_itself(
    room: Seq<char>,
    model: Seq<char>,
    identity: Option<Seq<char>>,
)
    requires
        is_word(room),
        is_word(model),
        identity matches Some(id) ==> is_word(id),
        room != "--as"@,
        model != "--as"@,
    ensures
        spec_poll_matches(spec_poll_command(room, model, identity), room, identity),
{
    law_path_prefixed_poll_command_matches_itself(seq![], room, model, identity);
    assert(Seq::<char>::empty() + spec_poll_command(room, model, identity) =~= spec_poll_command(
        room,
        model,
        identity,
    ));
}

proof fn lemma_after_last_slash_of_dir(dir: Seq<char>, b: Seq<char>)
    requires
        dir.len() == 0 || dir.last() == '/',
        forall|i: int| 0 <= i < b.len() ==> #[trigger] b[i] != '/',
        after_last_slash(b) == b,
    ensures
        after_last_slash(dir + b) == b,
    decreases b.len(),
{
    if b.len() == 0 {
        assert(dir + b =~= dir);
        if dir.len() > 0 {
            assert(after_last_slash(dir) == Seq::<char>::empty());
        }
    } else {
        let p = b.drop_last();
        assert((dir + b).drop_last() =~= dir + p);
        assert((dir + b).last() == b.last());
        lemma_after_last_slash_no_slash(p);
        lemma_after_last_slash_of_dir(dir, p);
        assert(p.push(b.last()) =~= b);
    }
}

proof fn lemma_after_last_slash_no_slash(b: Seq<char>)
    requires
        forall|i: int| 0 <= i < b.len() ==> #[trigger] b[i] != '/',
    ensures
        after_last_slash(b) == b,
    decreases b.len(),
{
    if b.len() > 0 {
        let p = b.drop_last();
        assert forall|i: int| 0 <= i < p.len() implies #[trigger] p[i] != '/' by {
            assert(p[i] == b[i]);
        }
        lemma_after_last_slash_no_slash(p);
        assert(p.push(b.last()) =~= b);
    }
}

/// The same holds when the command is run by an absolute or relative path
/// (`/usr/local/bin/cbc poll …`): a directory prefix ending in `/`, with no
/// whitespace in it, leaves `argv[0]`'s basename `cbc`.
pub proof fn law_path_prefixed_poll_command_matches_itself(
    dir: Seq<char>,
    room: Seq<char>,
    model: Seq<char>,
    identity: Option<Seq<char>>,
)
    requires
        dir.len() == 0 || dir.last() == '/',
        forall|i: int| 0 <= i < dir.len() ==> !is_ws(#[trigger] dir[i]),
        is_word(room),
        is_word(model),
        identity matches Some(id) ==> is_word(id),
        room != "--as"@,
        model != "--as"@,
    ensures
        spec_poll_matches(dir + spec_poll_command(room, model, identity), room, identity),
{
    reveal_strlit("cbc poll ");
    reveal_strlit(" --model ");
    reveal_strlit(" --as ");
    reveal_strlit("cbc");
    reveal_strlit("poll");
    reveal_strlit("--model");
    reveal_strlit("--as");
    let sp: Seq<char> = seq![' '];
    let w_cbc = "cbc"@;
    let w_poll = "poll"@;
    let w_model = "--model"@;
    let w_as = "--as"@;
    assert(is_word(w_cbc));
    let w0 = dir + w_cbc;
    assert forall|i: int| 0 <= i < w0.len() implies !is_ws(#[trigger] w0[i]) by {
        if i >= dir.len() {
            assert(w0[i] == w_cbc[i - dir.len()]);
        }
    }
    assert(is_word(w0));
    assert(is_word(w_poll));
    assert(is_word(w_model));
    assert(is_word(w_as));
    let tail = match identity {
        Some(id) => sp + w_as + sp + id,
        None => seq![],
    };
    let t_model = model + tail;
    let cmd = spec_poll_command(room, model, identity);
    assert("cbc poll "@ =~= w_cbc + sp + w_poll + sp);
    assert(" --model "@ =~= sp + w_model + sp);
    assert(" --as "@ =~= sp + w_as + sp);
    match identity {
        Some(id) => {
            assert(" --as "@ + id =~= tail);
        },
        None => {
            assert(tail =~= Seq::<char>::empty());
        },
    }
    assert(cmd =~= "cbc poll "@ + room + " --model "@ + model + match identity {
        Some(id) => " --as "@ + id,
        None => seq![],
    });
    assert(dir + cmd =~= w0 + sp + (w_poll + sp + (room + sp + (w_model + sp + t_model))));
    lemma_tokens_word_space(w0, w_poll + sp + (room + sp + (w_model + sp + t_model)));
    lemma_tokens_word_space(w_poll, room + sp + (w_model + sp + t_model));
    lemma_tokens_word_space(room, w_model + sp + t_model);
    lemma_tokens_word_space(w_model, t_model);
    let rest_toks = match identity {
        Some(id) => {
            assert(t_model =~= model + sp + (w_as + sp + id));
            lemma_tokens_word_space(model, w_as + sp + id);
            lemma_tokens_word_space(w_as, id);
            lemma_tokens_word(id);
            seq![model, w_as, id]
        },
        None => {
            assert(t_model =~= model);
            lemma_tokens_word(model);
            seq![model]
        },
    };
    let t = tokens(dir + cmd);
    assert(t =~= seq![w0, w_poll, room, w_model] + rest_toks);
    assert(after_last_slash(w_cbc) == w_cbc) by {
        reveal_with_fuel(after_last_slash, 4);
        assert(w_cbc.drop_last().drop_last().drop_last() =~= Seq::<char>::empty());
        assert(w_cbc.drop_last().drop_last() =~= seq!['c']);
        assert(w_cbc.drop_last() =~= seq!['c', 'b']);
        assert(Seq::<char>::empty().push('c') =~= seq!['c']);
        assert(seq!['c'].push('b') =~= seq!['c', 'b']);
        assert(seq!['c', 'b'].push('c') =~= w_cbc);
    }
    lemma_after_last_slash_of_dir(dir, w_cbc);
    if let Some(id) = identity {
        assert(w0[w0.len() - 1] == 'c' && w_as[3] == 's');
        assert(w0 != w_as);
        assert(w_poll != w_as);
        assert(w_model[2] != w_as[2]);
        assert(t.skip(1) =~= t.drop_first());
        assert(position_of(t, w_as) == 5) by {
            reveal_with_fuel(position_of, 7);
            assert(t.drop_first() =~= seq![w_poll, room, w_model, model, w_as, id]);
            assert(t.drop_first().drop_first() =~= seq![room, w_model, model, w_as, id]);
            assert(t.drop_first().drop_first().drop_first() =~= seq![w_model, model, w_as, id]);
            assert(t.drop_first().drop_first().drop_first().drop_first() =~= seq![model, w_as, id]);
            assert(t.drop_first().drop_first().drop_first().drop_first().drop_first() =~= seq![w_as, id]);
        }
    }
}

} // verus!
