//! The `SessionStart` hook: after a compaction or a resume, every background
//! poll of the previous context is gone. For each active `.cbc/` state file the
//! hook reaps the stale poll (identity-scoped) and tells the model to relaunch
//! it, with the same `--as` identity the Stop reconcile counts.
use vstd::prelude::*;
use crate::hook::{
    ActiveEntry, ActiveView, ConnectionView, DeclaredConnection, conns_view, pairs_view, OrchestratorEntry, OrchestratorView, WorkerEntry,
    WorkerView, parse_orchestrator,
    parse_worker, spec_parse_orchestrator, spec_parse_worker,
};
use crate::reconcile::{
    declared_in_files, opt_str_view, poll_command, KillOrder, spec_poll_command, spec_scan_declared, texts_view,
};
use crate::text::{starts_with, str_eq, str_starts_with};

verus! {

/// Heading of a single-poll relaunch directive.
pub const BANNER_ONE: &'static str = "⚠ CBC POLL RESTART REQUIRED (post-compaction). Your background poll did NOT survive.";

/// Heading of a many-poll relaunch directive.
pub const BANNER_ALL: &'static str = "⚠ CBC POLL RESTART REQUIRED (post-compaction). Your background polls did NOT survive.";

/// The instruction before a single relaunch command.
pub const FIRST_ACTION_ONE: &'static str = "FIRST ACTION, before reading files or composing anything — relaunch as a background task:";

/// The instruction before the relaunch commands of every room.
pub const FIRST_ACTION_ALL: &'static str = "FIRST ACTION, before reading files or composing anything — relaunch ALL room polls as background tasks:";

/// The closing line of a single-poll directive.
pub const DEAF_ONE: &'static str = "The room is ACTIVE; you are deaf until this poll is running.";

/// The closing line of a many-poll directive.
pub const DEAF_ALL: &'static str = "All rooms are ACTIVE; you are deaf until all polls are running.";

/// Appended to every relaunch directive: a pre-compaction poll can read alive
/// while orphaned from this session, so no liveness check may gate the relaunch.
pub const POLL_LIVE_INOCULATION: &'static str = "Do NOT check poll_live or ps to decide whether to skip this — a pre-compaction poll can read alive (process running, poll_live: true) while orphaned from THIS session and unable to reach it. Relaunch regardless of what any liveness check says.";

/// The rooms an entry holds, in the order the directive names them.
pub open spec fn rooms_of(e: ActiveView) -> Seq<Seq<char>> {
    match e {
        ActiveView::Worker(w) => seq![w.room_id],
        ActiveView::Orchestrator(o) => o.rooms.map_values(|p: (Seq<char>, Seq<char>)| p.1),
    }
}

/// The directive for a worker whose room resolved to identity `id`.
pub open spec fn worker_directive(w: WorkerView, id: Option<Seq<char>>) -> Seq<char> {
    let cmd = spec_poll_command(w.room_id, w.model, id);
    let line = if w.poll_label.len() == 0 {
        "  "@ + cmd
    } else {
        "  "@ + cmd + "      # "@ + w.poll_label
    };
    "\n"@ + BANNER_ONE@ + "\n"@ + FIRST_ACTION_ONE@ + "\n"@ + line + "\n"@ + DEAF_ONE@ + "\n"@
        + POLL_LIVE_INOCULATION@ + "\n"@
}

/// One relaunch line per room: the poll command and the agent's name.
pub open spec fn room_lines(
    rooms: Seq<(Seq<char>, Seq<char>)>,
    model: Seq<char>,
    ids: Seq<Option<Seq<char>>>,
) -> Seq<char>
    decreases rooms.len(),
{
    if rooms.len() == 0 {
        seq![]
    } else {
        let k = rooms.len() - 1;
        room_lines(rooms.drop_last(), model, ids.take(k)) + "  "@ + spec_poll_command(
            rooms[k].1,
            model,
            ids[k],
        ) + "      # "@ + rooms[k].0 + " poll\n"@
    }
}

/// The directive for an orchestrator whose rooms resolved to `ids`.
pub open spec fn orchestrator_directive(o: OrchestratorView, ids: Seq<Option<Seq<char>>>) -> Seq<
    char,
> {
    "\n"@ + BANNER_ALL@ + "\n"@ + FIRST_ACTION_ALL@ + "\n"@ + room_lines(o.rooms, o.model, ids)
        + DEAF_ALL@ + "\n"@ + POLL_LIVE_INOCULATION@ + "\n"@
}

/// The relaunch directive for an entry, given the identity each of its rooms
/// resolved to (in `rooms_of` order).
pub open spec fn relaunch_directive(e: ActiveView, ids: Seq<Option<Seq<char>>>) -> Seq<char> {
    match e {
        ActiveView::Worker(w) => worker_directive(w, ids[0]),
        ActiveView::Orchestrator(o) => orchestrator_directive(o, ids),
    }
}

/// The identity each reap carries, in order.
pub open spec fn reap_ids(r: Seq<KillOrder>) -> Seq<Option<Seq<char>>> {
    r.map_values(|k: KillOrder| k.identity.deep_view())
}

/// The reaps as `(room, identity)` pairs.
pub open spec fn reaps_view(r: Seq<KillOrder>) -> Seq<(Seq<char>, Option<Seq<char>>)> {
    r.map_values(|k: KillOrder| k@)
}

/// `id_of` answered `id` when asked for a room whose text is `room`.
pub open spec fn resolved<I: Fn(&str) -> Option<String>>(
    id_of: I,
    room: Seq<char>,
    id: Option<Seq<char>>,
) -> bool {
    exists|s: &str, o: Option<String>|
        #[trigger] call_ensures(id_of, (s,), o) && s@ == room && o.deep_view() == id
}

/// `reaps` holds exactly one reap per room of `e`, in order, each under the
/// identity `id_of` resolved for that room.
pub open spec fn reaps_resolved<I: Fn(&str) -> Option<String>>(
    id_of: I,
    e: ActiveView,
    reaps: Seq<KillOrder>,
) -> bool {
    &&& reaps.len() == rooms_of(e).len()
    &&& forall|i: int|
        0 <= i < reaps.len() ==> (#[trigger] reaps[i])@.0 == rooms_of(e)[i] && resolved::<I>(
            id_of,
            rooms_of(e)[i],
            reaps[i]@.1,
        )
}

fn as_opt_str(o: &Option<String>) -> (r: Option<&str>)
    ensures
        opt_str_view(r) == o.deep_view(),
{
    match o {
        Some(s) => Some(s.as_str()),
        None => None,
    }
}

fn emit_worker_relaunch<I>(w: &WorkerEntry, out: &mut String, id_of: &I) -> (k: KillOrder) where
    I: Fn(&str) -> Option<String>,

    requires
        forall|s: &str| call_requires(*id_of, (s,)),
    ensures
        k@.0 == w@.room_id,
        resolved::<I>(*id_of, w@.room_id, k@.1),
        final(out)@ == old(out)@ + worker_directive(w@, k@.1),
{
    let room = w.room_id.as_str();
    let id = id_of(room);
    assert(resolved::<I>(*id_of, w@.room_id, id.deep_view()));
    let ids_str = as_opt_str(&id);
    out.append("\n");
    out.append(BANNER_ONE);
    out.append("\n");
    out.append(FIRST_ACTION_ONE);
    out.append("\n");
    let cmd = poll_command(room, w.model.as_str(), ids_str);
    out.append("  ");
    out.append(cmd.as_str());
    if w.poll_label.unicode_len() > 0 {
        out.append("      # ");
        out.append(w.poll_label.as_str());
    }
    out.append("\n");
    out.append(DEAF_ONE);
    out.append("\n");
    out.append(POLL_LIVE_INOCULATION);
    out.append("\n");
    proof {
        assert(final(out)@ =~= old(out)@ + worker_directive(w@, id.deep_view()));
    }
    KillOrder { room_id: w.room_id.clone(), identity: id }
}

fn emit_orchestrator_relaunch<I>(o: &OrchestratorEntry, out: &mut String, id_of: &I) -> (r: Vec<
    KillOrder,
>) where
    I: Fn(&str) -> Option<String>,

    requires
        forall|s: &str| call_requires(*id_of, (s,)),
    ensures
        reaps_resolved::<I>(*id_of, ActiveView::Orchestrator(o@), r@),
        final(out)@ == old(out)@ + orchestrator_directive(o@, reap_ids(r@)),
{
    out.append("\n");
    out.append(BANNER_ALL);
    out.append("\n");
    out.append(FIRST_ACTION_ALL);
    out.append("\n");
    let ghost head = out@;
    let ghost rooms = o@.rooms;
    let ghost model = o@.model;
    let mut reaps: Vec<KillOrder> = Vec::new();
    let n = o.rooms.len();
    let mut i: usize = 0;
    assert(rooms.take(0) =~= Seq::<(Seq<char>, Seq<char>)>::empty());
    assert(out@ =~= head + room_lines(rooms.take(0), model, reap_ids(reaps@)));
    while i < n
        invariant
            n == o.rooms@.len(),
            rooms == o@.rooms,
            model == o@.model,
            i <= n,
            reaps@.len() == i,
            forall|j: int|
                0 <= j < i ==> (#[trigger] reaps@[j])@.0 == rooms[j].1 && resolved::<I>(
                    *id_of,
                    rooms[j].1,
                    reaps@[j]@.1,
                ),
            out@ == head + room_lines(rooms.take(i as int), model, reap_ids(reaps@)),
            forall|s: &str| call_requires(*id_of, (s,)),
        decreases n - i,
    {
        let pair = &o.rooms[i];
        let room = pair.1.as_str();
        let id = id_of(room);
        assert(rooms[i as int].1 == room@);
        assert(resolved::<I>(*id_of, rooms[i as int].1, id.deep_view()));
        let ids_str = as_opt_str(&id);
        let cmd = poll_command(room, o.model.as_str(), ids_str);
        let ghost old_reaps = reaps@;
        out.append("  ");
        out.append(cmd.as_str());
        out.append("      # ");
        out.append(pair.0.as_str());
        out.append(" poll\n");
        let k = KillOrder { room_id: pair.1.clone(), identity: id };
        reaps.push(k);
        proof {
            let v = reap_ids(reaps@);
            let r1 = rooms.take(i + 1);
            assert(r1.drop_last() =~= rooms.take(i as int));
            assert(v.take(i as int) =~= reap_ids(old_reaps));
            assert(r1[i as int] == rooms[i as int]);
            assert(v[i as int] == k@.1);
            assert(out@ =~= head + room_lines(r1, model, v));
            assert forall|j: int| 0 <= j < i + 1 implies (#[trigger] reaps@[j])@.0 == rooms[j].1
                && resolved::<I>(*id_of, rooms[j].1, reaps@[j]@.1) by {
                if j < i {
                    assert(reaps@[j] == old_reaps[j]);
                }
            }
        }
        i = i + 1;
    }
    out.append(DEAF_ALL);
    out.append("\n");
    out.append(POLL_LIVE_INOCULATION);
    out.append("\n");
    proof {
        assert(rooms.take(n as int) =~= rooms);
        assert(out@ =~= old(out)@ + orchestrator_directive(o@, reap_ids(reaps@)));
        assert forall|j: int| 0 <= j < reaps@.len() implies (#[trigger] reaps@[j])@.0 == rooms_of(
            ActiveView::Orchestrator(o@),
        )[j] && resolved::<I>(*id_of, rooms_of(ActiveView::Orchestrator(o@))[j], reaps@[j]@.1) by {
            assert(rooms_of(ActiveView::Orchestrator(o@))[j] == rooms[j].1);
        }
    }
    reaps
}

/// Append the relaunch directive for `entry` to `out` and return the stale
/// polls to reap. For every room, in order, it resolves the session's `--as`
/// identity with `id_of`, names the relaunch command carrying that identity,
/// and orders exactly one reap of that room under that same identity
/// (identity-scoped, so a peer's poll of a shared room is never touched). A
/// room with no identity (a legacy file) gets the room-only command and a
/// room-wide reap. The caller performs the reaps.
pub fn emit_relaunch<I>(entry: &ActiveEntry, out: &mut String, id_of: &I) -> (r: Vec<KillOrder>) where
    I: Fn(&str) -> Option<String>,

    requires
        forall|s: &str| call_requires(*id_of, (s,)),
    ensures
        reaps_resolved::<I>(*id_of, entry@, r@),
        final(out)@ == old(out)@ + relaunch_directive(entry@, reap_ids(r@)),
{
    match entry {
        ActiveEntry::Worker(w) => {
            let k = emit_worker_relaunch(w, out, id_of);
            let r = vec![k];
            proof {
                assert(reap_ids(r@)[0] == k@.1);
                assert(r@[0] == k);
            }
            r
        },
        ActiveEntry::Orchestrator(o) => {
            let r = emit_orchestrator_relaunch(o, out, id_of);
            r
        },
    }
}

/// The active entries among `.cbc/` files `(name, content)`, in order: a
/// `worker-*` file that parses as a worker, an `orchestration-*` file that
/// parses as an orchestrator.
pub open spec fn spec_active_entries(files: Seq<(Seq<char>, Seq<char>)>) -> Seq<ActiveView>
    decreases files.len(),
{
    if files.len() == 0 {
        seq![]
    } else {
        let (name, content) = files.last();
        spec_active_entries(files.drop_last()) + if starts_with(name, "worker-"@) {
            match spec_parse_worker(content) {
                Some(w) => seq![ActiveView::Worker(w)],
                None => seq![],
            }
        } else if starts_with(name, "orchestration-"@) {
            match spec_parse_orchestrator(content) {
                Some(o) => seq![ActiveView::Orchestrator(o)],
                None => seq![],
            }
        } else {
            seq![]
        }
    }
}

/// The entries as views.
pub open spec fn entries_view(v: Seq<ActiveEntry>) -> Seq<ActiveView> {
    v.map_values(|e: ActiveEntry| e@)
}

/// The active entries among the given `.cbc/` files `(name, content)`.
pub fn active_entries(files: &[(String, String)]) -> (r: Vec<ActiveEntry>)
    ensures
        entries_view(r@) == spec_active_entries(pairs_view(files@)),
{
    let ghost fs = pairs_view(files@);
    let mut out: Vec<ActiveEntry> = Vec::new();
    let n = files.len();
    let mut i: usize = 0;
    assert(fs.take(0) =~= Seq::<(Seq<char>, Seq<char>)>::empty());
    assert(entries_view(out@) =~= Seq::<ActiveView>::empty());
    while i < n
        invariant
            fs == pairs_view(files@),
            n == files@.len(),
            i <= n,
            entries_view(out@) == spec_active_entries(fs.take(i as int)),
        decreases n - i,
    {
        let name = files[i].0.as_str();
        let content = files[i].1.as_str();
        let ghost before = entries_view(out@);
        proof {
            assert(fs.take(i + 1).drop_last() =~= fs.take(i as int));
            assert(fs.take(i + 1).last() == (name@, content@));
        }
        if str_starts_with(name, "worker-") {
            match parse_worker(content) {
                Some(w) => {
                    let e = ActiveEntry::Worker(w);
                    out.push(e);
                    assert(entries_view(out@) =~= before + seq![e@]);
                },
                None => {
                    assert(entries_view(out@) =~= before + Seq::<ActiveView>::empty());
                },
            }
        } else if str_starts_with(name, "orchestration-") {
            match parse_orchestrator(content) {
                Some(o) => {
                    let e = ActiveEntry::Orchestrator(o);
                    out.push(e);
                    assert(entries_view(out@) =~= before + seq![e@]);
                },
                None => {
                    assert(entries_view(out@) =~= before + Seq::<ActiveView>::empty());
                },
            }
        } else {
            assert(entries_view(out@) =~= before + Seq::<ActiveView>::empty());
        }
        i = i + 1;
    }
    assert(fs.take(n as int) =~= fs);
    out
}

/// The identity the first declared connection of `room` carries.
pub open spec fn identity_for(conns: Seq<ConnectionView>, room: Seq<char>) -> Option<Seq<char>>
    decreases conns.len(),
{
    if conns.len() == 0 {
        None
    } else if conns[0].room_id == room {
        conns[0].identity
    } else {
        identity_for(conns.drop_first(), room)
    }
}

/// The `--as` identity declared for `room`: that of its first declared
/// connection, or `None`.
pub fn identity_for_room(declared: &[DeclaredConnection], room: &str) -> (r: Option<String>)
    ensures
        r.deep_view() == identity_for(conns_view(declared@), room@),
{
    let ghost cs = conns_view(declared@);
    let n = declared.len();
    let mut i: usize = 0;
    assert(cs.skip(0) =~= cs);
    while i < n
        invariant
            cs == conns_view(declared@),
            n == declared@.len(),
            i <= n,
            identity_for(cs, room@) == identity_for(cs.skip(i as int), room@),
        decreases n - i,
    {
        assert(cs.skip(i as int)[0] == declared@[i as int]@);
        if str_eq(declared[i].room_id.as_str(), room) {
            return clone_opt(&declared[i].identity);
        }
        assert(cs.skip(i as int).drop_first() =~= cs.skip(i + 1));
        i = i + 1;
    }
    None
}

fn clone_opt(o: &Option<String>) -> (r: Option<String>)
    ensures
        r.deep_view() == o.deep_view(),
{
    match o {
        Some(s) => Some(s.clone()),
        None => None,
    }
}

/// The relaunch directives of every entry, each room resolved to its
/// declared identity.
pub open spec fn spec_directives(entries: Seq<ActiveView>, conns: Seq<ConnectionView>) -> Seq<char>
    decreases entries.len(),
{
    if entries.len() == 0 {
        seq![]
    } else {
        let e = entries.last();
        spec_directives(entries.drop_last(), conns) + relaunch_directive(
            e,
            rooms_of(e).map_values(|r: Seq<char>| identity_for(conns, r)),
        )
    }
}

/// A relaunch is owed only after a compaction or a resume; a payload without
/// a source is a fresh startup.
pub open spec fn relaunch_owed(source: Option<Seq<char>>) -> bool {
    match source {
        Some(s) => s == "compact"@ || s == "resume"@,
        None => false,
    }
}

/// Whether the `SessionStart` source owes a relaunch.
pub fn relaunch_on_source(source: Option<&str>) -> (r: bool)
    ensures
        r == relaunch_owed(opt_str_view(source)),
{
    match source {
        Some(s) => str_eq(s, "compact") || str_eq(s, "resume"),
        None => false,
    }
}

/// The contents of the files.
pub open spec fn contents_of(files: Seq<(Seq<char>, Seq<char>)>) -> Seq<Seq<char>> {
    files.map_values(|f: (Seq<char>, Seq<char>)| f.1)
}

/// The reaps a relaunch owes for every entry, in order: one per room, under
/// the room's declared identity.
pub open spec fn spec_reaps(entries: Seq<ActiveView>, conns: Seq<ConnectionView>) -> Seq<
    (Seq<char>, Option<Seq<char>>),
>
    decreases entries.len(),
{
    if entries.len() == 0 {
        seq![]
    } else {
        let e = entries.last();
        spec_reaps(entries.drop_last(), conns) + rooms_of(e).map_values(
            |r: Seq<char>| (r, identity_for(conns, r)),
        )
    }
}

/// What a `SessionStart` event does: the directives to write and the stale
/// polls to reap, in order.
#[derive(Debug, PartialEq, Eq, Clone)]
pub struct SessionStartOutcome {
    pub directives: String,
    pub reaps: Vec<KillOrder>,
}

/// The `SessionStart` hook over the `.cbc/` files `(name, content)`: on a
/// compaction or a resume, the relaunch directive of every active entry and
/// one reap per room, in order, each under the room's declared identity;
/// otherwise nothing to write and nothing to reap. Identities come from every
/// active file's declared connections, whatever session stamped it: the
/// session id rotates exactly at this boundary.
pub fn session_start_relaunch(source: Option<&str>, files: &[(String, String)]) -> (r:
    SessionStartOutcome)
    ensures
        r.directives@ == if relaunch_owed(opt_str_view(source)) {
            spec_directives(
                spec_active_entries(pairs_view(files@)),
                spec_scan_declared(contents_of(pairs_view(files@)), None),
            )
        } else {
            Seq::empty()
        },
        reaps_view(r.reaps@) == if relaunch_owed(opt_str_view(source)) {
            spec_reaps(
                spec_active_entries(pairs_view(files@)),
                spec_scan_declared(contents_of(pairs_view(files@)), None),
            )
        } else {
            Seq::empty()
        },
{
    let mut out = String::new();
    let mut reaps: Vec<KillOrder> = Vec::new();
    if !relaunch_on_source(source) {
        assert(reaps_view(reaps@) =~= Seq::<(Seq<char>, Option<Seq<char>>)>::empty());
        return SessionStartOutcome { directives: out, reaps };
    }
    let entries = active_entries(files);
    let mut contents: Vec<String> = Vec::new();
    let n = files.len();
    let mut j: usize = 0;
    while j < n
        invariant
            n == files@.len(),
            j <= n,
            texts_view(contents@) == contents_of(pairs_view(files@)).take(j as int),
        decreases n - j,
    {
        let c = files[j].1.clone();
        assert(c@ == files@[j as int].1@);
        assert(pairs_view(files@)[j as int].1 == files@[j as int].1@);
        let ghost before = contents@;
        contents.push(c);
        assert(texts_view(contents@) =~= texts_view(before).push(c@));
        assert(texts_view(contents@) =~= contents_of(pairs_view(files@)).take(j + 1));
        j = j + 1;
    }
    assert(contents_of(pairs_view(files@)).take(n as int) =~= contents_of(pairs_view(files@)));
    let declared = declared_in_files(contents.as_slice(), None);
    let ghost conns = conns_view(declared@);
    let ghost es = entries_view(entries@);
    let id_of = |room: &str| -> (r: Option<String>)
        ensures
            r.deep_view() == identity_for(conns_view(declared@), room@),
        { identity_for_room(declared.as_slice(), room) };
    let m = entries.len();
    let mut i: usize = 0;
    assert(es.take(0) =~= Seq::<ActiveView>::empty());
    assert(reaps_view(reaps@) =~= Seq::<(Seq<char>, Option<Seq<char>>)>::empty());
    while i < m
        invariant
            m == entries@.len(),
            es == entries_view(entries@),
            conns == conns_view(declared@),
            i <= m,
            out@ == spec_directives(es.take(i as int), conns),
            reaps_view(reaps@) == spec_reaps(es.take(i as int), conns),
            forall|s: &str| call_requires(id_of, (s,)),
            forall|s: &str, r: Option<String>|
                call_ensures(id_of, (s,), r) ==> r.deep_view() == identity_for(conns, s@),
        decreases m - i,
    {
        let ghost before = out@;
        let ghost before_reaps = reaps@;
        let mut more = emit_relaunch(&entries[i], &mut out, &id_of);
        proof {
            let e = es[i as int];
            assert(e == entries@[i as int]@);
            let want = rooms_of(e).map_values(|r: Seq<char>| identity_for(conns, r));
            assert forall|k: int| 0 <= k < more@.len() implies more@[k]@.1 == identity_for(
                conns,
                rooms_of(e)[k],
            ) by {
                assert(more@[k]@.0 == rooms_of(e)[k]);
                assert(resolved::<_>(id_of, rooms_of(e)[k], more@[k]@.1));
                let (s, o) = choose|s: &str, o: Option<String>|
                    #[trigger] call_ensures(id_of, (s,), o) && s@ == rooms_of(e)[k] && o.deep_view()
                        == more@[k]@.1;
            }
            assert(reap_ids(more@) =~= want);
            assert(reaps_view(more@) =~= rooms_of(e).map_values(
                |r: Seq<char>| (r, identity_for(conns, r)),
            )) by {
                assert forall|k: int| 0 <= k < more@.len() implies reaps_view(more@)[k] == (
                    rooms_of(e)[k],
                    identity_for(conns, rooms_of(e)[k]),
                ) by {
                    assert(more@[k]@.0 == rooms_of(e)[k]);
                    assert(reap_ids(more@)[k] == want[k]);
                }
            }
            assert(es.take(i + 1).drop_last() =~= es.take(i as int));
            assert(es.take(i + 1).last() == e);
        }
        let ghost added = more@;
        reaps.append(&mut more);
        proof {
            assert(reaps@ == before_reaps + added);
            assert(reaps_view(reaps@) =~= reaps_view(before_reaps) + reaps_view(added));
        }
        i = i + 1;
    }
    assert(es.take(m as int) =~= es);
    SessionStartOutcome { directives: out, reaps }
}

} // verus!
