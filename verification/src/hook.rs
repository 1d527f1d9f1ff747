//! The `.cbc/` state-file model behind the agent-session hooks: parsing worker,
//! orchestrator and `connections:` declarations into the poll connections a
//! session owes, and the per-turn reconcile that keeps exactly one live
//! `cbc poll` per declared room.
use vstd::prelude::*;
use crate::text::{
    Span, first_index, is_ws, lines, span_eq, span_texts, spans_in, starts_with, token_spans,
    tokens, tokens_from, trim, trim_span, find_char,
};
use crate::statefile::{
    Doc, doc_is_active, first_kv, first_kv_span, flag_value_span, indented, kv_span,
    lemma_line_text, sp_text, spec_flag_value, spec_is_active, spec_kv,
};

verus! {

/// Fields extracted from an active `.cbc/worker-*.md` file.
#[derive(Debug, PartialEq, Eq, Clone)]
pub struct WorkerEntry {
    /// The bare CBC room id.
    pub room_id: String,
    /// The background-poll task label (used in the emitted comment).
    pub poll_label: String,
    /// The self-declared model.
    pub model: String,
    /// This session's `--as <identity>`, recovered from the `poll-label` line.
    pub identity: Option<String>,
}

/// Fields extracted from an active `.cbc/orchestration-*.md` file.
#[derive(Debug, PartialEq, Eq, Clone)]
pub struct OrchestratorEntry {
    /// The orchestrator's own model, used for all its `cbc poll` commands.
    pub model: String,
    /// `(agent_name, room_id)` pairs from the `agents:` registry.
    pub rooms: Vec<(String, String)>,
}

/// One active entry found in `.cbc/`.
#[derive(Debug, PartialEq, Eq, Clone)]
pub enum ActiveEntry {
    Worker(WorkerEntry),
    Orchestrator(OrchestratorEntry),
}

/// A worker's attachment mode, declared as `mode: worker | direct`.
#[derive(Debug, PartialEq, Eq, Clone, Copy, Default)]
pub enum WorkerMode {
    /// Attached to an orchestrator.
    Worker,
    /// Standalone: pairs with the user or another worker directly.
    #[default]
    Direct,
}

/// One declared poll connection: exactly the args a `cbc poll` invocation needs.
#[derive(Debug, PartialEq, Eq, Clone)]
pub struct DeclaredConnection {
    /// Human label for the counterpart.
    pub name: String,
    /// The bare CBC room id.
    pub room_id: String,
    /// This session's `--as <identity>` for the poll, when declared.
    pub identity: Option<String>,
    /// The model the poll runs as (`"<model>"` when absent).
    pub model: String,
}

pub struct WorkerView {
    pub room_id: Seq<char>,
    pub poll_label: Seq<char>,
    pub model: Seq<char>,
    pub identity: Option<Seq<char>>,
}

pub struct OrchestratorView {
    pub model: Seq<char>,
    pub rooms: Seq<(Seq<char>, Seq<char>)>,
}

pub struct ConnectionView {
    pub name: Seq<char>,
    pub room_id: Seq<char>,
    pub identity: Option<Seq<char>>,
    pub model: Seq<char>,
}

impl View for WorkerEntry {
    type V = WorkerView;

    open spec fn view(&self) -> WorkerView {
        WorkerView {
            room_id: self.room_id@,
            poll_label: self.poll_label@,
            model: self.model@,
            identity: self.identity.deep_view(),
        }
    }
}

pub open spec fn pairs_view(v: Seq<(String, String)>) -> Seq<(Seq<char>, Seq<char>)> {
    v.map_values(|p: (String, String)| (p.0@, p.1@))
}

impl View for OrchestratorEntry {
    type V = OrchestratorView;

    open spec fn view(&self) -> OrchestratorView {
        OrchestratorView { model: self.model@, rooms: pairs_view(self.rooms@) }
    }
}

impl View for DeclaredConnection {
    type V = ConnectionView;

    open spec fn view(&self) -> ConnectionView {
        ConnectionView {
            name: self.name@,
            room_id: self.room_id@,
            identity: self.identity.deep_view(),
            model: self.model@,
        }
    }
}

pub enum ActiveView {
    Worker(WorkerView),
    Orchestrator(OrchestratorView),
}

impl View for ActiveEntry {
    type V = ActiveView;

    open spec fn view(&self) -> ActiveView {
        match self {
            ActiveEntry::Worker(w) => ActiveView::Worker(w@),
            ActiveEntry::Orchestrator(o) => ActiveView::Orchestrator(o@),
        }
    }
}

pub open spec fn conns_view(v: Seq<DeclaredConnection>) -> Seq<ConnectionView> {
    v.map_values(|c: DeclaredConnection| c@)
}

// ── Specification of the file format ─────────────────────────────────────────

/// The model placeholder used when a file declares none.
pub open spec fn model_placeholder() -> Seq<char> {
    "<model>"@
}

pub open spec fn or_placeholder(m: Option<Seq<char>>) -> Seq<char> {
    match m {
        Some(v) => v,
        None => model_placeholder(),
    }
}

/// An indented `name: room-id [--as id] [--model m]` line of a `connections:`
/// block.
pub open spec fn conn_entry(line: Seq<char>) -> Option<ConnectionView> {
    let t = trim(line);
    let colon = first_index(t, ':');
    if colon < t.len() {
        let rest = trim(t.skip(colon + 1));
        let toks = tokens(rest);
        if toks.len() > 0 {
            Some(
                ConnectionView {
                    name: trim(t.take(colon)),
                    room_id: toks[0],
                    identity: spec_flag_value(rest, "--as"@),
                    model: or_placeholder(spec_flag_value(rest, "--model"@)),
                },
            )
        } else {
            None
        }
    } else {
        None
    }
}

/// One line of the `connections:` scan: whether the block is open after it,
/// and the connection it declares.
pub open spec fn conn_step(in_block: bool, line: Seq<char>) -> (bool, Option<ConnectionView>) {
    let t = trim(line);
    if t == "connections:"@ {
        (true, None)
    } else if !in_block {
        (false, None)
    } else if t.len() == 0 {
        (true, None)
    } else if !indented(line) {
        (false, None)
    } else {
        (true, conn_entry(line))
    }
}

/// The `connections:` scan over a prefix of the lines.
pub open spec fn conns_scan(ls: Seq<Seq<char>>) -> (bool, Seq<ConnectionView>)
    decreases ls.len(),
{
    if ls.len() == 0 {
        (false, seq![])
    } else {
        let prev = conns_scan(ls.drop_last());
        let st = conn_step(prev.0, ls.last());
        (
            st.0,
            match st.1 {
                Some(c) => prev.1.push(c),
                None => prev.1,
            },
        )
    }
}

/// The connections declared by the `connections:` block(s) of a file.
pub open spec fn spec_parse_connections(content: Seq<char>) -> Seq<ConnectionView> {
    conns_scan(lines(content)).1
}

/// The worker `mode:` field: the first `mode:` line decides.
pub open spec fn spec_worker_mode(content: Seq<char>) -> WorkerMode {
    match first_kv(lines(content), "mode"@) {
        Some(v) => if v == "worker"@ {
            WorkerMode::Worker
        } else {
            WorkerMode::Direct
        },
        None => WorkerMode::Direct,
    }
}

/// An active worker file with a `room-id:`; each field from its first line.
pub open spec fn spec_parse_worker(content: Seq<char>) -> Option<WorkerView> {
    let ls = lines(content);
    if !spec_is_active(content) {
        None
    } else {
        match first_kv(ls, "room-id"@) {
            None => None,
            Some(room) => {
                let label = match first_kv(ls, "poll-label"@) {
                    Some(l) => l,
                    None => seq![],
                };
                let model = match first_kv(ls, "model"@) {
                    Some(m) => m,
                    None => or_placeholder(spec_flag_value(label, "--model"@)),
                };
                Some(
                    WorkerView {
                        room_id: room,
                        poll_label: label,
                        model: model,
                        identity: spec_flag_value(label, "--as"@),
                    },
                )
            },
        }
    }
}

/// Index of the first `": "` in `t`, or `t.len()`.
pub open spec fn first_colon_space(t: Seq<char>) -> int
    decreases t.len(),
{
    if t.len() < 2 {
        t.len() as int
    } else if t[0] == ':' && t[1] == ' ' {
        0
    } else {
        1 + first_colon_space(t.drop_first())
    }
}

/// An indented `name: room-id ...` line of the `agents:` block.
pub open spec fn agent_entry(line: Seq<char>) -> Option<(Seq<char>, Seq<char>)> {
    let t = trim(line);
    let c = first_colon_space(t);
    if c < t.len() {
        let toks = tokens(trim(t.skip(c + 2)));
        if toks.len() > 0 {
            Some((trim(t.take(c)), toks[0]))
        } else {
            None
        }
    } else {
        None
    }
}

/// The orchestrator scan state: the top-level model found so far, whether the
/// `agents:` block is open, and the rooms collected.
pub struct OrchScan {
    pub model: Option<Seq<char>>,
    pub in_agents: bool,
    pub rooms: Seq<(Seq<char>, Seq<char>)>,
}

pub open spec fn orch_step(st: OrchScan, line: Seq<char>) -> OrchScan {
    let t = trim(line);
    let model = if st.model is None && !indented(line) {
        match spec_kv(t, "model"@) {
            Some(v) => Some(v),
            None => st.model,
        }
    } else {
        st.model
    };
    if t == "agents:"@ {
        OrchScan { model, in_agents: true, rooms: st.rooms }
    } else if st.in_agents {
        if t.len() == 0 {
            OrchScan { model, in_agents: true, rooms: st.rooms }
        } else if !indented(line) {
            OrchScan { model, in_agents: false, rooms: st.rooms }
        } else {
            OrchScan {
                model,
                in_agents: true,
                rooms: match agent_entry(line) {
                    Some(p) => st.rooms.push(p),
                    None => st.rooms,
                },
            }
        }
    } else {
        OrchScan { model, in_agents: false, rooms: st.rooms }
    }
}

pub open spec fn orch_scan(ls: Seq<Seq<char>>) -> OrchScan
    decreases ls.len(),
{
    if ls.len() == 0 {
        OrchScan { model: None, in_agents: false, rooms: seq![] }
    } else {
        orch_step(orch_scan(ls.drop_last()), ls.last())
    }
}

/// Line `h` opens an `agents:` block that is still open at line `i`: it reads
/// `agents:`, and every line between is blank or indented.
pub open spec fn agents_block_open(ls: Seq<Seq<char>>, h: int, i: int) -> bool {
    &&& 0 <= h < i <= ls.len()
    &&& trim(ls[h]) == "agents:"@
    &&& forall|j: int| h < j < i ==> trim(#[trigger] ls[j]).len() == 0 || indented(ls[j])
}

/// Room `r` is read from an indented line `i` inside an open `agents:` block.
pub open spec fn room_from_block(ls: Seq<Seq<char>>, r: (Seq<char>, Seq<char>)) -> bool {
    exists|i: int, h: int|
        #![trigger agents_block_open(ls, h, i), ls[i]]
        0 <= i < ls.len() && indented(ls[i]) && agent_entry(ls[i]) == Some(r) && agents_block_open(
            ls,
            h,
            i,
        )
}

proof fn lemma_orch_scan_rooms(ls: Seq<Seq<char>>)
    ensures
        forall|k: int|
            0 <= k < orch_scan(ls).rooms.len() ==> room_from_block(ls, #[trigger] orch_scan(ls).rooms[k]),
        orch_scan(ls).in_agents ==> exists|h: int| #[trigger] agents_block_open(ls, h, ls.len() as int),
    decreases ls.len(),
{
    if ls.len() > 0 {
        let p = ls.drop_last();
        let n = p.len() as int;
        lemma_orch_scan_rooms(p);
        let st0 = orch_scan(p);
        let line = ls.last();
        let st = orch_scan(ls);
        assert(ls[n] == line);
        assert forall|h: int, i: int| agents_block_open(p, h, i) implies agents_block_open(ls, h, i) by {
            assert forall|j: int| h < j < i implies trim(#[trigger] ls[j]).len() == 0 || indented(ls[j]) by {
                assert(ls[j] == p[j]);
                assert(trim(p[j]).len() == 0 || indented(p[j]));
            }
            assert(ls[h] == p[h]);
        }
        assert forall|k: int| 0 <= k < st0.rooms.len() implies room_from_block(ls, #[trigger] st0.rooms[k]) by {
            let r = st0.rooms[k];
            assert(room_from_block(p, r));
            let (i, h) = choose|i: int, h: int|
                #![trigger agents_block_open(p, h, i), p[i]]
                0 <= i < p.len() && indented(p[i]) && agent_entry(p[i]) == Some(r) && agents_block_open(
                    p,
                    h,
                    i,
                );
            assert(ls[i] == p[i]);
            assert(agents_block_open(ls, h, i));
        }
        let t = trim(line);
        if t == "agents:"@ {
            assert(agents_block_open(ls, n, n + 1));
            assert(st.rooms == st0.rooms);
        } else if st0.in_agents {
            let h = choose|h: int| #[trigger] agents_block_open(p, h, n);
            if t.len() == 0 || indented(line) {
                assert(agents_block_open(ls, h, n + 1)) by {
                    assert forall|j: int| h < j < n + 1 implies trim(#[trigger] ls[j]).len() == 0
                        || indented(ls[j]) by {
                        if j < n {
                            assert(ls[j] == p[j]);
                            assert(trim(p[j]).len() == 0 || indented(p[j]));
                        }
                    }
                    assert(ls[h] == p[h]);
                }
                if t.len() != 0 {
                    match agent_entry(line) {
                        Some(r) => {
                            assert(agents_block_open(ls, h, n));
                            assert(st.rooms == st0.rooms.push(r));
                            assert(room_from_block(ls, r));
                            assert forall|k: int| 0 <= k < st.rooms.len() implies room_from_block(
                                ls,
                                #[trigger] st.rooms[k],
                            ) by {
                                if k < st0.rooms.len() {
                                    assert(st.rooms[k] == st0.rooms[k]);
                                }
                            }
                        },
                        None => {},
                    }
                }
            }
        }
    }
}

/// Every room an orchestration file yields is read from an indented line of
/// an `agents:` block: a non-indented, non-empty line closes the block, and no
/// line after it contributes a room until another `agents:` header opens one.
pub proof fn law_orchestrator_rooms_come_from_the_agents_block(content: Seq<char>)
    ensures
        spec_parse_orchestrator(content) matches Some(o) ==> forall|k: int|
            0 <= k < o.rooms.len() ==> room_from_block(lines(content), #[trigger] o.rooms[k]),
{
    lemma_orch_scan_rooms(lines(content));
}

/// An active orchestration file with at least one `agents:` entry.
pub open spec fn spec_parse_orchestrator(content: Seq<char>) -> Option<OrchestratorView> {
    let st = orch_scan(lines(content));
    if !spec_is_active(content) || st.rooms.len() == 0 {
        None
    } else {
        Some(OrchestratorView { model: or_placeholder(st.model), rooms: st.rooms })
    }
}

/// The unified declared-connection list: a `connections:` block wins; else the
/// legacy orchestrator `agents:` rooms; else the legacy single worker room.
pub open spec fn spec_declared(content: Seq<char>) -> Seq<ConnectionView> {
    let block = spec_parse_connections(content);
    if block.len() > 0 {
        block
    } else {
        match spec_parse_orchestrator(content) {
            Some(o) => o.rooms.map_values(
                |r: (Seq<char>, Seq<char>)|
                    ConnectionView { name: r.0, room_id: r.1, identity: None, model: o.model },
            ),
            None => match spec_parse_worker(content) {
                Some(w) => seq![
                    ConnectionView {
                        name: w.poll_label,
                        room_id: w.room_id,
                        identity: w.identity,
                        model: w.model,
                    },
                ],
                None => seq![],
            },
        }
    }
}

// ── Parsers ───────────────────────────────────────────────────────────────────

fn placeholder() -> (r: String)
    ensures
        r@ == model_placeholder(),
{
    String::from_str("<model>")
}

fn opt_string(d: &Doc, sp: Option<Span>) -> (r: Option<String>)
    requires
        d.wf(),
        sp matches Some(s) ==> s.0 <= s.1 <= d.cs@.len(),
    ensures
        r.deep_view() == (match sp {
            Some(s) => Some(sp_text(d.cs@, s)),
            None => None,
        }),
{
    match sp {
        Some(s) => Some(d.string_of(s)),
        None => None,
    }
}

/// The connection declared by one indented block line.
fn conn_entry_at(d: &Doc, sp: Span) -> (r: Option<DeclaredConnection>)
    requires
        d.wf(),
        sp.0 <= sp.1 <= d.cs@.len(),
    ensures
        r.deep_view_conn() == conn_entry(sp_text(d.cs@, sp)),
{
    let ghost line = sp_text(d.cs@, sp);
    let t = trim_span(&d.cs, sp.0, sp.1);
    let ghost tt = sp_text(d.cs@, t);
    let colon = find_char(&d.cs, t.0, t.1, ':');
    if colon < t.1 {
        assert(tt.take(colon - t.0) =~= d.cs@.subrange(t.0 as int, colon as int));
        assert(tt.skip(colon - t.0 + 1) =~= d.cs@.subrange(colon + 1, t.1 as int));
        let name = trim_span(&d.cs, t.0, colon);
        let rest = trim_span(&d.cs, colon + 1, t.1);
        let toks = token_spans(&d.cs, rest.0, rest.1);
        if toks.len() > 0 {
            let room = toks[0];
            assert(span_texts(d.cs@, toks@)[0] == sp_text(d.cs@, room));
            let identity = opt_string(d, flag_value_span(&d.cs, rest.0, rest.1, "--as"));
            let model = match flag_value_span(&d.cs, rest.0, rest.1, "--model") {
                Some(m) => d.string_of(m),
                None => placeholder(),
            };
            Some(
                DeclaredConnection {
                    name: d.string_of(name),
                    room_id: d.string_of(room),
                    identity,
                    model,
                },
            )
        } else {
            None
        }
    } else {
        None
    }
}

pub trait OptConnView {
    spec fn deep_view_conn(&self) -> Option<ConnectionView>;
}

impl OptConnView for Option<DeclaredConnection> {
    open spec fn deep_view_conn(&self) -> Option<ConnectionView> {
        match self {
            Some(c) => Some(c@),
            None => None,
        }
    }
}

/// Parse the `connections:` block into declared poll connections. The block is a
/// `connections:` header followed by indented `name: room-id [--as identity]
/// [--model model]` lines; a non-indented non-empty line ends it.
pub fn parse_connections(content: &str) -> (r: Vec<DeclaredConnection>)
    ensures
        conns_view(r@) == spec_parse_connections(content@),
{
    let d = Doc::new(content);
    let ghost ls = lines(content@);
    let n = d.lines.len();
    let mut conns: Vec<DeclaredConnection> = Vec::new();
    let mut in_block = false;
    let mut i: usize = 0;
    assert(ls.take(0) =~= Seq::<Seq<char>>::empty());
    assert(conns_view(conns@) =~= Seq::<ConnectionView>::empty());
    while i < n
        invariant
            d.wf(),
            d.src == content,
            ls == lines(content@),
            n == d.lines@.len() == ls.len(),
            i <= n,
            conns_scan(ls.take(i as int)) == (in_block, conns_view(conns@)),
        decreases n - i,
    {
        proof {
            lemma_line_text(&d, i as int);
            assert(ls.take(i + 1).drop_last() =~= ls.take(i as int));
            assert(ls.take(i + 1).last() == ls[i as int]);
        }
        let sp = d.lines[i];
        let ghost line = ls[i as int];
        let t = trim_span(&d.cs, sp.0, sp.1);
        let ghost before = conns_view(conns@);
        if span_eq(&d.cs, t.0, t.1, "connections:") {
            in_block = true;
        } else if !in_block {
        } else if t.0 == t.1 {
        } else if !(d.cs[sp.0] == ' ' || d.cs[sp.0] == '\t') {
            assert(line[0] == d.cs@[sp.0 as int]);
            in_block = false;
        } else {
            assert(line[0] == d.cs@[sp.0 as int]);
            match conn_entry_at(&d, sp) {
                Some(c) => {
                    conns.push(c);
                    assert(conns_view(conns@) =~= before.push(c@));
                },
                None => {},
            }
        }
        i = i + 1;
    }
    assert(ls.take(n as int) =~= ls);
    conns
}

/// Parse the worker `mode:` field. Absent or unrecognized means `Direct`.
pub fn parse_worker_mode(content: &str) -> (r: WorkerMode)
    ensures
        r == spec_worker_mode(content@),
{
    let d = Doc::new(content);
    match first_kv_span(&d, "mode") {
        Some(v) => if span_eq(&d.cs, v.0, v.1, "worker") {
            WorkerMode::Worker
        } else {
            WorkerMode::Direct
        },
        None => WorkerMode::Direct,
    }
}

proof fn lemma_flag_value_empty(flag: Seq<char>)
    ensures
        spec_flag_value(seq![], flag) is None,
{
    let e: Seq<char> = seq![];
    assert(tokens(e) =~= Seq::<Seq<char>>::empty());
}

/// Parse a `.cbc/worker-*.md` file: `None` unless it is `ACTIVE` and has a
/// `room-id:`. `model:` falls back to the poll label's `--model`, then to
/// `"<model>"`; a missing `poll-label:` reads as empty; the identity is the
/// poll label's `--as`.
pub fn parse_worker(content: &str) -> (r: Option<WorkerEntry>)
    ensures
        match r {
            Some(w) => spec_parse_worker(content@) == Some(w@),
            None => spec_parse_worker(content@) is None,
        },
{
    let d = Doc::new(content);
    if !doc_is_active(&d) {
        return None;
    }
    let room = match first_kv_span(&d, "room-id") {
        Some(sp) => sp,
        None => {
            return None;
        },
    };
    let label_sp = first_kv_span(&d, "poll-label");
    let (poll_label, identity, label_model) = match label_sp {
        Some(l) => (
            d.string_of(l),
            opt_string(&d, flag_value_span(&d.cs, l.0, l.1, "--as")),
            opt_string(&d, flag_value_span(&d.cs, l.0, l.1, "--model")),
        ),
        None => {
            proof {
                lemma_flag_value_empty("--as"@);
                lemma_flag_value_empty("--model"@);
            }
            (String::new(), None, None)
        },
    };
    let model = match first_kv_span(&d, "model") {
        Some(m) => d.string_of(m),
        None => match label_model {
            Some(m) => m,
            None => placeholder(),
        },
    };
    let w = WorkerEntry { room_id: d.string_of(room), poll_label, model, identity };
    assert(spec_parse_worker(content@) == Some(w@));
    Some(w)
}

/// Absolute index of the first `": "` in `cs[lo..hi]`, or `hi`.
fn find_colon_space(cs: &Vec<char>, lo: usize, hi: usize) -> (r: usize)
    requires
        lo <= hi <= cs@.len(),
    ensures
        lo <= r <= hi,
        r < hi ==> r + 2 <= hi,
        r - lo == first_colon_space(cs@.subrange(lo as int, hi as int)),
{
    let mut i = lo;
    while hi - i >= 2 && !(cs[i] == ':' && cs[i + 1] == ' ')
        invariant
            lo <= i <= hi <= cs@.len(),
            first_colon_space(cs@.subrange(lo as int, hi as int)) == (i - lo) + first_colon_space(
                cs@.subrange(i as int, hi as int),
            ),
        decreases hi - i,
    {
        assert(cs@.subrange(i as int, hi as int).drop_first() =~= cs@.subrange(
            i + 1,
            hi as int,
        ));
        i = i + 1;
    }
    if hi - i < 2 {
        hi
    } else {
        i
    }
}

fn agent_entry_at(d: &Doc, sp: Span) -> (r: Option<(String, String)>)
    requires
        d.wf(),
        sp.0 <= sp.1 <= d.cs@.len(),
    ensures
        match r {
            Some(p) => agent_entry(sp_text(d.cs@, sp)) == Some((p.0@, p.1@)),
            None => agent_entry(sp_text(d.cs@, sp)) is None,
        },
{
    let t = trim_span(&d.cs, sp.0, sp.1);
    let ghost tt = sp_text(d.cs@, t);
    let c = find_colon_space(&d.cs, t.0, t.1);
    if c < t.1 {
        assert(tt.take(c - t.0) =~= d.cs@.subrange(t.0 as int, c as int));
        assert(tt.skip(c - t.0 + 2) =~= d.cs@.subrange(c + 2, t.1 as int));
        let name = trim_span(&d.cs, t.0, c);
        let rest = trim_span(&d.cs, c + 2, t.1);
        let toks = token_spans(&d.cs, rest.0, rest.1);
        if toks.len() > 0 {
            assert(span_texts(d.cs@, toks@)[0] == sp_text(d.cs@, toks@[0]));
            Some((d.string_of(name), d.string_of(toks[0])))
        } else {
            None
        }
    } else {
        None
    }
}

/// Parse a `.cbc/orchestration-*.md` file: `None` unless it is `ACTIVE` and its
/// `agents:` block names at least one room. The top-level (non-indented)
/// `model:` is used, defaulting to `"<model>"`.
pub fn parse_orchestrator(content: &str) -> (r: Option<OrchestratorEntry>)
    ensures
        match r {
            Some(o) => spec_parse_orchestrator(content@) == Some(o@),
            None => spec_parse_orchestrator(content@) is None,
        },
{
    let d = Doc::new(content);
    if !doc_is_active(&d) {
        return None;
    }
    let ghost ls = lines(content@);
    let n = d.lines.len();
    let mut model: Option<Span> = None;
    let mut in_agents = false;
    let mut rooms: Vec<(String, String)> = Vec::new();
    let mut i: usize = 0;
    assert(ls.take(0) =~= Seq::<Seq<char>>::empty());
    assert(pairs_view(rooms@) =~= Seq::<(Seq<char>, Seq<char>)>::empty());
    while i < n
        invariant
            d.wf(),
            d.src == content,
            ls == lines(content@),
            n == d.lines@.len() == ls.len(),
            i <= n,
            model matches Some(m) ==> m.0 <= m.1 <= d.cs@.len(),
            orch_scan(ls.take(i as int)) == (OrchScan {
                model: match model {
                    Some(m) => Some(sp_text(d.cs@, m)),
                    None => None,
                },
                in_agents,
                rooms: pairs_view(rooms@),
            }),
        decreases n - i,
    {
        proof {
            lemma_line_text(&d, i as int);
            assert(ls.take(i + 1).drop_last() =~= ls.take(i as int));
            assert(ls.take(i + 1).last() == ls[i as int]);
        }
        let sp = d.lines[i];
        let ghost line = ls[i as int];
        let ghost before = pairs_view(rooms@);
        let t = trim_span(&d.cs, sp.0, sp.1);
        let ind = sp.0 < sp.1 && (d.cs[sp.0] == ' ' || d.cs[sp.0] == '\t');
        assert(sp.0 < sp.1 ==> line[0] == d.cs@[sp.0 as int]);
        assert(ind == indented(line));
        if model.is_none() && !ind {
            match kv_span(&d.cs, t.0, t.1, "model") {
                Some(v) => {
                    model = Some(v);
                },
                None => {},
            }
        }
        if span_eq(&d.cs, t.0, t.1, "agents:") {
            in_agents = true;
        } else if in_agents {
            if t.0 == t.1 {
            } else if !ind {
                in_agents = false;
            } else {
                match agent_entry_at(&d, sp) {
                    Some(p) => {
                        let ghost pv = (p.0@, p.1@);
                        rooms.push(p);
                        assert(pairs_view(rooms@) =~= before.push(pv));
                    },
                    None => {},
                }
            }
        }
        i = i + 1;
    }
    assert(ls.take(n as int) =~= ls);
    if rooms.len() == 0 {
        return None;
    }
    let model_s = match model {
        Some(m) => d.string_of(m),
        None => placeholder(),
    };
    Some(OrchestratorEntry { model: model_s, rooms })
}

/// The unified declared-connection list for a state file: a `connections:`
/// block wins; otherwise the legacy orchestrator `agents:` rooms (no identity,
/// the orchestrator's model); otherwise the legacy worker's single room, with the
/// identity recovered from its poll label.
pub fn declared_connections(content: &str) -> (r: Vec<DeclaredConnection>)
    ensures
        conns_view(r@) == spec_declared(content@),
{
    let from_block = parse_connections(content);
    if from_block.len() > 0 {
        return from_block;
    }
    match parse_orchestrator(content) {
        Some(o) => {
            let mut out: Vec<DeclaredConnection> = Vec::new();
            let ghost ov = o@;
            let n = o.rooms.len();
            let mut i: usize = 0;
            while i < n
                invariant
                    ov == o@,
                    n == o.rooms@.len(),
                    i <= n,
                    conns_view(out@) =~= ov.rooms.take(i as int).map_values(
                        |r: (Seq<char>, Seq<char>)|
                            ConnectionView {
                                name: r.0,
                                room_id: r.1,
                                identity: None,
                                model: ov.model,
                            },
                    ),
                decreases n - i,
            {
                let c = DeclaredConnection {
                    name: o.rooms[i].0.clone(),
                    room_id: o.rooms[i].1.clone(),
                    identity: None,
                    model: o.model.clone(),
                };
                let ghost before = conns_view(out@);
                out.push(c);
                assert(ov.rooms[i as int] == (o.rooms@[i as int].0@, o.rooms@[i as int].1@));
                assert(conns_view(out@) =~= before.push(c@));
                assert(ov.rooms.take(i + 1) =~= ov.rooms.take(i as int).push(ov.rooms[i as int]));
                i = i + 1;
            }
            assert(ov.rooms.take(n as int) =~= ov.rooms);
            out
        },
        None => match parse_worker(content) {
            Some(w) => {
                let c = DeclaredConnection {
                    name: w.poll_label,
                    room_id: w.room_id,
                    identity: w.identity,
                    model: w.model,
                };
                let mut out: Vec<DeclaredConnection> = Vec::new();
                out.push(c);
                assert(conns_view(out@) =~= spec_declared(content@));
                out
            },
            None => {
                let out: Vec<DeclaredConnection> = Vec::new();
                assert(conns_view(out@) =~= Seq::<ConnectionView>::empty());
                out
            },
        },
    }
}

} // verus!
