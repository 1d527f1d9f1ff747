//! The control flow behind `cbc poll`: a pure decision from one wait result
//! and the accumulated counters to the next step. A message or a
//! decision/terminal status hands back to the agent; a missing counterpart
//! (`awaiting_counterpart`) or a quiet one (`counterpart_stale`) is held, each
//! bounded by its own window; empty polls are bounded by `--max-polls`.
use vstd::prelude::*;
use crate::protocol::WaitResponse;
use crate::wait_status::{lemma_wire_shapes, WaitStatus};

verus! {

/// Floor between re-waits, so a wait that returns instantly never busy-spins.
pub const MIN_REPOLL_SLEEP_SECS: u64 = 1;

/// Floor for the join and stale backoffs (both statuses return instantly).
pub const MIN_BACKOFF_SECS: u64 = 1;

/// Largest window a sole poll waits for a counterpart to join: an hour.
pub const SAFE_JOIN_WAIT_CAP_SECS: u64 = 3600;

/// After this much accumulated quiet the re-check cadence slows down.
pub const QUIET_ESCALATE_AFTER_SECS: u64 = 1800;

/// The slow cadence a long quiet spell escalates to: about once a minute.
pub const QUIET_BACKOFF_CAP_SECS: u64 = 60;

/// Consecutive wait errors after which the poll gives up.
pub const MAX_CONSECUTIVE_ERRORS: u32 = 5;

/// The larger of two.
pub open spec fn max_u64(a: u64, b: u64) -> u64 {
    if a >= b {
        a
    } else {
        b
    }
}

/// `0` ("max safe window") and any over-large value collapse to the cap.
pub open spec fn spec_effective_max_join_wait(secs: u64) -> u64 {
    if secs == 0 || secs > SAFE_JOIN_WAIT_CAP_SECS {
        SAFE_JOIN_WAIT_CAP_SECS
    } else {
        secs
    }
}

/// Resolve the effective join-wait bound.
pub fn effective_max_join_wait(secs: u64) -> (r: u64)
    ensures
        r == spec_effective_max_join_wait(secs),
{
    if secs == 0 || secs > SAFE_JOIN_WAIT_CAP_SECS {
        SAFE_JOIN_WAIT_CAP_SECS
    } else {
        secs
    }
}

/// The join window is never zero and never longer than an hour.
pub proof fn law_join_window_is_bounded(secs: u64)
    ensures
        1 <= spec_effective_max_join_wait(secs) <= SAFE_JOIN_WAIT_CAP_SECS,
        1 <= secs <= SAFE_JOIN_WAIT_CAP_SECS ==> spec_effective_max_join_wait(secs) == secs,
{
}

/// The re-check cadence of a quiet hold: `base` for the first half hour of
/// quiet, then at least once-a-minute; never below the floor.
pub open spec fn spec_quiet_backoff(base: u64, elapsed_quiet_secs: u64) -> u64 {
    let secs = if elapsed_quiet_secs < QUIET_ESCALATE_AFTER_SECS {
        base
    } else {
        max_u64(base, QUIET_BACKOFF_CAP_SECS)
    };
    max_u64(secs, MIN_BACKOFF_SECS)
}

/// Re-check cadence for a quiet hold, given the base cadence and how much
/// quiet has accumulated.
pub fn quiet_backoff(base: u64, elapsed_quiet_secs: u64) -> (r: u64)
    ensures
        r == spec_quiet_backoff(base, elapsed_quiet_secs),
{
    let secs = if elapsed_quiet_secs < QUIET_ESCALATE_AFTER_SECS {
        base
    } else if base >= QUIET_BACKOFF_CAP_SECS {
        base
    } else {
        QUIET_BACKOFF_CAP_SECS
    };
    if secs >= MIN_BACKOFF_SECS {
        secs
    } else {
        MIN_BACKOFF_SECS
    }
}

/// The resolved knobs and the counters threaded through `poll_decision`.
#[derive(Debug, Clone, Copy, PartialEq, Eq)]
pub struct PollState {
    pub max_polls: u32,
    pub join_backoff_secs: u64,
    pub max_join_wait_secs: u64,
    pub stale_backoff_secs: u64,
    pub max_stale_wait_secs: u64,
    pub empty_polls: u32,
    pub join_wait_secs: u64,
    pub stale_wait_secs: u64,
    /// Whether the one-time "counterpart quiet" heads-up was already emitted
    /// for the current stale spell.
    pub stale_announced: bool,
}

/// The state with stale tracking cleared: a fresh hold budget and a fresh
/// heads-up for the next stale spell.
pub open spec fn cleared(st: PollState) -> PollState {
    PollState { stale_wait_secs: 0, stale_announced: false, ..st }
}

/// Fresh counters over the given knobs; the join and stale backoffs are
/// floored at one second.
pub open spec fn fresh_state(
    max_polls: u32,
    join_backoff_secs: u64,
    max_join_wait_secs: u64,
    stale_backoff_secs: u64,
    max_stale_wait_secs: u64,
) -> PollState {
    PollState {
        max_polls,
        join_backoff_secs: max_u64(join_backoff_secs, MIN_BACKOFF_SECS),
        max_join_wait_secs,
        stale_backoff_secs: max_u64(stale_backoff_secs, MIN_BACKOFF_SECS),
        max_stale_wait_secs,
        empty_polls: 0,
        join_wait_secs: 0,
        stale_wait_secs: 0,
        stale_announced: false,
    }
}

impl PollState {
    /// Fresh counters; the join and stale backoffs are floored at one second.
    pub fn new(
        max_polls: u32,
        join_backoff_secs: u64,
        max_join_wait_secs: u64,
        stale_backoff_secs: u64,
        max_stale_wait_secs: u64,
    ) -> (r: PollState)
        ensures
            r == fresh_state(
                max_polls,
                join_backoff_secs,
                max_join_wait_secs,
                stale_backoff_secs,
                max_stale_wait_secs,
            ),
    {
        PollState {
            max_polls,
            join_backoff_secs: if join_backoff_secs >= MIN_BACKOFF_SECS {
                join_backoff_secs
            } else {
                MIN_BACKOFF_SECS
            },
            max_join_wait_secs,
            stale_backoff_secs: if stale_backoff_secs >= MIN_BACKOFF_SECS {
                stale_backoff_secs
            } else {
                MIN_BACKOFF_SECS
            },
            max_stale_wait_secs,
            empty_polls: 0,
            join_wait_secs: 0,
            stale_wait_secs: 0,
            stale_announced: false,
        }
    }

    /// Clear stale tracking once the counterpart is no longer dark.
    pub fn clear_stale(&mut self)
        ensures
            *final(self) == cleared(*old(self)),
    {
        self.stale_wait_secs = 0;
        self.stale_announced = false;
    }
}

/// What the poll loop should do with one wait result.
#[derive(Debug, Clone, Copy, PartialEq, Eq)]
pub enum PollAction {
    /// A real message arrived — emit it and exit.
    Deliver,
    /// A terminal room state or a decision-needed status — emit it and exit.
    ExitStatus,
    /// A bounded poll exhausted its `--max-polls` budget with no message.
    GiveUpEmpty,
    /// No counterpart joined within the join-wait bound.
    GiveUpJoin,
    /// A stale counterpart stayed silent past the hold window.
    GiveUpStale,
    /// Keep waiting: sleep `secs`, then re-poll; `announce_stale` prints the
    /// one-time hold heads-up first.
    Wait { secs: u64, announce_stale: bool },
}

/// The sleep before re-polling after an empty poll: the server's hint, but
/// never below the floor.
pub open spec fn repoll_secs(retry_after: Option<u32>) -> u64 {
    match retry_after {
        Some(s) => max_u64(s as u64, MIN_REPOLL_SLEEP_SECS),
        None => MIN_REPOLL_SLEEP_SECS,
    }
}

/// The decision for one wait result: the new counters and the action.
pub open spec fn spec_decide(resp: WaitResponse, st: PollState) -> (PollState, PollAction) {
    match resp {
        WaitResponse::Message { .. } => (cleared(st), PollAction::Deliver),
        WaitResponse::Timeout { status, retry_after } => {
            if status@ == "paused_by_timeout"@ {
                let st1 = PollState { empty_polls: (st.empty_polls + 1) as u32, ..cleared(st) };
                if st1.max_polls != 0 && st1.empty_polls >= st1.max_polls {
                    (st1, PollAction::GiveUpEmpty)
                } else {
                    (st1, PollAction::Wait { secs: repoll_secs(retry_after), announce_stale: false })
                }
            } else if status@ == "awaiting_counterpart"@ {
                if st.max_join_wait_secs != 0 && st.join_wait_secs >= st.max_join_wait_secs {
                    (st, PollAction::GiveUpJoin)
                } else {
                    let secs = spec_quiet_backoff(st.join_backoff_secs, st.join_wait_secs);
                    (
                        PollState { join_wait_secs: (st.join_wait_secs + secs) as u64, ..st },
                        PollAction::Wait { secs, announce_stale: false },
                    )
                }
            } else if status@ == "counterpart_stale"@ {
                if st.max_stale_wait_secs != 0 && st.stale_wait_secs >= st.max_stale_wait_secs {
                    (st, PollAction::GiveUpStale)
                } else {
                    let secs = spec_quiet_backoff(st.stale_backoff_secs, st.stale_wait_secs);
                    (
                        PollState {
                            stale_wait_secs: (st.stale_wait_secs + secs) as u64,
                            stale_announced: true,
                            ..st
                        },
                        PollAction::Wait { secs, announce_stale: !st.stale_announced },
                    )
                }
            } else {
                (st, PollAction::ExitStatus)
            }
        },
    }
}

/// The counters can absorb the decision for `resp` without overflowing.
pub open spec fn spec_decision_fits(resp: WaitResponse, st: PollState) -> bool {
    match resp {
        WaitResponse::Message { .. } => true,
        WaitResponse::Timeout { status, .. } => {
            if status@ == "paused_by_timeout"@ {
                st.empty_polls < u32::MAX
            } else if status@ == "awaiting_counterpart"@ {
                st.join_wait_secs + spec_quiet_backoff(st.join_backoff_secs, st.join_wait_secs)
                    <= u64::MAX
            } else if status@ == "counterpart_stale"@ {
                st.stale_wait_secs + spec_quiet_backoff(st.stale_backoff_secs, st.stale_wait_secs)
                    <= u64::MAX
            } else {
                true
            }
        },
    }
}

/// Whether `poll_decision` can take `resp` in state `st` without a counter
/// overflowing.
pub fn decision_fits(resp: &WaitResponse, st: &PollState) -> (r: bool)
    ensures
        r == spec_decision_fits(*resp, *st),
{
    match resp {
        WaitResponse::Message { .. } => true,
        WaitResponse::Timeout { status, .. } => {
            proof {
                lemma_wire_shapes();
            }
            match WaitStatus::from_wire(status.as_str()) {
                WaitStatus::PausedByTimeout => st.empty_polls < u32::MAX,
                WaitStatus::AwaitingCounterpart => {
                    let secs = quiet_backoff(st.join_backoff_secs, st.join_wait_secs);
                    st.join_wait_secs <= u64::MAX - secs
                },
                WaitStatus::CounterpartStale => {
                    let secs = quiet_backoff(st.stale_backoff_secs, st.stale_wait_secs);
                    st.stale_wait_secs <= u64::MAX - secs
                },
                _ => true,
            }
        },
    }
}

/// Decide the next step for one `cbc poll` wait result, updating the counters.
pub fn poll_decision(resp: &WaitResponse, st: &mut PollState) -> (r: PollAction)
    requires
        spec_decision_fits(*resp, *old(st)),
    ensures
        (*final(st), r) == spec_decide(*resp, *old(st)),
{
    match resp {
        WaitResponse::Message { .. } => {
            st.clear_stale();
            PollAction::Deliver
        },
        WaitResponse::Timeout { status, retry_after } => {
            proof {
                lemma_wire_shapes();
            }
            match WaitStatus::from_wire(status.as_str()) {
                WaitStatus::PausedByTimeout => {
                    st.clear_stale();
                    st.empty_polls = st.empty_polls + 1;
                    if st.max_polls != 0 && st.empty_polls >= st.max_polls {
                        return PollAction::GiveUpEmpty;
                    }
                    let secs = match retry_after {
                        Some(s) => {
                            if *s as u64 >= MIN_REPOLL_SLEEP_SECS {
                                *s as u64
                            } else {
                                MIN_REPOLL_SLEEP_SECS
                            }
                        },
                        None => MIN_REPOLL_SLEEP_SECS,
                    };
                    PollAction::Wait { secs, announce_stale: false }
                },
                WaitStatus::AwaitingCounterpart => {
                    if st.max_join_wait_secs != 0 && st.join_wait_secs >= st.max_join_wait_secs {
                        return PollAction::GiveUpJoin;
                    }
                    let secs = quiet_backoff(st.join_backoff_secs, st.join_wait_secs);
                    st.join_wait_secs = st.join_wait_secs + secs;
                    PollAction::Wait { secs, announce_stale: false }
                },
                WaitStatus::CounterpartStale => {
                    if st.max_stale_wait_secs != 0 && st.stale_wait_secs
                        >= st.max_stale_wait_secs {
                        return PollAction::GiveUpStale;
                    }
                    let announce_stale = !st.stale_announced;
                    st.stale_announced = true;
                    let secs = quiet_backoff(st.stale_backoff_secs, st.stale_wait_secs);
                    st.stale_wait_secs = st.stale_wait_secs + secs;
                    PollAction::Wait { secs, announce_stale }
                },
                WaitStatus::CloseProposed
                | WaitStatus::ExtendProposed
                | WaitStatus::Paused
                | WaitStatus::Closed
                | WaitStatus::Archived
                | WaitStatus::Unknown(_) => PollAction::ExitStatus,
            }
        },
    }
}

/// The timeout status of a response, if it is one.
pub open spec fn status_of(resp: WaitResponse) -> Option<Seq<char>> {
    match resp {
        WaitResponse::Message { .. } => None,
        WaitResponse::Timeout { status, .. } => Some(status@),
    }
}

/// A waiting decision never spins: every sleep is at least a second.
pub proof fn law_wait_never_spins(resp: WaitResponse, st: PollState)
    ensures
        spec_decide(resp, st).1 matches PollAction::Wait { secs, .. } ==> secs >= 1,
{
}

/// The resolved knobs are never changed by a decision; only the counters move.
pub proof fn law_knobs_are_kept(resp: WaitResponse, st: PollState)
    ensures
        ({
            let st1 = spec_decide(resp, st).0;
            &&& st1.max_polls == st.max_polls
            &&& st1.join_backoff_secs == st.join_backoff_secs
            &&& st1.max_join_wait_secs == st.max_join_wait_secs
            &&& st1.stale_backoff_secs == st.stale_backoff_secs
            &&& st1.max_stale_wait_secs == st.max_stale_wait_secs
        }),
{
}

/// A delivered message, or a plain empty poll (the counterpart is back), ends
/// a stale spell: its hold budget and its heads-up both start afresh.
pub proof fn law_returning_counterpart_resets_the_stale_hold(resp: WaitResponse, st: PollState)
    requires
        resp is Message || status_of(resp) == Some("paused_by_timeout"@),
    ensures
        spec_decide(resp, st).0.stale_wait_secs == 0,
        !spec_decide(resp, st).0.stale_announced,
{
}

/// The quiet heads-up fires once per stale spell: a stale hold announces only
/// when nothing was announced yet, and after it, further stale holds stay
/// silent until the spell ends.
pub proof fn law_heads_up_once_per_spell(r1: WaitResponse, r2: WaitResponse, st: PollState)
    requires
        status_of(r1) == Some("counterpart_stale"@),
        status_of(r2) == Some("counterpart_stale"@),
        spec_decide(r1, st).1 is Wait,
    ensures
        spec_decide(r1, st).1 matches PollAction::Wait { announce_stale, .. }
            && announce_stale == !st.stale_announced,
        spec_decide(r1, st).0.stale_announced,
        !(spec_decide(r2, spec_decide(r1, st).0).1 matches PollAction::Wait { announce_stale, .. }
            && announce_stale),
{
    lemma_wire_shapes();
}

/// Every hold makes progress toward its window: a join or stale hold adds at
/// least a second to its accumulated wait, so a non-zero window is always
/// reached; the hold gives up exactly when the window is used up.
pub proof fn law_holds_progress_to_their_window(resp: WaitResponse, st: PollState)
    requires
        spec_decision_fits(resp, st),
    ensures
        status_of(resp) == Some("awaiting_counterpart"@) ==> {
            let (st1, a) = spec_decide(resp, st);
            &&& (a is GiveUpJoin <==> (st.max_join_wait_secs != 0 && st.join_wait_secs
                >= st.max_join_wait_secs))
            &&& (a is Wait ==> st1.join_wait_secs >= st.join_wait_secs + 1)
            &&& (a is GiveUpJoin || a is Wait)
        },
        status_of(resp) == Some("counterpart_stale"@) ==> {
            let (st1, a) = spec_decide(resp, st);
            &&& (a is GiveUpStale <==> (st.max_stale_wait_secs != 0 && st.stale_wait_secs
                >= st.max_stale_wait_secs))
            &&& (a is Wait ==> st1.stale_wait_secs >= st.stale_wait_secs + 1)
            &&& (a is GiveUpStale || a is Wait)
        },
{
    lemma_wire_shapes();
}

/// A zero stale window holds through a quiet counterpart indefinitely.
pub proof fn law_zero_stale_window_never_gives_up(resp: WaitResponse, st: PollState)
    requires
        st.max_stale_wait_secs == 0,
    ensures
        !(spec_decide(resp, st).1 is GiveUpStale),
{
    lemma_wire_shapes();
}

/// The quiet cadence holds the base for the first half hour, then slows to at
/// least once a minute, and is never below a second.
pub proof fn law_quiet_backoff_steps_up(base: u64, elapsed: u64)
    ensures
        spec_quiet_backoff(base, elapsed) >= MIN_BACKOFF_SECS,
        elapsed < QUIET_ESCALATE_AFTER_SECS ==> spec_quiet_backoff(base, elapsed) == max_u64(
            base,
            MIN_BACKOFF_SECS,
        ),
        elapsed >= QUIET_ESCALATE_AFTER_SECS ==> spec_quiet_backoff(base, elapsed) == max_u64(
            base,
            QUIET_BACKOFF_CAP_SECS,
        ),
{
}

/// The counters after deciding each of `resps` in turn from `st`.
pub open spec fn run_state(resps: Seq<WaitResponse>, st: PollState) -> PollState
    decreases resps.len(),
{
    if resps.len() == 0 {
        st
    } else {
        spec_decide(resps.last(), run_state(resps.drop_last(), st)).0
    }
}

/// The actions decided for each of `resps` in turn from `st`.
pub open spec fn run_actions(resps: Seq<WaitResponse>, st: PollState) -> Seq<PollAction>
    decreases resps.len(),
{
    if resps.len() == 0 {
        seq![]
    } else {
        run_actions(resps.drop_last(), st).push(
            spec_decide(resps.last(), run_state(resps.drop_last(), st)).1,
        )
    }
}

/// Two states share the resolved knobs.
pub open spec fn same_knobs(a: PollState, b: PollState) -> bool {
    &&& a.max_polls == b.max_polls
    &&& a.join_backoff_secs == b.join_backoff_secs
    &&& a.max_join_wait_secs == b.max_join_wait_secs
    &&& a.stale_backoff_secs == b.stale_backoff_secs
    &&& a.max_stale_wait_secs == b.max_stale_wait_secs
}

/// What every single decision honors under the knobs of `st`: a wait sleeps
/// at least a second; a zero budget or window never gives up; an empty poll
/// either exhausts the budget or sleeps the server's hint (floored at a
/// second) without a heads-up.
pub open spec fn decision_honors_knobs(resp: WaitResponse, a: PollAction, st: PollState) -> bool {
    &&& (a matches PollAction::Wait { secs, .. } ==> secs >= MIN_REPOLL_SLEEP_SECS)
    &&& (st.max_polls == 0 ==> !(a is GiveUpEmpty))
    &&& (st.max_join_wait_secs == 0 ==> !(a is GiveUpJoin))
    &&& (st.max_stale_wait_secs == 0 ==> !(a is GiveUpStale))
    &&& match resp {
        WaitResponse::Timeout { status, retry_after: Some(k) } => status@ == "paused_by_timeout"@
            ==> (a is GiveUpEmpty || a == PollAction::Wait {
            secs: max_u64(k as u64, MIN_REPOLL_SLEEP_SECS),
            announce_stale: false,
        }),
        _ => true,
    }
}

proof fn lemma_run(resps: Seq<WaitResponse>, st: PollState)
    ensures
        run_actions(resps, st).len() == resps.len(),
        same_knobs(run_state(resps, st), st),
        forall|i: int|
            0 <= i < resps.len() ==> #[trigger] run_actions(resps, st)[i] == spec_decide(
                resps[i],
                run_state(resps.take(i), st),
            ).1 && same_knobs(run_state(resps.take(i), st), st),
    decreases resps.len(),
{
    if resps.len() > 0 {
        let p = resps.drop_last();
        lemma_run(p, st);
        law_knobs_are_kept(resps.last(), run_state(p, st));
        assert forall|i: int| 0 <= i < resps.len() implies #[trigger] run_actions(resps, st)[i]
            == spec_decide(resps[i], run_state(resps.take(i), st)).1 && same_knobs(
            run_state(resps.take(i), st),
            st,
        ) by {
            if i < resps.len() - 1 {
                assert(resps.take(i) =~= p.take(i));
                assert(resps[i] == p[i]);
                assert(run_actions(p, st)[i] == spec_decide(p[i], run_state(p.take(i), st)).1);
            } else {
                assert(resps.take(i) =~= p);
            }
        }
    }
}

/// Over any sequence of wait results decided from fresh counters, every
/// decision honors the knobs: no wait ever sleeps under a second (even with
/// zero backoffs), a zero `--max-polls`, join window or stale window never
/// gives up, and an empty poll with a server hint `k` either exhausts the
/// budget or sleeps `max(k, 1)` seconds with no heads-up.
pub proof fn law_poll_run_honors_its_knobs(
    resps: Seq<WaitResponse>,
    max_polls: u32,
    join_backoff_secs: u64,
    max_join_wait_secs: u64,
    stale_backoff_secs: u64,
    max_stale_wait_secs: u64,
)
    ensures
        ({
            let st0 = fresh_state(
                max_polls,
                join_backoff_secs,
                max_join_wait_secs,
                stale_backoff_secs,
                max_stale_wait_secs,
            );
            let acts = run_actions(resps, st0);
            &&& acts.len() == resps.len()
            &&& forall|i: int|
                0 <= i < resps.len() ==> decision_honors_knobs(resps[i], #[trigger] acts[i], st0)
        }),
{
    let st0 = fresh_state(
        max_polls,
        join_backoff_secs,
        max_join_wait_secs,
        stale_backoff_secs,
        max_stale_wait_secs,
    );
    lemma_run(resps, st0);
    lemma_wire_shapes();
    assert forall|i: int| 0 <= i < resps.len() implies decision_honors_knobs(
        resps[i],
        #[trigger] run_actions(resps, st0)[i],
        st0,
    ) by {
        let sti = run_state(resps.take(i), st0);
        assert(run_actions(resps, st0)[i] == spec_decide(resps[i], sti).1);
        assert(same_knobs(sti, st0));
    }
}

/// What the poll loop does after one wait attempt.
#[derive(Debug, Clone, Copy, PartialEq, Eq)]
pub enum PollStep {
    /// Emit the delivered message and exit.
    Deliver,
    /// Emit the status with its guidance and exit.
    ExitStatus,
    /// The `--max-polls` budget ran out after `polls` empty polls.
    GiveUpEmpty { polls: u32 },
    /// No counterpart joined after `waited_secs`.
    GiveUpJoin { waited_secs: u64 },
    /// The counterpart stayed quiet for `waited_secs`.
    GiveUpStale { waited_secs: u64 },
    /// Sleep `secs` and wait again; when `heads_up_hold_secs` is set, first
    /// print the one-time quiet heads-up naming that hold window.
    Sleep { secs: u64, heads_up_hold_secs: Option<u64> },
    /// A transient wait error: sleep `secs` and retry.
    RetryAfterError { secs: u64 },
    /// Too many wait errors in a row: fail with the count.
    Fail { errors: u32 },
}

/// The loop step a decision turns into, reporting the counters it names.
pub open spec fn step_of(a: PollAction, st: PollState) -> PollStep {
    match a {
        PollAction::Deliver => PollStep::Deliver,
        PollAction::ExitStatus => PollStep::ExitStatus,
        PollAction::GiveUpEmpty => PollStep::GiveUpEmpty { polls: st.empty_polls },
        PollAction::GiveUpJoin => PollStep::GiveUpJoin { waited_secs: st.join_wait_secs },
        PollAction::GiveUpStale => PollStep::GiveUpStale { waited_secs: st.stale_wait_secs },
        PollAction::Wait { secs, announce_stale } => PollStep::Sleep {
            secs,
            heads_up_hold_secs: if announce_stale {
                Some(st.max_stale_wait_secs)
            } else {
                None
            },
        },
    }
}

/// The state of a running `cbc poll` loop: the decision counters plus the
/// run of consecutive wait errors.
#[derive(Debug, Clone, Copy, PartialEq, Eq)]
pub struct PollLoop {
    pub state: PollState,
    pub consecutive_errors: u32,
    pub error_backoff_secs: u64,
}

impl PollLoop {
    /// A loop that has not polled yet.
    pub fn new(
        max_polls: u32,
        error_backoff_secs: u64,
        join_backoff_secs: u64,
        max_join_wait_secs: u64,
        stale_backoff_secs: u64,
        max_stale_wait_secs: u64,
    ) -> (r: PollLoop)
        ensures
            r.state == fresh_state(
                max_polls,
                join_backoff_secs,
                max_join_wait_secs,
                stale_backoff_secs,
                max_stale_wait_secs,
            ),
            r.consecutive_errors == 0,
            r.error_backoff_secs == error_backoff_secs,
    {
        PollLoop {
            state: PollState::new(
                max_polls,
                join_backoff_secs,
                max_join_wait_secs,
                stale_backoff_secs,
                max_stale_wait_secs,
            ),
            consecutive_errors: 0,
            error_backoff_secs,
        }
    }

    /// A wait attempt failed: retry after the error backoff, or fail once
    /// `MAX_CONSECUTIVE_ERRORS` failures came in a row.
    pub fn on_wait_error(&mut self) -> (r: PollStep)
        requires
            old(self).consecutive_errors < MAX_CONSECUTIVE_ERRORS,
        ensures
            final(self).state == old(self).state,
            final(self).error_backoff_secs == old(self).error_backoff_secs,
            final(self).consecutive_errors == old(self).consecutive_errors + 1,
            r == (if final(self).consecutive_errors >= MAX_CONSECUTIVE_ERRORS {
                PollStep::Fail { errors: final(self).consecutive_errors }
            } else {
                PollStep::RetryAfterError { secs: old(self).error_backoff_secs }
            }),
    {
        self.consecutive_errors = self.consecutive_errors + 1;
        if self.consecutive_errors >= MAX_CONSECUTIVE_ERRORS {
            PollStep::Fail { errors: self.consecutive_errors }
        } else {
            PollStep::RetryAfterError { secs: self.error_backoff_secs }
        }
    }

    /// A wait attempt answered: the error run resets and the decision for
    /// the response becomes the next step.
    pub fn on_response(&mut self, resp: &WaitResponse) -> (r: PollStep)
        requires
            spec_decision_fits(*resp, old(self).state),
        ensures
            final(self).consecutive_errors == 0,
            final(self).error_backoff_secs == old(self).error_backoff_secs,
            final(self).state == spec_decide(*resp, old(self).state).0,
            r == step_of(spec_decide(*resp, old(self).state).1, final(self).state),
    {
        self.consecutive_errors = 0;
        let mut st = self.state;
        let a = poll_decision(resp, &mut st);
        self.state = st;
        match a {
            PollAction::Deliver => PollStep::Deliver,
            PollAction::ExitStatus => PollStep::ExitStatus,
            PollAction::GiveUpEmpty => PollStep::GiveUpEmpty { polls: st.empty_polls },
            PollAction::GiveUpJoin => PollStep::GiveUpJoin { waited_secs: st.join_wait_secs },
            PollAction::GiveUpStale => PollStep::GiveUpStale { waited_secs: st.stale_wait_secs },
            PollAction::Wait { secs, announce_stale } => PollStep::Sleep {
                secs,
                heads_up_hold_secs: if announce_stale {
                    Some(st.max_stale_wait_secs)
                } else {
                    None
                },
            },
        }
    }
}

} // verus!
