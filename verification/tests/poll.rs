use cbc::poll::{
    effective_max_join_wait, poll_decision, quiet_backoff, PollAction, PollState,
    MIN_BACKOFF_SECS, MIN_REPOLL_SLEEP_SECS, QUIET_BACKOFF_CAP_SECS, QUIET_ESCALATE_AFTER_SECS,
    SAFE_JOIN_WAIT_CAP_SECS,
};
use cbc::protocol::{MessageView, WaitResponse};
use cbc::ps::select_poll_pids;

fn timeout(status: &str) -> WaitResponse {
    WaitResponse::Timeout {
        status: status.to_string(),
        retry_after: None,
    }
}

fn a_message() -> WaitResponse {
    WaitResponse::Message {
        message: MessageView {
            seq: 1,
            from: "peer".into(),
            to: None,
            body: "hi".into(),
            created_at: "2026-06-10T00:00:00Z".into(),
            msg_type: "msg".into(),
            severity: None,
            question_text: None,
        },
        surface_to_user: false,
        retry_after: None,
        room_state: None,
    }
}

/// Default knobs: never-give-up on empty polls, 5s join backoff, 30s stale
/// backoff, 3600s join window, 3600s stale window — the CLI defaults (hold ~1hr).
fn state() -> PollState {
    PollState::new(0, 5, 3600, 30, 3600)
}


#[test]
fn join_wait_is_clamped_to_a_sane_upper_bound() {
    // 0 ("max safe window") and any over-large value collapse to the cap (an
    // hour) — the server now refreshes presence on every wait, so the old
    // sub-stale-threshold clamp is gone; this is just a sane maximum.
    assert_eq!(effective_max_join_wait(0), SAFE_JOIN_WAIT_CAP_SECS);
    assert_eq!(effective_max_join_wait(100_000), SAFE_JOIN_WAIT_CAP_SECS);
    // Reasonable explicit values pass through unchanged.
    assert_eq!(effective_max_join_wait(300), 300);
    assert_eq!(
        effective_max_join_wait(SAFE_JOIN_WAIT_CAP_SECS),
        SAFE_JOIN_WAIT_CAP_SECS
    );
}

#[test]
fn select_poll_pids_matches_identity_excludes_wrapper_and_peers() {
    // Canned `ps -o pid=,command=` output. The first line is the real poll
    // (>80 cols, so the `-ww` no-truncation fix matters in production); the
    // others must all be excluded:
    //   - the `/bin/zsh -c` background-task wrapper (argv0 is zsh, not cbc),
    //   - a peer's poll of the SAME room under a different `--as` identity,
    //   - an unrelated process.
    let ps = "  501 cbc poll report-engine-orch-20260624-0502 --model sonnet-4-6 --as engine-worker-recompute\n\
               \x20 777 /bin/zsh -c cbc poll report-engine-orch-20260624-0502 --model sonnet-4-6 --as engine-worker-recompute\n\
               \x20 888 cbc poll report-engine-orch-20260624-0502 --model sonnet-4-6 --as some-other-worker\n\
               \x20 999 /usr/bin/vim notes.md\n";

    // Identity-scoped: only this session's poll (501) is selected.
    assert_eq!(
        select_poll_pids(
            ps,
            "report-engine-orch-20260624-0502",
            Some("engine-worker-recompute")
        ),
        vec![501],
        "identity scope must pick only the matching --as, never the zsh wrapper or a peer"
    );

    // Legacy room-only (identity None): both real polls match (501, 888) but
    // never the wrapper — the documented room-wide fallback for un-migrated
    // files.
    assert_eq!(
        select_poll_pids(ps, "report-engine-orch-20260624-0502", None),
        vec![501, 888],
        "room-only fallback matches every real poll of the room, wrapper excluded"
    );

    // A room with no live poll selects nothing.
    assert!(select_poll_pids(ps, "no-such-room-20260101-0000", None).is_empty());
}

#[test]
fn quiet_backoff_holds_base_then_steps_to_the_cap() {
    // For the first half hour of quiet, hold at the base cadence...
    assert_eq!(quiet_backoff(30, 0), 30);
    assert_eq!(quiet_backoff(30, QUIET_ESCALATE_AFTER_SECS - 1), 30);
    assert_eq!(quiet_backoff(5, 0), 5);
    // ...then step up toward once-a-minute (the cap) for the rest of the hold.
    assert_eq!(
        quiet_backoff(30, QUIET_ESCALATE_AFTER_SECS),
        QUIET_BACKOFF_CAP_SECS
    );
    assert_eq!(
        quiet_backoff(5, QUIET_ESCALATE_AFTER_SECS),
        QUIET_BACKOFF_CAP_SECS
    );
    assert_eq!(quiet_backoff(5, 999_999), QUIET_BACKOFF_CAP_SECS);
    // Never below the floor, even with a zero base, so it can't tight-loop.
    assert_eq!(quiet_backoff(0, 0), MIN_BACKOFF_SECS);
}

#[test]
fn a_message_is_delivered() {
    assert_eq!(
        poll_decision(&a_message(), &mut state()),
        PollAction::Deliver
    );
}

#[test]
fn a_decision_or_terminal_status_hands_back() {
    for status in [
        "close_proposed",
        "extend_proposed",
        "closed",
        "paused",
        "archived",
        "something_unknown",
    ] {
        assert_eq!(
            poll_decision(&timeout(status), &mut state()),
            PollAction::ExitStatus,
            "{status} should hand back to the agent"
        );
    }
}

#[test]
fn a_quiet_counterpart_is_held_not_stopped() {
    let mut st = state();
    // First stale tick: hold at the slower cadence, announce once.
    assert_eq!(
        poll_decision(&timeout("counterpart_stale"), &mut st),
        PollAction::Wait {
            secs: 30,
            announce_stale: true
        }
    );
    // Subsequent ticks keep holding but do not re-announce.
    assert_eq!(
        poll_decision(&timeout("counterpart_stale"), &mut st),
        PollAction::Wait {
            secs: 30,
            announce_stale: false
        }
    );
    assert_eq!(st.stale_wait_secs, 60);
}

#[test]
fn a_stale_hold_gives_up_only_past_the_window() {
    // A 60s window at 30s cadence: hold, hold, then give up.
    let mut st = PollState::new(0, 5, 300, 30, 60);
    assert!(matches!(
        poll_decision(&timeout("counterpart_stale"), &mut st),
        PollAction::Wait { .. }
    ));
    assert!(matches!(
        poll_decision(&timeout("counterpart_stale"), &mut st),
        PollAction::Wait { .. }
    ));
    assert_eq!(
        poll_decision(&timeout("counterpart_stale"), &mut st),
        PollAction::GiveUpStale
    );
}

#[test]
fn a_zero_stale_window_holds_indefinitely() {
    let mut st = PollState::new(0, 5, 300, 30, 0);
    for _ in 0..100 {
        assert!(matches!(
            poll_decision(&timeout("counterpart_stale"), &mut st),
            PollAction::Wait { .. }
        ));
    }
}

#[test]
fn a_returning_counterpart_resets_the_stale_hold() {
    let mut st = state();
    // Accrue some stale time + the announce flag.
    poll_decision(&timeout("counterpart_stale"), &mut st);
    poll_decision(&timeout("counterpart_stale"), &mut st);
    assert!(st.stale_announced && st.stale_wait_secs > 0);
    // The peer comes back (a normal empty poll) — stale tracking clears...
    poll_decision(&timeout("paused_by_timeout"), &mut st);
    assert!(!st.stale_announced && st.stale_wait_secs == 0);
    // ...so a fresh spell announces again with a full budget.
    assert_eq!(
        poll_decision(&timeout("counterpart_stale"), &mut st),
        PollAction::Wait {
            secs: 30,
            announce_stale: true
        }
    );
}

#[test]
fn awaiting_counterpart_is_held_until_the_join_bound() {
    // 10s join window at 5s backoff: hold, hold, then give up on the join.
    let mut st = PollState::new(0, 5, 10, 30, 900);
    assert_eq!(
        poll_decision(&timeout("awaiting_counterpart"), &mut st),
        PollAction::Wait {
            secs: 5,
            announce_stale: false
        }
    );
    assert!(matches!(
        poll_decision(&timeout("awaiting_counterpart"), &mut st),
        PollAction::Wait { .. }
    ));
    assert_eq!(
        poll_decision(&timeout("awaiting_counterpart"), &mut st),
        PollAction::GiveUpJoin
    );
}

#[test]
fn empty_polls_keep_waiting_until_the_max_polls_bound() {
    // max_polls = 2: one keep-waiting, then give up.
    let mut st = PollState::new(2, 5, 300, 30, 900);
    assert_eq!(
        poll_decision(&timeout("paused_by_timeout"), &mut st),
        PollAction::Wait {
            secs: MIN_REPOLL_SLEEP_SECS,
            announce_stale: false
        }
    );
    assert_eq!(
        poll_decision(&timeout("paused_by_timeout"), &mut st),
        PollAction::GiveUpEmpty
    );
}

#[test]
fn a_zero_backoff_never_tight_loops() {
    // A 0 join/stale backoff is floored to MIN_BACKOFF_SECS so the re-check
    // cannot busy-spin on the instant-return statuses.
    let mut st = PollState::new(0, 0, 300, 0, 900);
    assert_eq!(
        poll_decision(&timeout("awaiting_counterpart"), &mut st),
        PollAction::Wait {
            secs: MIN_BACKOFF_SECS,
            announce_stale: false
        }
    );
    assert_eq!(
        poll_decision(&timeout("counterpart_stale"), &mut st),
        PollAction::Wait {
            secs: MIN_BACKOFF_SECS,
            announce_stale: true
        }
    );
}

#[test]
fn a_long_stale_spell_escalates_toward_once_a_minute() {
    let mut st = state();
    // Early in the spell: the brisk base cadence, announced once.
    assert_eq!(
        poll_decision(&timeout("counterpart_stale"), &mut st),
        PollAction::Wait {
            secs: 30,
            announce_stale: true
        }
    );
    // Once the accumulated quiet crosses the escalation threshold, the cadence
    // slows to ~once a minute (no re-announce).
    st.stale_wait_secs = QUIET_ESCALATE_AFTER_SECS;
    assert_eq!(
        poll_decision(&timeout("counterpart_stale"), &mut st),
        PollAction::Wait {
            secs: QUIET_BACKOFF_CAP_SECS,
            announce_stale: false
        }
    );
}

#[test]
fn a_long_join_spell_escalates_toward_once_a_minute() {
    let mut st = state();
    assert_eq!(
        poll_decision(&timeout("awaiting_counterpart"), &mut st),
        PollAction::Wait {
            secs: 5,
            announce_stale: false
        }
    );
    st.join_wait_secs = QUIET_ESCALATE_AFTER_SECS;
    assert_eq!(
        poll_decision(&timeout("awaiting_counterpart"), &mut st),
        PollAction::Wait {
            secs: QUIET_BACKOFF_CAP_SECS,
            announce_stale: false
        }
    );
}

#[test]
fn the_default_hold_runs_about_an_hour_before_giving_up() {
    // The CLI defaults hold ~1 hour for both the join and stale cases: holding
    // just shy of the window, giving up exactly at it. Pins the "long hold, then
    // a single reassuring wake" contract.
    let st = state();
    assert_eq!(st.max_join_wait_secs, 3600);
    assert_eq!(st.max_stale_wait_secs, 3600);

    let mut sj = state();
    sj.join_wait_secs = sj.max_join_wait_secs - 1;
    assert!(matches!(
        poll_decision(&timeout("awaiting_counterpart"), &mut sj),
        PollAction::Wait { .. }
    ));
    sj.join_wait_secs = sj.max_join_wait_secs;
    assert_eq!(
        poll_decision(&timeout("awaiting_counterpart"), &mut sj),
        PollAction::GiveUpJoin
    );

    let mut ss = state();
    ss.stale_wait_secs = ss.max_stale_wait_secs - 1;
    assert!(matches!(
        poll_decision(&timeout("counterpart_stale"), &mut ss),
        PollAction::Wait { .. }
    ));
    ss.stale_wait_secs = ss.max_stale_wait_secs;
    assert_eq!(
        poll_decision(&timeout("counterpart_stale"), &mut ss),
        PollAction::GiveUpStale
    );
}

#[test]
fn a_run_with_zero_knobs_never_spins_and_never_gives_up() {
    let mut st = PollState::new(0, 0, 0, 0, 0);
    let resps = [
        WaitResponse::Timeout { status: "paused_by_timeout".to_string(), retry_after: Some(0) },
        timeout("awaiting_counterpart"),
        timeout("counterpart_stale"),
        WaitResponse::Timeout { status: "paused_by_timeout".to_string(), retry_after: Some(7) },
        timeout("counterpart_stale"),
        timeout("awaiting_counterpart"),
    ];
    for _ in 0..200 {
        for r in &resps {
            match poll_decision(r, &mut st) {
                PollAction::Wait { secs, .. } => assert!(secs >= 1),
                other => panic!("a zero window must keep waiting, got {other:?}"),
            }
        }
    }
    assert_eq!(
        poll_decision(&resps[3], &mut st),
        PollAction::Wait { secs: 7, announce_stale: false }
    );
    assert_eq!(
        poll_decision(&resps[0], &mut st),
        PollAction::Wait { secs: 1, announce_stale: false }
    );
}
