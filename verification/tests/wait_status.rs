use cbc::wait_status::WaitStatus;

#[test]
fn from_wire_maps_every_known_status() {
    assert_eq!(
        WaitStatus::from_wire("paused_by_timeout"),
        WaitStatus::PausedByTimeout
    );
    assert_eq!(
        WaitStatus::from_wire("awaiting_counterpart"),
        WaitStatus::AwaitingCounterpart
    );
    assert_eq!(
        WaitStatus::from_wire("counterpart_stale"),
        WaitStatus::CounterpartStale
    );
    assert_eq!(
        WaitStatus::from_wire("close_proposed"),
        WaitStatus::CloseProposed
    );
    assert_eq!(
        WaitStatus::from_wire("extend_proposed"),
        WaitStatus::ExtendProposed
    );
    assert_eq!(WaitStatus::from_wire("paused"), WaitStatus::Paused);
    assert_eq!(WaitStatus::from_wire("closed"), WaitStatus::Closed);
    assert_eq!(WaitStatus::from_wire("archived"), WaitStatus::Archived);
}

#[test]
fn an_unrecognized_status_parses_to_unknown_carrying_the_raw_string() {
    assert_eq!(
        WaitStatus::from_wire("some_future_status"),
        WaitStatus::Unknown("some_future_status".to_string())
    );
    // Unknown still yields safe, non-empty guidance that echoes the raw status.
    let g = WaitStatus::from_wire("some_future_status").guidance();
    assert!(
        g.contains("some_future_status") && g.contains("Stop polling"),
        "got: {g}"
    );
}

#[test]
fn every_status_has_non_empty_guidance() {
    for s in [
        "paused_by_timeout",
        "awaiting_counterpart",
        "counterpart_stale",
        "close_proposed",
        "extend_proposed",
        "paused",
        "closed",
        "archived",
        "anything_else",
    ] {
        assert!(
            !WaitStatus::from_wire(s).guidance().trim().is_empty(),
            "empty guidance for status {s}"
        );
    }
}

#[test]
fn the_hold_statuses_carry_the_not_a_stop_contract() {
    // These substrings are the always-poll contract the two surfaces and the
    // mcp `wait_next_carves_the_three_status_buckets` guard depend on.
    let alone = WaitStatus::AwaitingCounterpart.guidance();
    assert!(
        alone.contains("NOT a stop") && alone.contains("Keep waiting"),
        "got: {alone}"
    );
    let stale = WaitStatus::CounterpartStale.guidance();
    assert!(
        stale.contains("NOT a stop") && stale.contains("slower cadence"),
        "got: {stale}"
    );
}
