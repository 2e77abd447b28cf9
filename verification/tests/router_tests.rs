use quic_monitor::registry::{ConnectionRegistry, ConnectionState};
use quic_monitor::router::{Disposition, EngineOutcome, EventRouter};

#[test]
fn admission_then_event_keeps_one_connection() {
    // datagram A: a new connection attempt, admitted under the engine's handle
    let mut router = EventRouter::new();
    let d = router.dispatch(Some(EngineOutcome::NewConnection));
    assert_eq!(d, Disposition::Admit);
    assert!(router.confirm_admitted(7));
    assert_eq!(router.connection_count(), 1);
    // datagram B: demultiplexed to the same connection
    let d = router.dispatch(Some(EngineOutcome::ConnectionEvent { handle: 7, closes: false }));
    assert_eq!(d, Disposition::Forwarded { handle: 7 });
    assert_eq!(router.connection_count(), 1);
}

#[test]
fn refusal_under_shutdown_leaves_registry_unchanged() {
    let mut router = EventRouter::new();
    router.begin_shutdown();
    let d = router.dispatch(Some(EngineOutcome::NewConnection));
    assert_eq!(d, Disposition::Refused);
    assert_eq!(router.connection_count(), 0);
}

#[test]
fn unknown_handle_event_dropped_without_change() {
    let mut router = EventRouter::new();
    assert!(router.confirm_admitted(3));
    let d = router.dispatch(Some(EngineOutcome::ConnectionEvent { handle: 99, closes: true }));
    assert_eq!(d, Disposition::DroppedUnknown { handle: 99 });
    assert_eq!(router.connection_count(), 1);
    assert!(router.contains_handle(3));
}

#[test]
fn two_distinct_handles_both_admitted() {
    let mut router = EventRouter::new();
    assert_eq!(router.dispatch(Some(EngineOutcome::NewConnection)), Disposition::Admit);
    assert!(router.confirm_admitted(1));
    assert_eq!(router.dispatch(Some(EngineOutcome::NewConnection)), Disposition::Admit);
    assert!(router.confirm_admitted(2));
    assert!(router.contains_handle(1));
    assert!(router.contains_handle(2));
    assert_eq!(router.connection_count(), 2);
}

#[test]
fn duplicate_admission_creates_no_duplicate() {
    let mut router = EventRouter::new();
    assert!(router.confirm_admitted(5));
    assert!(!router.confirm_admitted(5));
    assert_eq!(router.connection_count(), 1);
}

#[test]
fn closing_event_evicts_connection() {
    let mut router = EventRouter::new();
    assert!(router.confirm_admitted(4));
    let d = router.dispatch(Some(EngineOutcome::ConnectionEvent { handle: 4, closes: true }));
    assert_eq!(d, Disposition::Forwarded { handle: 4 });
    assert_eq!(router.connection_count(), 0);
    assert!(!router.contains_handle(4));
    // the connection already finished closing: a late event is dropped
    let d = router.dispatch(Some(EngineOutcome::ConnectionEvent { handle: 4, closes: false }));
    assert_eq!(d, Disposition::DroppedUnknown { handle: 4 });
}

#[test]
fn absorbed_and_response_outcomes_change_nothing() {
    let mut router = EventRouter::new();
    assert!(router.confirm_admitted(8));
    assert_eq!(router.dispatch(None), Disposition::Absorbed);
    assert_eq!(router.connection_count(), 1);
    assert_eq!(router.dispatch(Some(EngineOutcome::Response)), Disposition::TransmitRequested);
    assert_eq!(router.connection_count(), 1);
}

#[test]
fn registry_insert_get_remove() {
    let mut reg = ConnectionRegistry::new();
    assert_eq!(reg.len(), 0);
    reg.insert(5, ConnectionState::Active);
    assert!(reg.contains(5));
    assert_eq!(reg.get(5), Some(ConnectionState::Active));
    assert_eq!(reg.get(6), None);
    assert_eq!(reg.len(), 1);
    reg.remove(5);
    assert_eq!(reg.len(), 0);
    // remove is idempotent: removing an absent handle is a no-op
    reg.remove(5);
    assert_eq!(reg.len(), 0);
}
