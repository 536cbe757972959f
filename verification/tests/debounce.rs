use kestrelc::debounce::{debounce_next, drain_debounced, wait_limit, DebounceNext, DebounceState::AwaitingFirst, DebounceState::Settling, RecvOutcome};
use kestrelc::waits::WaitLimit;
use std::sync::mpsc::channel;
use std::time::Duration;

#[test]
fn a_burst_of_events_coalesces_into_one_debounced_signal() {
    let (tx, rx) = channel::<()>();
    let tx_keepalive = tx.clone();
    for _ in 0..5 {
        tx.send(()).unwrap();
    }
    drop(tx);
    assert!(drain_debounced(&rx, Duration::from_millis(50)).0);
    drop(tx_keepalive);
    assert!(!drain_debounced(&rx, Duration::from_millis(50)).0);
}

#[test]
fn a_disconnected_channel_with_no_events_returns_false_immediately() {
    let (tx, rx) = channel::<()>();
    drop(tx);
    assert!(!drain_debounced(&rx, Duration::from_millis(50)).0);
}

#[test]
fn queued_events_then_disconnect_report_the_disconnect() {
    let (tx, rx) = channel::<()>();
    tx.send(()).unwrap();
    tx.send(()).unwrap();
    drop(tx);
    assert!(!drain_debounced(&rx, Duration::from_millis(20)).0);
}

#[test]
fn queued_events_with_a_live_sender_settle_into_one_signal() {
    let (tx, rx) = channel::<()>();
    for _ in 0..3 {
        tx.send(()).unwrap();
    }
    assert!(drain_debounced(&rx, Duration::from_millis(20)).0);
    drop(tx);
}

#[test]
fn debounce_decisions() {
    assert_eq!(debounce_next(AwaitingFirst, RecvOutcome::Received), DebounceNext::Wait(Settling));
    assert_eq!(debounce_next(Settling, RecvOutcome::Received), DebounceNext::Wait(Settling));
    assert_eq!(debounce_next(Settling, RecvOutcome::TimedOut), DebounceNext::Stop(true));
    assert_eq!(debounce_next(Settling, RecvOutcome::Disconnected), DebounceNext::Stop(false));
    assert_eq!(debounce_next(AwaitingFirst, RecvOutcome::Disconnected), DebounceNext::Stop(false));
    assert_eq!(debounce_next(AwaitingFirst, RecvOutcome::TimedOut), DebounceNext::Wait(AwaitingFirst));
}

#[test]
fn buffered_events_then_disconnect_are_all_consumed() {
    let (tx, rx) = channel::<()>();
    tx.send(()).unwrap();
    tx.send(()).unwrap();
    tx.send(()).unwrap();
    drop(tx);
    assert!(!drain_debounced(&rx, Duration::from_millis(50)).0);
    assert_eq!(rx.try_recv(), Err(std::sync::mpsc::TryRecvError::Disconnected));
}

#[test]
fn the_waits_made_are_one_unlimited_then_each_within_the_timeout() {
    let (tx, rx) = channel::<()>();
    for _ in 0..3 {
        tx.send(()).unwrap();
    }
    let (settled, waits) = drain_debounced(&rx, Duration::from_millis(20));
    assert!(settled);
    assert_eq!(waits.len(), 4);
    assert!(matches!(waits[0].limit(), WaitLimit::Unlimited));
    for w in &waits[1..] {
        assert!(matches!(w.limit(), WaitLimit::Within(d) if d == Duration::from_millis(20)));
    }
    let outcomes: Vec<RecvOutcome> = waits.iter().map(|w| w.outcome()).collect();
    assert_eq!(
        outcomes,
        vec![RecvOutcome::Received, RecvOutcome::Received, RecvOutcome::Received, RecvOutcome::TimedOut]
    );
    drop(tx);
}

#[test]
fn wait_limits_follow_the_debounce_state() {
    assert!(matches!(wait_limit(AwaitingFirst, Duration::from_millis(100)), WaitLimit::Unlimited));
    assert!(matches!(
        wait_limit(Settling, Duration::from_millis(100)),
        WaitLimit::Within(d) if d == Duration::from_millis(100)
    ));
}
