use grpc::client::load_balancing::pick_first::OneSubchannelPicker;
use grpc::client::load_balancing::{
    LbState, Pick, PickResult, Picker, QueuingPicker, Subchannel, SubchannelIds, SubchannelState,
    SubchannelUpdate,
};
use grpc::client::subchannel::watcher::Watcher;
use grpc::client::subchannel::{
    InternalSubchannel, InternalSubchannelPool, Route, SubchannelAction, SubchannelEvent,
    INITIAL_BACKOFF_MILLIS, MAX_BACKOFF_MILLIS,
};
use grpc::client::ConnectivityState;
use grpc::error::LbError;
use std::sync::Arc;

fn handle(id: u32) -> Subchannel {
    Subchannel::new(id, Arc::default())
}

fn fresh() -> InternalSubchannel {
    InternalSubchannel::new(handle(1), "addr".to_string())
}

#[test]
fn subchannel_connects_once() {
    let mut sc = fresh();
    assert_eq!(sc.connectivity_state(), ConnectivityState::Idle);
    assert_eq!(sc.target(), "addr");
    assert!(sc.subchannel() == handle(1));

    let t = sc.connect(false);
    assert_eq!(t.action, SubchannelAction::StartConnecting);
    assert_eq!(t.notify.unwrap().connectivity_state, ConnectivityState::Connecting);
    assert_eq!(sc.connectivity_state(), ConnectivityState::Connecting);

    // Asking again while the attempt runs starts nothing.
    for now in [false, true] {
        let t = sc.connect(now);
        assert_eq!(t.action, SubchannelAction::Nothing);
        assert!(t.notify.is_none());
    }

    let t = sc.to_ready();
    assert_eq!(t.action, SubchannelAction::Nothing);
    let report = t.notify.unwrap();
    assert_eq!(report.connectivity_state, ConnectivityState::Ready);
    assert!(report.last_connection_error.is_none());
    assert!(sc.is_ready());

    // Nor does asking while the connection is up.
    let t = sc.connect(true);
    assert_eq!(t.action, SubchannelAction::Nothing);
    assert!(sc.is_ready());

    let t = sc.to_idle();
    assert_eq!(t.action, SubchannelAction::ReleaseConnection);
    assert_eq!(t.notify.unwrap().connectivity_state, ConnectivityState::Idle);
    assert_eq!(sc.connectivity_state(), ConnectivityState::Idle);
}

#[test]
fn subchannel_backoff_grows_and_starts_over() {
    let mut sc = fresh();
    let mut delays = vec![];
    for _ in 0..9 {
        sc.connect(true);
        let t = sc.connect_failed("refused".to_string());
        let report = t.notify.unwrap();
        assert_eq!(report.connectivity_state, ConnectivityState::TransientFailure);
        assert_eq!(report.last_connection_error.as_deref(), Some("refused"));
        match t.action {
            SubchannelAction::StartBackoff(delay) => delays.push(delay),
            other => panic!("unexpected action {:?}", other),
        }
    }
    assert_eq!(
        delays,
        vec![1_000, 2_000, 4_000, 8_000, 16_000, 32_000, 64_000, 120_000, 120_000]
    );
    assert_eq!(delays[0], INITIAL_BACKOFF_MILLIS);
    assert_eq!(*delays.last().unwrap(), MAX_BACKOFF_MILLIS);

    // During the backoff a plain request waits; the timer starts the next attempt.
    let t = sc.connect(false);
    assert_eq!(t.action, SubchannelAction::Nothing);
    assert_eq!(sc.connectivity_state(), ConnectivityState::TransientFailure);
    let t = sc.backoff_elapsed();
    assert_eq!(t.action, SubchannelAction::StartConnecting);
    assert_eq!(sc.connectivity_state(), ConnectivityState::Connecting);

    // Reaching ready starts the backoff over.
    sc.to_ready();
    sc.to_idle();
    sc.connect(false);
    let t = sc.connect_failed("again".to_string());
    assert_eq!(t.action, SubchannelAction::StartBackoff(1_000));
}

#[test]
fn subchannel_ignores_events_out_of_turn() {
    let mut sc = fresh();
    for t in [sc.to_ready(), sc.connect_failed("x".to_string()), sc.to_idle(), sc.backoff_elapsed()] {
        assert_eq!(t.action, SubchannelAction::Nothing);
        assert!(t.notify.is_none());
    }
    assert_eq!(sc.connectivity_state(), ConnectivityState::Idle);
}

#[test]
fn subchannel_shutdown_is_idempotent() {
    let mut sc = fresh();
    sc.connect(false);
    let t = sc.shutdown();
    assert_eq!(t.action, SubchannelAction::AbortAttempt);
    assert_eq!(t.notify.unwrap().connectivity_state, ConnectivityState::Idle);
    let t = sc.shutdown();
    assert_eq!(t.action, SubchannelAction::Nothing);
    assert!(t.notify.is_none());

    sc.connect(false);
    sc.to_ready();
    assert_eq!(sc.shutdown().action, SubchannelAction::ReleaseConnection);

    sc.connect(false);
    sc.connect_failed("x".to_string());
    assert_eq!(sc.handle(SubchannelEvent::Shutdown).action, SubchannelAction::CancelBackoff);
    assert_eq!(sc.connectivity_state(), ConnectivityState::Idle);
}

#[test]
fn pool_holds_one_subchannel_per_id() {
    let mut pool = InternalSubchannelPool::new();
    assert!(pool.new_subchannel(&handle(3), "a".to_string()));
    assert!(!pool.new_subchannel(&handle(3), "b".to_string()));
    assert_eq!(pool.address(3).as_deref(), Some("a"));
    assert!(pool.contains(3));
    assert!(!pool.contains(4));
    assert_eq!(pool.connectivity_state(3), Some(ConnectivityState::Idle));
    assert_eq!(pool.connectivity_state(4), None);
    assert!(pool.subchannel(3).unwrap() == handle(3));
    assert!(pool.subchannel(4).is_none());

    let t = pool.handle(3, SubchannelEvent::ConnectRequested(false)).unwrap();
    assert_eq!(t.action, SubchannelAction::StartConnecting);
    assert!(pool.handle(4, SubchannelEvent::ConnectRequested(false)).is_none());
    pool.handle(3, SubchannelEvent::Connected).unwrap();
    assert_eq!(pool.connectivity_state(3), Some(ConnectivityState::Ready));

    let t = pool.remove(3).unwrap();
    assert_eq!(t.action, SubchannelAction::ReleaseConnection);
    assert!(pool.remove(3).is_none());
    assert!(pool.handle(3, SubchannelEvent::Disconnected).is_none());
}

#[test]
fn pool_routes_only_to_ready_subchannels() {
    let mut pool = InternalSubchannelPool::new();
    pool.new_subchannel(&handle(1), "a".to_string());
    let pick = |id| PickResult::Subchannel(Pick { subchannel: handle(id), on_complete: None, metadata: None });

    assert!(matches!(pool.route(pick(1)), Route::Wait));
    assert!(matches!(pool.route(pick(2)), Route::Fail(LbError::UnknownSubchannel)));
    assert!(matches!(pool.route(PickResult::Queue), Route::Wait));
    assert!(matches!(pool.route(PickResult::Fail(LbError::BadUpdate)), Route::Fail(LbError::BadUpdate)));

    pool.handle(1, SubchannelEvent::ConnectRequested(false));
    pool.handle(1, SubchannelEvent::Connected);
    match pool.route(pick(1)) {
        Route::Send(pick) => assert_eq!(pick.subchannel.id(), 1),
        _ => panic!("expected the call to be sent"),
    }
}

#[test]
fn watcher_hands_out_the_newest_value() {
    let mut watcher: Watcher<u32> = Watcher::new();
    let mut consumer = watcher.iter();
    assert!(watcher.cur().is_none());
    assert!(consumer.next(&watcher).is_none());

    watcher.update(1);
    assert_eq!(consumer.next(&watcher).as_deref(), Some(&1));
    // Nothing new: the consumer has to wait.
    assert!(consumer.next(&watcher).is_none());

    // A burst: the values in between may be skipped, the last one is not.
    for v in 2..=50 {
        watcher.update(v);
    }
    assert_eq!(consumer.next(&watcher).as_deref(), Some(&50));
    assert!(consumer.next(&watcher).is_none());
    assert_eq!(watcher.cur().as_deref(), Some(&50));

    // A consumer that arrives late sees the current value first.
    let mut late = watcher.iter();
    assert_eq!(late.next(&watcher).as_deref(), Some(&50));
    assert!(late.next(&watcher).is_none());

    // The same value published again is news.
    watcher.update(50);
    assert_eq!(consumer.next(&watcher).as_deref(), Some(&50));
}

#[test]
fn subchannel_ids_count_up() {
    let mut ids = SubchannelIds::new();
    let got: Vec<u32> = (0..5).map(|_| ids.allocate()).collect();
    assert_eq!(got, vec![0, 1, 2, 3, 4]);
}

#[test]
fn subchannel_update_keeps_the_last_report() {
    let mut update = SubchannelUpdate::new();
    let sc = handle(9);
    assert!(update.get(&sc).is_none());
    update.set(&sc, SubchannelState::new(ConnectivityState::Connecting));
    update.set(&sc.clone(), SubchannelState::failed("boom".to_string()));
    let state = update.get(&sc).unwrap();
    assert_eq!(state.connectivity_state, ConnectivityState::TransientFailure);
    assert_eq!(state.last_connection_error.as_deref(), Some("boom"));
    assert!(update.get(&handle(8)).is_none());
    let copy = state.clone();
    assert_eq!(copy.last_connection_error.as_deref(), Some("boom"));
}

#[test]
fn initial_state_queues() {
    let state = LbState::initial();
    assert_eq!(state.connectivity_state, ConnectivityState::Connecting);
    let request = grpc::service::Request::new("m".to_string(), None);
    assert!(matches!(state.picker.pick(&request), PickResult::Queue));
    assert!(matches!(QueuingPicker {}.pick(&request), PickResult::Queue));
    let copy = state.clone();
    assert_eq!(copy.connectivity_state, ConnectivityState::Connecting);

    let one = OneSubchannelPicker { sc: handle(5) };
    let pick = one.pick(&request).unwrap_pick();
    assert_eq!(pick.subchannel.id(), 5);
}
