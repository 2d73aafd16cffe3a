use grpc::client::channel::{ActiveChannel, ChannelAction, GracefulSwitchBalancer};
use grpc::client::load_balancing::pick_first::{reg, Builder, PickFirstPicker};
use grpc::client::load_balancing::recorder::RecordingController;
use grpc::client::load_balancing::pick_first::OneSubchannelPicker;
use grpc::client::load_balancing::{
    ChannelController, ChannelOperations, ChannelUpdates, LbPolicyRegistry, LbState,
    NopWorkScheduler, QueuingOr, Subchannel, SubchannelState, WorkScheduler,
};
use grpc::client::name_resolution::{
    Address, Endpoint, ParsedServiceConfig, ResolverData, ResolverUpdate,
};
use grpc::client::subchannel::{Route, SubchannelAction, SubchannelEvent};
use grpc::client::{Channel, ChannelOptions, ConnectivityState};
use grpc::error::LbError;
use grpc::service::Request;
use std::sync::atomic::{AtomicUsize, Ordering};
use std::sync::Arc;

fn registry() -> LbPolicyRegistry<Builder> {
    let mut registry = LbPolicyRegistry::new();
    reg(&mut registry);
    registry
}

fn update(names: &[&str]) -> ResolverUpdate {
    let addresses = names.iter().map(|n| Address::new("foo".to_string(), n.to_string())).collect();
    ResolverUpdate::Data(ResolverData::new(vec![Endpoint::new(addresses)]))
}

fn nop() -> Box<dyn WorkScheduler> {
    Box::new(NopWorkScheduler {})
}

struct CountingScheduler {
    now: Arc<AtomicUsize>,
    later: Arc<AtomicUsize>,
}

impl WorkScheduler for CountingScheduler {
    fn schedule_work(&self) {
        self.now.fetch_add(1, Ordering::SeqCst);
    }

    fn schedule_work_after(&self, delay_millis: u64) {
        assert_eq!(delay_millis, 200);
        self.later.fetch_add(1, Ordering::SeqCst);
    }
}

#[test]
fn channel_options_default() {
    let options = ChannelOptions::default();
    assert!(options.transport_options.entries.is_empty());
    assert_eq!(options.override_authority, None);
    assert_eq!(options.default_service_config, None);
    assert!(!options.disable_proxy);
    assert!(!options.disable_service_config_lookup);
    assert!(!options.disable_health_checks);
    assert_eq!(options.max_retry_memory, 8 * 1024 * 1024);
    assert_eq!(options.idle_timeout_secs, 30 * 60);

    let options = options.override_authority("example.com".to_string());
    assert_eq!(options.override_authority.as_deref(), Some("example.com"));
    assert_eq!(options.max_retry_memory, 8_388_608);

    let mut more = grpc::attributes::Attributes::new();
    more.entries.push(("k".to_string(), "v".to_string()));
    let options = options.transport_options(more.clone()).transport_options(more);
    assert_eq!(options.transport_options.entries.len(), 2);
    assert_eq!(options.override_authority.as_deref(), Some("example.com"));
}

#[test]
fn balancer_coalesces_requests_for_work() {
    let mut lb: GracefulSwitchBalancer<Builder> = GracefulSwitchBalancer::new(nop());
    let mut cc: RecordingController<PickFirstPicker> = RecordingController::new();
    assert!(lb.schedule_work());
    assert!(!lb.schedule_work());
    assert!(!lb.schedule_work());
    lb.work(&mut cc);
    assert!(lb.schedule_work());
    assert!(!lb.schedule_work());
}

#[test]
fn balancer_rejects_what_it_cannot_handle() {
    let mut lb: GracefulSwitchBalancer<Builder> = GracefulSwitchBalancer::new(nop());
    let mut cc: RecordingController<PickFirstPicker> = RecordingController::new();

    let failure = ResolverUpdate::Failure(LbError::Resolution("down".to_string()));
    let err = lb.handle_resolver_update(failure, &registry(), &mut cc).unwrap_err();
    assert_eq!(err.message(), "unhandled");

    let mut data = ResolverData::new(vec![]);
    data.service_config = Some(ParsedServiceConfig {});
    let err = lb
        .handle_resolver_update(ResolverUpdate::Data(data), &registry(), &mut cc)
        .unwrap_err();
    assert_eq!(err.message(), "can't do service configs yet");

    let err = lb
        .handle_resolver_update(update(&["a"]), &LbPolicyRegistry::new(), &mut cc)
        .unwrap_err();
    assert_eq!(err.message(), "no such LB policy: pick_first");
    assert!(!lb.has_policy());
    assert_eq!(cc.pending_count(), 0);

    // Events that arrive before there is a policy are dropped.
    let sc = Subchannel::new(1, Arc::default());
    lb.subchannel_update(&sc, &SubchannelState::new(ConnectivityState::Ready), &mut cc);
    lb.work(&mut cc);
    assert_eq!(cc.pending_count(), 0);
}

#[test]
fn balancer_builds_its_policy_once() {
    let now = Arc::new(AtomicUsize::new(0));
    let later = Arc::new(AtomicUsize::new(0));
    let scheduler = CountingScheduler { now: now.clone(), later: later.clone() };
    let mut lb: GracefulSwitchBalancer<Builder> = GracefulSwitchBalancer::new(Box::new(scheduler));
    let mut cc: RecordingController<PickFirstPicker> = RecordingController::new();

    lb.handle_resolver_update(update(&["a", "b"]), &registry(), &mut cc).unwrap();
    assert!(lb.has_policy());
    // The policy asked for work through the scheduler of the channel.
    assert_eq!(later.load(Ordering::SeqCst), 1);
    assert_eq!(now.load(Ordering::SeqCst), 0);
    let ops = cc.take_operations();
    assert_eq!(ops.len(), 1);
    let ChannelOperations::CreateSubchannel(address, sc) = &ops[0] else {
        panic!("expected a subchannel");
    };
    assert_eq!(address.address, "b");
    assert_eq!(sc.id(), 0);

    // The errors of the policy come back; the policy stays.
    let err = lb
        .handle_resolver_update(ResolverUpdate::Data(ResolverData::default()), &registry(), &mut cc)
        .unwrap_err();
    assert_eq!(err.message(), "no endpoints");
    // With a policy in place the registry is not asked again.
    lb.handle_resolver_update(update(&["c"]), &LbPolicyRegistry::new(), &mut cc).unwrap();
    let ops = cc.take_operations();
    assert_eq!(ops.len(), 2);
    assert!(matches!(&ops[0], ChannelOperations::RemoveSubchannel(old) if old.id() == 0));
    assert!(matches!(&ops[1], ChannelOperations::CreateSubchannel(a, new)
        if a.address == "c" && new.id() == 1));

    // The subchannel that the policy let go of does not concern it any more.
    lb.subchannel_update(sc, &SubchannelState::new(ConnectivityState::Ready), &mut cc);
    lb.work(&mut cc);
    cc.request_resolution();
    assert_eq!(cc.pending_count(), 1);
}

fn watched(actions: &[ChannelAction]) -> Vec<u32> {
    actions
        .iter()
        .filter_map(|a| match a {
            ChannelAction::Watch(sc, _) => Some(sc.id()),
            _ => None,
        })
        .collect()
}

#[test]
fn active_channel_follows_its_policy() {
    let mut channel: ActiveChannel<Builder> = ActiveChannel::new(nop());
    let request = Request::new("method".to_string(), None);
    let mut consumer = channel.watch();
    assert_eq!(channel.state(), ConnectivityState::Idle);
    assert!(channel.pick(&request, &mut consumer).is_none());

    let (result, actions) = channel.resolver_update(update(&["a", "b"]), &registry());
    result.unwrap();
    assert_eq!(watched(&actions), vec![0]);
    assert_eq!(actions.len(), 1);
    // The policy has published nothing yet.
    assert_eq!(channel.state(), ConnectivityState::Idle);

    // The subchannel was asked to connect.
    let actions = channel.subchannel_event(0, SubchannelEvent::ConnectRequested(false));
    assert_eq!(actions.len(), 1);
    assert!(matches!(
        actions[0],
        ChannelAction::Connection(0, SubchannelAction::StartConnecting)
    ));
    let actions = channel.subchannel_event(0, SubchannelEvent::ConnectRequested(false));
    assert!(actions.is_empty());

    let actions = channel.subchannel_event(0, SubchannelEvent::Connected);
    assert!(actions.is_empty());
    assert_eq!(channel.state(), ConnectivityState::Ready);
    match channel.pick(&request, &mut consumer) {
        Some(Route::Send(pick)) => assert_eq!(pick.subchannel.id(), 0),
        _ => panic!("expected the call to be sent"),
    }
    // The consumer has tried this picker.
    assert!(channel.pick(&request, &mut consumer).is_none());

    // The policy moves on to the next address when its work is done.
    assert!(channel.schedule_work());
    assert!(!channel.schedule_work());
    let actions = channel.work();
    assert_eq!(watched(&actions), vec![1]);

    // The connection is lost: the picker is withdrawn and calls are held.
    let actions = channel.subchannel_event(0, SubchannelEvent::Disconnected);
    assert_eq!(actions.len(), 1);
    assert!(matches!(
        actions[0],
        ChannelAction::Connection(0, SubchannelAction::ReleaseConnection)
    ));
    assert_eq!(channel.state(), ConnectivityState::Idle);
    assert!(matches!(channel.pick(&request, &mut consumer), Some(Route::Wait)));

    // Events of subchannels that the pool does not hold are dropped.
    assert!(channel.subchannel_event(77, SubchannelEvent::Connected).is_empty());
    let actions = channel.remove_subchannel(1);
    assert_eq!(actions.len(), 1);
    assert!(matches!(actions[0], ChannelAction::Forget(1)));
    assert!(channel.remove_subchannel(1).is_empty());
    assert!(channel.subchannel_event(1, SubchannelEvent::ConnectRequested(true)).is_empty());
}

#[test]
fn active_channel_rejects_without_a_trace() {
    let mut channel: ActiveChannel<Builder> = ActiveChannel::new(nop());
    let (result, actions) =
        channel.resolver_update(ResolverUpdate::Failure(LbError::Resolution("x".to_string())), &registry());
    assert_eq!(result.unwrap_err().message(), "unhandled");
    assert!(actions.is_empty());
    assert_eq!(channel.state(), ConnectivityState::Idle);

    let (result, actions) =
        channel.resolver_update(ResolverUpdate::Data(ResolverData::default()), &registry());
    assert_eq!(result.unwrap_err().message(), "no endpoints");
    assert!(actions.is_empty());
}

#[test]
fn channel_starts_idle_and_activates_on_demand() {
    let mut channel: Channel<Builder> =
        Channel::new("inmemory:///7", ChannelOptions::default()).unwrap();
    assert_eq!(channel.destination().scheme, "inmemory");
    assert_eq!(channel.destination().path, "/7");
    assert_eq!(channel.options().idle_timeout_secs, 1_800);
    assert!(!channel.is_active());

    // Looking at the state does not wake the channel.
    assert_eq!(channel.state(false, nop()), (ConnectivityState::Idle, false));
    assert!(!channel.is_active());
    assert!(channel.active_mut().is_none());

    // Asking it to connect does, once.
    assert_eq!(channel.state(true, nop()), (ConnectivityState::Idle, true));
    assert!(channel.is_active());
    assert_eq!(channel.state(true, nop()), (ConnectivityState::Idle, false));
    assert!(!channel.get_active_channel(nop()));

    let active = channel.active_mut().unwrap();
    active.resolver_update(update(&["a"]), &registry()).0.unwrap();
    active.subchannel_event(0, SubchannelEvent::ConnectRequested(false));
    active.subchannel_event(0, SubchannelEvent::Connected);
    assert_eq!(channel.state(false, nop()), (ConnectivityState::Ready, false));

    channel.enter_idle();
    assert_eq!(channel.state(false, nop()), (ConnectivityState::Idle, false));
}

#[test]
fn channel_rejects_a_target_that_is_no_url() {
    let result: Result<Channel<Builder>, LbError> = Channel::new("not a url", ChannelOptions::default());
    let err = match result {
        Err(err) => err,
        Ok(_) => panic!("expected an error"),
    };
    assert!(matches!(err, LbError::InvalidTarget(_)));
    assert!(err.message().starts_with("invalid target: "));
}

#[test]
fn balancer_takes_events_of_either_kind() {
    let mut lb: GracefulSwitchBalancer<Builder> = GracefulSwitchBalancer::new(nop());
    let mut cc: RecordingController<PickFirstPicker> = RecordingController::new();

    lb.handle_update(ChannelUpdates::NameResolverUpdate(update(&["a"])), &registry(), &mut cc)
        .unwrap();
    let ops = cc.take_operations();
    let ChannelOperations::CreateSubchannel(_, sc) = &ops[0] else {
        panic!("expected a subchannel");
    };
    let ready = SubchannelState::new(ConnectivityState::Ready);
    lb.handle_update(ChannelUpdates::SubchannelUpdate(sc.clone(), ready), &registry(), &mut cc)
        .unwrap();
    let ops = cc.take_operations();
    assert_eq!(ops.len(), 1);
    assert!(matches!(&ops[0], ChannelOperations::UpdatePicker(state)
        if state.connectivity_state == ConnectivityState::Ready));

    let failure = ChannelUpdates::NameResolverUpdate(ResolverUpdate::Failure(LbError::NoAddresses));
    assert_eq!(lb.handle_update(failure, &registry(), &mut cc).unwrap_err().message(), "unhandled");
}

#[test]
fn active_channel_carries_out_what_was_asked() {
    let mut channel: ActiveChannel<Builder> = ActiveChannel::new(nop());
    let first = Subchannel::new(4, Arc::default());
    let second = Subchannel::new(9, Arc::default());
    let address = |text: &str| Address::new("foo".to_string(), text.to_string());
    let picker = |sc: &Subchannel| QueuingOr::Other(OneSubchannelPicker { sc: sc.clone() });

    let actions = channel.apply(vec![
        ChannelOperations::RequestResolution,
        ChannelOperations::CreateSubchannel(address("a"), first.clone()),
        ChannelOperations::UpdatePicker(LbState::new(ConnectivityState::Connecting, QueuingOr::Queuing)),
        ChannelOperations::CreateSubchannel(address("b"), second.clone()),
        // An id that the pool holds already is not taken in again.
        ChannelOperations::CreateSubchannel(address("c"), first.clone()),
        ChannelOperations::RequestResolution,
        ChannelOperations::UpdatePicker(LbState::new(ConnectivityState::Ready, picker(&second))),
        // Letting go of a subchannel that the pool does not hold does nothing.
        ChannelOperations::RemoveSubchannel(Subchannel::new(5, Arc::default())),
        ChannelOperations::RemoveSubchannel(first.clone()),
        ChannelOperations::RemoveSubchannel(first.clone()),
    ]);
    // What concerns the subchannels comes first, then one wake-up of the
    // resolver.
    assert_eq!(actions.len(), 4);
    assert!(matches!(&actions[0], ChannelAction::Watch(sc, a) if sc.id() == 4 && a.address == "a"));
    assert!(matches!(&actions[1], ChannelAction::Watch(sc, a) if sc.id() == 9 && a.address == "b"));
    assert!(matches!(&actions[2], ChannelAction::Forget(4)));
    assert!(matches!(&actions[3], ChannelAction::ResolveNow));
    // The last publication counts.
    assert_eq!(channel.state(), ConnectivityState::Ready);

    // The picker points at a subchannel that is not ready: the call is held.
    let request = Request::new("method".to_string(), None);
    let mut consumer = channel.watch();
    assert!(matches!(channel.pick(&request, &mut consumer), Some(Route::Wait)));

    assert!(channel.apply(vec![]).is_empty());
    assert_eq!(channel.state(), ConnectivityState::Ready);
}
