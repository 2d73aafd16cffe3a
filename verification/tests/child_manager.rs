use grpc::client::load_balancing::child_manager::{
    ChildManager, ChildState, ChildUpdate, ResolverUpdateSharder, WrappedController,
};
use grpc::client::load_balancing::pick_first::{Builder, PickFirstPicker, PickFirstPolicy};
use grpc::client::load_balancing::recorder::RecordingController;
use grpc::client::load_balancing::{
    ChannelController, ChannelOperations, LbPolicyBuilder, LbPolicyOptions, LbState, QueuingOr,
    QueuingPicker, Subchannel, SubchannelState, SubchannelUpdate, WorkScheduler,
};
use grpc::client::name_resolution::{Address, Endpoint, ResolverData, ResolverUpdate};
use grpc::client::ConnectivityState;
use grpc::error::LbError;
use std::sync::atomic::{AtomicUsize, Ordering};
use std::sync::Arc;

/// Builds pick-first policies and counts how many it has built.
struct CountingBuilder {
    inner: Builder,
    built: Arc<AtomicUsize>,
}

impl LbPolicyBuilder for CountingBuilder {
    type Policy = PickFirstPolicy;

    fn build(&self, options: LbPolicyOptions) -> PickFirstPolicy {
        self.built.fetch_add(1, Ordering::SeqCst);
        self.inner.build(options)
    }

    fn name(&self) -> &'static str {
        "counting"
    }

    fn parse_config(
        &self,
        config: &str,
    ) -> Result<Option<grpc::client::load_balancing::pick_first::LbPolicyConfig>, LbError> {
        self.inner.parse_config(config)
    }
}

/// One child per endpoint, named by the text of the endpoint's first address.
struct ByFirstAddress {
    builder: Arc<CountingBuilder>,
}

impl ResolverUpdateSharder<String, CountingBuilder> for ByFirstAddress {
    fn shard(
        &self,
        update: ResolverUpdate,
    ) -> Result<Vec<ChildUpdate<String, CountingBuilder>>, LbError> {
        let ResolverUpdate::Data(data) = update else {
            return Err(LbError::BadUpdate);
        };
        let mut shares = vec![];
        for endpoint in data.endpoints {
            let name = endpoint.addresses[0].address.clone();
            shares.push(ChildUpdate {
                child_identifier: name,
                child_policy_builder: self.builder.clone(),
                child_update: ResolverUpdate::Data(ResolverData::new(vec![endpoint])),
            });
        }
        Ok(shares)
    }
}

fn update_for(names: &[&str]) -> ResolverUpdate {
    let endpoints = names
        .iter()
        .map(|n| Endpoint::new(vec![Address::new("foo".to_string(), n.to_string())]))
        .collect();
    ResolverUpdate::Data(ResolverData::new(endpoints))
}

fn created(cc: &mut RecordingController<QueuingPicker>) -> Vec<(String, Subchannel)> {
    cc.take_operations()
        .into_iter()
        .filter_map(|op| match op {
            ChannelOperations::CreateSubchannel(address, sc) => Some((address.address, sc)),
            _ => None,
        })
        .collect()
}

/// The ids of the subchannels let go of and the texts of the addresses that
/// subchannels were created for, each in order.
fn removed_and_created(cc: &mut RecordingController<QueuingPicker>) -> (Vec<u32>, Vec<String>) {
    let mut removed = vec![];
    let mut made = vec![];
    for op in cc.take_operations() {
        match op {
            ChannelOperations::RemoveSubchannel(sc) => removed.push(sc.id()),
            ChannelOperations::CreateSubchannel(address, _) => made.push(address.address),
            _ => panic!("a child reached the channel with something else"),
        }
    }
    (removed, made)
}

type Manager = ChildManager<String, CountingBuilder, ByFirstAddress>;

fn names(manager: &Manager) -> Vec<String> {
    manager.child_states().iter().map(|(id, _)| (*id).clone()).collect()
}

fn states(manager: &Manager) -> Vec<ConnectivityState> {
    manager.child_states().iter().map(|(_, s)| s.connectivity_state()).collect()
}

fn is_initial(state: &ChildState<PickFirstPicker>) -> bool {
    matches!(state, ChildState::Initial)
}

#[test]
fn children_with_known_identifiers_are_kept() {
    let built = Arc::new(AtomicUsize::new(0));
    let builder = Arc::new(CountingBuilder { inner: Builder {}, built: built.clone() });
    let mut manager: Manager = ChildManager::new(ByFirstAddress { builder });
    let mut cc: RecordingController<QueuingPicker> = RecordingController::new();

    manager.resolver_update(update_for(&["A", "B", "C"]), None, &mut cc).unwrap();
    assert_eq!(built.load(Ordering::SeqCst), 3);
    assert_eq!(names(&manager), vec!["A", "B", "C"]);
    let first = created(&mut cc);
    assert_eq!(first.len(), 3);
    let (sc_a, sc_b, sc_c) = (first[0].1.clone(), first[1].1.clone(), first[2].1.clone());
    assert_eq!(manager.owner(&sc_a), Some(0));
    assert_eq!(manager.owner(&sc_b), Some(1));
    assert_eq!(manager.owner(&sc_c), Some(2));
    // Nothing reaches the controller of the composite but the subchannels.
    assert!(manager.child_states().iter().all(|(_, s)| is_initial(s)));

    let ready = SubchannelState::new(ConnectivityState::Ready);
    manager.subchannel_update(&sc_b, &ready, &mut cc);
    manager.subchannel_update(&sc_c, &ready, &mut cc);
    assert_eq!(
        states(&manager),
        vec![ConnectivityState::Connecting, ConnectivityState::Ready, ConnectivityState::Ready]
    );
    // A picker update of a child stays with the child.
    assert!(cc.take_operations().is_empty());

    // The children are replaced: B and C are known, D is new.
    let builder = Arc::new(CountingBuilder { inner: Builder {}, built: built.clone() });
    let entries = ["B", "C", "D"].iter().map(|n| (n.to_string(), builder.clone())).collect();
    let dropped = manager.reconcile(entries);
    // Only D was built.
    assert_eq!(built.load(Ordering::SeqCst), 4);
    assert_eq!(names(&manager), vec!["B", "C", "D"]);
    // B and C kept what they had published; D has published nothing.
    assert_eq!(
        states(&manager),
        vec![ConnectivityState::Ready, ConnectivityState::Ready, ConnectivityState::Connecting]
    );
    assert!(is_initial(manager.child_states()[2].1));
    // The subchannels of B and C followed them; that of A is gone, and is
    // handed back to be let go of.
    assert_eq!(manager.owner(&sc_a), None);
    assert_eq!(manager.owner(&sc_b), Some(0));
    assert_eq!(manager.owner(&sc_c), Some(1));
    assert_eq!(dropped.len(), 1);
    assert!(dropped[0] == sc_a);

    // An event for the subchannel of the dropped child reaches nobody.
    manager.subchannel_update(&sc_a, &ready, &mut cc);
    assert_eq!(
        states(&manager),
        vec![ConnectivityState::Ready, ConnectivityState::Ready, ConnectivityState::Connecting]
    );
    assert!(cc.take_operations().is_empty());

    // Every child is handed its share. B and C start over: they let go of
    // the subchannel they had and stop offering it.
    let shares = ["B", "C", "D"].iter().map(|n| update_for(&[n])).collect();
    manager.deliver(shares, None, &mut cc);
    let (removed, made) = removed_and_created(&mut cc);
    assert_eq!(removed, vec![sc_b.id(), sc_c.id()]);
    assert_eq!(made, vec!["B", "C", "D"]);
    assert_eq!(manager.owner(&sc_b), None);
    assert_eq!(manager.owner(&sc_c), None);
    assert_eq!(states(&manager), vec![ConnectivityState::Connecting; 3]);
    for index in 0..3 {
        assert!(manager.child_update_error(index).is_none());
    }
}

#[test]
fn subchannels_of_dropped_children_are_let_go_of() {
    let built = Arc::new(AtomicUsize::new(0));
    let builder = Arc::new(CountingBuilder { inner: Builder {}, built });
    let mut manager: Manager = ChildManager::new(ByFirstAddress { builder });
    let mut cc: RecordingController<QueuingPicker> = RecordingController::new();

    manager.resolver_update(update_for(&["A", "B", "C"]), None, &mut cc).unwrap();
    let first = created(&mut cc);
    manager.resolver_update(update_for(&["C", "D"]), None, &mut cc).unwrap();
    let (removed, made) = removed_and_created(&mut cc);
    // First those of A and B, which are gone; then that of C, which starts over.
    assert_eq!(removed, vec![first[0].1.id(), first[1].1.id(), first[2].1.id()]);
    assert_eq!(made, vec!["C", "D"]);
    for (_, sc) in &first {
        assert_eq!(manager.owner(sc), None);
    }
}

#[test]
fn a_repeated_identifier_takes_over_once() {
    let built = Arc::new(AtomicUsize::new(0));
    let builder = Arc::new(CountingBuilder { inner: Builder {}, built: built.clone() });
    let mut manager: Manager = ChildManager::new(ByFirstAddress { builder });
    let mut cc: RecordingController<QueuingPicker> = RecordingController::new();

    manager.resolver_update(update_for(&["A"]), None, &mut cc).unwrap();
    let sc = created(&mut cc)[0].1.clone();
    manager.subchannel_update(&sc, &SubchannelState::new(ConnectivityState::Ready), &mut cc);
    assert_eq!(built.load(Ordering::SeqCst), 1);

    let builder = Arc::new(CountingBuilder { inner: Builder {}, built: built.clone() });
    let dropped =
        manager.reconcile(vec![("A".to_string(), builder.clone()), ("A".to_string(), builder)]);
    // The first A takes over the old child; the second one is built.
    assert_eq!(built.load(Ordering::SeqCst), 2);
    assert_eq!(states(&manager), vec![ConnectivityState::Ready, ConnectivityState::Connecting]);
    assert_eq!(manager.owner(&sc), Some(0));
    assert!(dropped.is_empty());
}

#[test]
fn a_rejected_update_changes_nothing() {
    let built = Arc::new(AtomicUsize::new(0));
    let builder = Arc::new(CountingBuilder { inner: Builder {}, built: built.clone() });
    let mut manager: Manager = ChildManager::new(ByFirstAddress { builder });
    let mut cc: RecordingController<QueuingPicker> = RecordingController::new();

    manager.resolver_update(update_for(&["A", "B"]), None, &mut cc).unwrap();
    let before = created(&mut cc);

    let failure = ResolverUpdate::Failure(LbError::Resolution("down".to_string()));
    let err = manager.resolver_update(failure, None, &mut cc).unwrap_err();
    assert_eq!(err.message(), "bad update");
    assert_eq!(names(&manager), vec!["A", "B"]);
    assert_eq!(built.load(Ordering::SeqCst), 2);
    assert_eq!(manager.owner(&before[0].1), Some(0));
    assert_eq!(manager.owner(&before[1].1), Some(1));
    assert!(cc.take_operations().is_empty());
}

#[test]
fn a_child_that_rejects_its_share_keeps_its_place() {
    let built = Arc::new(AtomicUsize::new(0));
    let builder = Arc::new(CountingBuilder { inner: Builder {}, built });
    let sharder = ByFirstAddress { builder: builder.clone() };
    let mut manager: Manager = ChildManager::new(sharder);
    let mut cc: RecordingController<QueuingPicker> = RecordingController::new();

    // Hand the children their shares by hand: the second share has no address.
    let dropped =
        manager.reconcile(vec![("A".to_string(), builder.clone()), ("B".to_string(), builder)]);
    assert!(dropped.is_empty());
    let good = ResolverUpdate::Data(ResolverData::new(vec![Endpoint::new(vec![Address::new(
        "foo".to_string(),
        "A".to_string(),
    )])]));
    let bad = ResolverUpdate::Data(ResolverData::new(vec![Endpoint::new(vec![])]));
    manager.deliver(vec![good, bad], None, &mut cc);

    assert_eq!(manager.child_count(), 2);
    assert_eq!(created(&mut cc).len(), 1);
    assert!(manager.child_update_error(0).is_none());
    assert_eq!(manager.child_update_error(1).unwrap().message(), "no addresses");
}

#[test]
fn work_reaches_the_children_that_asked() {
    let built = Arc::new(AtomicUsize::new(0));
    let builder = Arc::new(CountingBuilder { inner: Builder {}, built });
    let mut manager: Manager = ChildManager::new(ByFirstAddress { builder });
    let mut cc: RecordingController<QueuingPicker> = RecordingController::new();

    let endpoints = vec![
        Endpoint::new(vec![
            Address::new("foo".to_string(), "A".to_string()),
            Address::new("foo".to_string(), "A2".to_string()),
        ]),
        Endpoint::new(vec![Address::new("foo".to_string(), "B".to_string())]),
    ];
    manager.resolver_update(ResolverUpdate::Data(ResolverData::new(endpoints)), None, &mut cc).unwrap();
    let texts: Vec<String> = created(&mut cc).into_iter().map(|(a, _)| a).collect();
    assert_eq!(texts, vec!["A2", "B"]);

    // Both children asked for work when they started; the first has an
    // address left to try.
    manager.work(&mut cc);
    let more = created(&mut cc);
    assert_eq!(more.len(), 1);
    assert_eq!(more[0].0, "A");
    assert_eq!(manager.owner(&more[0].1), Some(0));

    // Nobody has asked since.
    manager.work(&mut cc);
    assert!(cc.take_operations().is_empty());
}

#[test]
fn child_states_can_be_mapped() {
    let built = Arc::new(AtomicUsize::new(0));
    let builder = Arc::new(CountingBuilder { inner: Builder {}, built });
    let mut manager: Manager = ChildManager::new(ByFirstAddress { builder });
    let mut cc: RecordingController<QueuingPicker> = RecordingController::new();
    manager.resolver_update(update_for(&["A", "B"]), None, &mut cc).unwrap();
    let sc = created(&mut cc)[1].1.clone();
    manager.subchannel_update(&sc, &SubchannelState::new(ConnectivityState::Ready), &mut cc);

    let mapped = manager.map_child_states(|id: &String, state: &ChildState<PickFirstPicker>| {
        format!("{}={:?}", id, state.connectivity_state())
    });
    assert_eq!(mapped, vec!["A=Connecting", "B=Ready"]);
}

#[test]
fn a_batch_of_states_reaches_the_owners() {
    let built = Arc::new(AtomicUsize::new(0));
    let builder = Arc::new(CountingBuilder { inner: Builder {}, built });
    let mut manager: Manager = ChildManager::new(ByFirstAddress { builder });
    let mut cc: RecordingController<QueuingPicker> = RecordingController::new();
    manager.resolver_update(update_for(&["A", "B", "C"]), None, &mut cc).unwrap();
    let made = created(&mut cc);

    let mut batch = SubchannelUpdate::new();
    batch.set(&made[0].1, SubchannelState::new(ConnectivityState::Ready));
    batch.set(&made[2].1, SubchannelState::new(ConnectivityState::Ready));
    batch.set(&Subchannel::new(99, Arc::default()), SubchannelState::new(ConnectivityState::Ready));
    manager.subchannel_updates(&batch, &mut cc);
    assert_eq!(
        states(&manager),
        vec![ConnectivityState::Ready, ConnectivityState::Connecting, ConnectivityState::Ready]
    );

    let mut batch = SubchannelUpdate::new();
    batch.set(&made[0].1, SubchannelState::new(ConnectivityState::Idle));
    batch.set(&made[1].1, SubchannelState::failed("refused".to_string()));
    manager.subchannel_updates(&batch, &mut cc);
    assert_eq!(
        states(&manager),
        vec![ConnectivityState::Idle, ConnectivityState::Connecting, ConnectivityState::Ready]
    );
    // Nothing of this reached the channel.
    assert!(cc.take_operations().is_empty());
}

#[test]
fn a_turn_of_work_calls_the_child_only_on_request() {
    let built = Arc::new(AtomicUsize::new(0));
    let builder = Arc::new(CountingBuilder { inner: Builder {}, built });
    let mut manager: Manager = ChildManager::new(ByFirstAddress { builder });
    let mut cc: RecordingController<QueuingPicker> = RecordingController::new();
    let endpoints = vec![Endpoint::new(vec![
        Address::new("foo".to_string(), "A".to_string()),
        Address::new("foo".to_string(), "A2".to_string()),
    ])];
    manager.resolver_update(ResolverUpdate::Data(ResolverData::new(endpoints)), None, &mut cc).unwrap();
    assert_eq!(created(&mut cc).len(), 1);

    manager.work_turn(0, false, &mut cc);
    assert!(cc.take_operations().is_empty());

    manager.work_turn(0, true, &mut cc);
    let more = created(&mut cc);
    assert_eq!(more.len(), 1);
    assert_eq!(more[0].0, "A");
    assert_eq!(manager.owner(&more[0].1), Some(0));
}

/// Counts the requests for work that reach it.
struct RequestCounter {
    requests: Arc<AtomicUsize>,
}

impl WorkScheduler for RequestCounter {
    fn schedule_work(&self) {
        self.requests.fetch_add(1, Ordering::SeqCst);
    }

    fn schedule_work_after(&self, _delay_millis: u64) {
        self.requests.fetch_add(1, Ordering::SeqCst);
    }
}

#[test]
fn requests_of_children_reach_the_scheduler_that_was_set() {
    let built = Arc::new(AtomicUsize::new(0));
    let builder = Arc::new(CountingBuilder { inner: Builder {}, built });
    let mut manager: Manager = ChildManager::new(ByFirstAddress { builder });
    let requests = Arc::new(AtomicUsize::new(0));
    manager.set_work_scheduler(Box::new(RequestCounter { requests: requests.clone() }));
    let mut cc: RecordingController<QueuingPicker> = RecordingController::new();

    // Each child asks for work once when it starts on its addresses.
    manager.resolver_update(update_for(&["A", "B"]), None, &mut cc).unwrap();
    assert_eq!(requests.load(Ordering::SeqCst), 2);
}

#[test]
fn a_wrapped_controller_hands_out_what_was_asked_of_it() {
    let mut cc: RecordingController<QueuingPicker> = RecordingController::new();
    let mut wrapped: WrappedController<RecordingController<QueuingPicker>, PickFirstPicker> =
        WrappedController::new(&mut cc);
    let a = wrapped.new_subchannel(&Address::new("foo".to_string(), "A".to_string()));
    wrapped.update_picker(LbState::new(ConnectivityState::Connecting, QueuingOr::Queuing));
    let b = wrapped.new_subchannel(&Address::new("foo".to_string(), "B".to_string()));
    wrapped.remove_subchannel(&a);
    wrapped.update_picker(LbState::new(ConnectivityState::Ready, QueuingOr::Queuing));
    wrapped.request_resolution();

    let (created, removed, captured) = wrapped.finish();
    let ids: Vec<u32> = created.iter().map(|sc| sc.id()).collect();
    assert_eq!(ids, vec![a.id(), b.id()]);
    let ids: Vec<u32> = removed.iter().map(|sc| sc.id()).collect();
    assert_eq!(ids, vec![a.id()]);
    assert_eq!(captured.unwrap().connectivity_state, ConnectivityState::Ready);

    // The controller below has heard of everything but the pickers.
    let heard: Vec<String> = cc
        .take_operations()
        .into_iter()
        .map(|op| match op {
            ChannelOperations::CreateSubchannel(address, _) => format!("create {}", address.address),
            ChannelOperations::RemoveSubchannel(sc) => format!("remove {}", sc.id()),
            ChannelOperations::RequestResolution => "resolve".to_string(),
            ChannelOperations::UpdatePicker(_) => "publish".to_string(),
        })
        .collect();
    assert_eq!(heard, vec!["create A", "create B", &format!("remove {}", a.id()), "resolve"]);
}

#[test]
fn a_wrapped_controller_that_heard_nothing_hands_out_nothing() {
    let mut cc: RecordingController<QueuingPicker> = RecordingController::new();
    let wrapped: WrappedController<RecordingController<QueuingPicker>, PickFirstPicker> =
        WrappedController::new(&mut cc);
    let (created, removed, captured) = wrapped.finish();
    assert!(created.is_empty());
    assert!(removed.is_empty());
    assert!(captured.is_none());
    assert!(cc.take_operations().is_empty());
}
