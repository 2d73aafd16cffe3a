use grpc::client::load_balancing::delegating::{
    DelegatingPicker, DelegatingPolicy, DelegatingPolicyBuilder,
};
use grpc::client::load_balancing::pick_first::{Builder, OneSubchannelPicker, PickFirstPicker};
use grpc::client::load_balancing::recorder::RecordingController;
use grpc::client::load_balancing::round_robin::RRPickerPicker;
use grpc::client::load_balancing::{
    ChannelController, ChannelOperations, LbPolicy, LbPolicyBuilder, LbPolicyOptions, LbState,
    NopWorkScheduler, PickResult, Picker, Subchannel, SubchannelState,
};
use grpc::client::name_resolution::{Address, Endpoint, ResolverData, ResolverUpdate};
use grpc::client::ConnectivityState;
use grpc::error::LbError;
use grpc::service::Request;
use std::collections::HashMap;
use std::sync::Arc;

type Controller = RecordingController<DelegatingPicker<PickFirstPicker>>;

fn options() -> LbPolicyOptions {
    LbPolicyOptions { work_scheduler: Box::new(NopWorkScheduler {}) }
}

fn resolver_data(endpoints: usize, addresses: usize) -> ResolverData {
    let mut data = ResolverData::default();
    for i in 0..endpoints {
        let mut endpoint = Endpoint::new(vec![]);
        for j in 0..addresses {
            endpoint.addresses.push(Address::new("foo".to_string(), format!("{i}:{j}")));
        }
        data.endpoints.push(endpoint);
    }
    data
}

struct Seen {
    created: Vec<(String, Subchannel)>,
    published: Vec<LbState<DelegatingPicker<PickFirstPicker>>>,
    removed: Vec<u32>,
}

fn drain(cc: &mut Controller) -> Seen {
    let mut seen = Seen { created: vec![], published: vec![], removed: vec![] };
    for op in cc.take_operations() {
        match op {
            ChannelOperations::CreateSubchannel(address, sc) => {
                seen.created.push((address.address, sc))
            }
            ChannelOperations::UpdatePicker(state) => seen.published.push(state),
            ChannelOperations::RequestResolution => {}
            ChannelOperations::RemoveSubchannel(sc) => seen.removed.push(sc.id()),
        }
    }
    seen
}

fn picks(state: &LbState<DelegatingPicker<PickFirstPicker>>, n: usize) -> HashMap<u32, usize> {
    let request = Request::new("method".to_string(), None);
    let mut counts = HashMap::new();
    for _ in 0..n {
        match state.picker.pick(&request) {
            PickResult::Subchannel(pick) => *counts.entry(pick.subchannel.id()).or_insert(0) += 1,
            _ => panic!("expected a subchannel"),
        }
    }
    counts
}

#[test]
fn ready_children_share_the_calls_evenly() {
    let mut policy = DelegatingPolicy::new(Builder {}, options());
    let mut cc = Controller::new();

    policy.resolver_update(ResolverUpdate::Data(resolver_data(3, 20)), None, &mut cc).unwrap();
    assert_eq!(policy.child_count(), 3);
    let seen = drain(&mut cc);
    // Each child starts with the last address of its endpoint.
    let texts: Vec<&str> = seen.created.iter().map(|(a, _)| a.as_str()).collect();
    assert_eq!(texts, vec!["0:19", "1:19", "2:19"]);
    // The aggregate is published once: all children are connecting.
    assert_eq!(seen.published.len(), 1);
    assert_eq!(seen.published[0].connectivity_state, ConnectivityState::Connecting);
    let request = Request::new("method".to_string(), None);
    assert!(matches!(seen.published[0].picker.pick(&request), PickResult::Queue));

    let ready = SubchannelState::new(ConnectivityState::Ready);
    let mut last = None;
    for (_, sc) in &seen.created {
        policy.subchannel_update(sc, &ready, &mut cc);
        let mut after = drain(&mut cc);
        assert_eq!(after.published.len(), 1);
        last = after.published.pop();
    }
    let state = last.unwrap();
    assert_eq!(state.connectivity_state, ConnectivityState::Ready);
    assert_eq!(policy.child_connectivity(), vec![ConnectivityState::Ready; 3]);

    let counts = picks(&state, 60);
    assert_eq!(counts.len(), 3);
    for (_, sc) in &seen.created {
        assert_eq!(counts[&sc.id()], 20);
    }
}

#[test]
fn an_update_without_endpoints_is_rejected() {
    let mut policy = DelegatingPolicy::new(Builder {}, options());
    let mut cc = Controller::new();

    policy.resolver_update(ResolverUpdate::Data(resolver_data(2, 1)), None, &mut cc).unwrap();
    let seen = drain(&mut cc);
    policy.subchannel_update(&seen.created[0].1, &SubchannelState::new(ConnectivityState::Ready), &mut cc);
    assert_eq!(drain(&mut cc).published.len(), 1);

    let err = policy
        .resolver_update(ResolverUpdate::Data(ResolverData::default()), None, &mut cc)
        .unwrap_err();
    assert_eq!(err.message(), "no endpoints");
    // No picker was published and the children are as they were.
    assert!(cc.take_operations().is_empty());
    assert_eq!(policy.child_count(), 2);
    assert_eq!(
        policy.child_connectivity(),
        vec![ConnectivityState::Ready, ConnectivityState::Connecting]
    );

    let err = policy
        .resolver_update(ResolverUpdate::Failure(LbError::Resolution("down".to_string())), None, &mut cc)
        .unwrap_err();
    assert_eq!(err.message(), "bad update");
    assert!(cc.take_operations().is_empty());
    assert_eq!(policy.child_count(), 2);
}

#[test]
fn a_lost_connection_demotes_the_aggregate() {
    let mut policy = DelegatingPolicy::new(Builder {}, options());
    let mut cc = Controller::new();
    policy.resolver_update(ResolverUpdate::Data(resolver_data(2, 3)), None, &mut cc).unwrap();
    let seen = drain(&mut cc);
    let (first, second) = (seen.created[0].1.clone(), seen.created[1].1.clone());
    let ready = SubchannelState::new(ConnectivityState::Ready);
    let idle = SubchannelState::new(ConnectivityState::Idle);
    policy.subchannel_update(&first, &ready, &mut cc);
    policy.subchannel_update(&second, &ready, &mut cc);
    drain(&mut cc);

    // The first subchannel loses its connection: only the second is offered.
    policy.subchannel_update(&first, &idle, &mut cc);
    let after = drain(&mut cc);
    assert_eq!(after.published.len(), 1);
    assert_eq!(after.published[0].connectivity_state, ConnectivityState::Ready);
    let counts = picks(&after.published[0], 10);
    assert_eq!(counts.len(), 1);
    assert_eq!(counts[&second.id()], 10);
    assert_eq!(
        policy.child_connectivity(),
        vec![ConnectivityState::Idle, ConnectivityState::Ready]
    );

    // The second one too: the aggregate falls to idle and calls are held.
    policy.subchannel_update(&second, &idle, &mut cc);
    let after = drain(&mut cc);
    assert_eq!(after.published.len(), 1);
    assert_eq!(after.published[0].connectivity_state, ConnectivityState::Idle);
    let request = Request::new("method".to_string(), None);
    assert!(matches!(after.published[0].picker.pick(&request), PickResult::Queue));
}

#[test]
fn round_robin_gives_every_child_its_turn() {
    let subchannels: Vec<Subchannel> =
        (0..4).map(|id| Subchannel::new(id, Arc::default())).collect();
    let children: Vec<Arc<OneSubchannelPicker>> = subchannels
        .iter()
        .map(|sc| Arc::new(OneSubchannelPicker { sc: sc.clone() }))
        .collect();
    let picker = RRPickerPicker::new(children);
    assert_eq!(picker.child_count(), 4);
    let request = Request::new("method".to_string(), None);

    let mut order = vec![];
    let mut counts = [0usize; 4];
    for _ in 0..12 {
        match picker.pick(&request) {
            PickResult::Subchannel(pick) => {
                order.push(pick.subchannel.id());
                counts[pick.subchannel.id() as usize] += 1;
            }
            _ => panic!("expected a subchannel"),
        }
    }
    assert_eq!(order, vec![0, 1, 2, 3, 0, 1, 2, 3, 0, 1, 2, 3]);
    assert_eq!(counts, [3, 3, 3, 3]);

    // The position decides, wherever the cursor stands.
    match picker.pick_at(usize::MAX, &request) {
        PickResult::Subchannel(pick) => assert_eq!(pick.subchannel.id(), (usize::MAX % 4) as u32),
        _ => panic!("expected a subchannel"),
    }
}

#[test]
fn round_robin_without_children_holds_the_call() {
    let picker: RRPickerPicker<OneSubchannelPicker> = RRPickerPicker::new(vec![]);
    let request = Request::new("method".to_string(), None);
    assert!(matches!(picker.pick(&request), PickResult::Queue));
    assert!(matches!(picker.pick_at(7, &request), PickResult::Queue));
}

#[test]
fn endpoints_that_disappear_take_their_subchannels_along() {
    let mut policy = DelegatingPolicy::new(Builder {}, options());
    let mut cc = Controller::new();
    policy.resolver_update(ResolverUpdate::Data(resolver_data(3, 2)), None, &mut cc).unwrap();
    let first = drain(&mut cc);
    assert!(first.removed.is_empty());
    let ready = SubchannelState::new(ConnectivityState::Ready);
    for (_, sc) in &first.created {
        policy.subchannel_update(sc, &ready, &mut cc);
    }
    drain(&mut cc);

    // Only the middle endpoint is left.
    let mut data = resolver_data(3, 2);
    data.endpoints.remove(2);
    data.endpoints.remove(0);
    policy.resolver_update(ResolverUpdate::Data(data), None, &mut cc).unwrap();
    let second = drain(&mut cc);
    assert_eq!(policy.child_count(), 1);
    // The subchannels of the two endpoints that are gone, and that of the
    // one that starts over.
    assert_eq!(
        second.removed,
        vec![first.created[0].1.id(), first.created[2].1.id(), first.created[1].1.id()]
    );
    assert_eq!(second.created.len(), 1);
    assert_eq!(second.created[0].0, "1:1");
    assert_eq!(second.published.len(), 1);
    assert_eq!(second.published[0].connectivity_state, ConnectivityState::Connecting);
}

#[test]
fn composites_nest() {
    // A composite of composites of pick-first policies: three levels.
    type Inner = DelegatingPolicyBuilder<Builder>;
    let inner = Inner { child_builder: Arc::new(Builder {}) };
    assert_eq!(inner.name(), "delegating");
    assert_eq!(
        inner.parse_config("{\"shuffleAddressList\": true}").unwrap().unwrap().shuffle_address_list,
        Some(true)
    );
    let mut policy = DelegatingPolicy::new(inner, options());
    let mut cc: RecordingController<DelegatingPicker<DelegatingPicker<PickFirstPicker>>> =
        RecordingController::new();

    policy.resolver_update(ResolverUpdate::Data(resolver_data(2, 3)), None, &mut cc).unwrap();
    let mut made = vec![];
    let mut published = vec![];
    for op in cc.take_operations() {
        match op {
            ChannelOperations::CreateSubchannel(address, sc) => made.push((address.address, sc)),
            ChannelOperations::UpdatePicker(state) => published.push(state),
            _ => panic!("unexpected request"),
        }
    }
    // The subchannels of the innermost policies reach the channel; of all
    // the pickers only that of the outermost policy does.
    let texts: Vec<&str> = made.iter().map(|(a, _)| a.as_str()).collect();
    assert_eq!(texts, vec!["0:2", "1:2"]);
    assert_eq!(published.len(), 1);
    assert_eq!(published[0].connectivity_state, ConnectivityState::Connecting);

    let ready = SubchannelState::new(ConnectivityState::Ready);
    policy.subchannel_update(&made[1].1, &ready, &mut cc);
    let mut ops = cc.take_operations();
    assert_eq!(ops.len(), 1);
    let Some(ChannelOperations::UpdatePicker(state)) = ops.pop() else {
        panic!("expected a picker");
    };
    assert_eq!(state.connectivity_state, ConnectivityState::Ready);
    let request = Request::new("method".to_string(), None);
    for _ in 0..4 {
        match state.picker.pick(&request) {
            PickResult::Subchannel(pick) => assert!(pick.subchannel == made[1].1),
            _ => panic!("expected a subchannel"),
        }
    }
    cc.request_resolution();
    assert_eq!(cc.pending_count(), 1);
}
