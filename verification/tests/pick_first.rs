use grpc::client::load_balancing::pick_first::{reg, Builder, LbPolicyConfig, PickFirstPicker};
use grpc::client::load_balancing::{
    ChannelController, LbPolicy, LbPolicyBuilder, LbPolicyOptions, LbPolicyRegistry, LbState,
    NopWorkScheduler, PickResult, Picker, Subchannel, SubchannelIds, SubchannelState,
    WorkScheduler,
};
use grpc::client::name_resolution::{Address, Endpoint, ResolverData, ResolverUpdate};
use grpc::client::ConnectivityState;
use grpc::error::LbError;
use grpc::service::Request;
use std::sync::atomic::{AtomicU64, Ordering};
use std::sync::Arc;

struct StubChannelController {
    ids: SubchannelIds,
    created: Vec<(String, Subchannel)>,
    published: Vec<LbState<PickFirstPicker>>,
    removed: Vec<u32>,
    resolutions: usize,
}

impl StubChannelController {
    fn new() -> Self {
        Self {
            ids: SubchannelIds::new(),
            created: vec![],
            published: vec![],
            removed: vec![],
            resolutions: 0,
        }
    }
}

impl ChannelController for StubChannelController {
    type Picker = PickFirstPicker;

    fn new_subchannel(&mut self, address: &Address) -> Subchannel {
        let sc = Subchannel::new(self.ids.allocate(), Arc::default());
        self.created.push((address.address.clone(), sc.clone()));
        sc
    }

    fn update_picker(&mut self, update: LbState<PickFirstPicker>) {
        self.published.push(update);
    }

    fn request_resolution(&mut self) {
        self.resolutions += 1;
    }

    fn remove_subchannel(&mut self, subchannel: &Subchannel) {
        self.removed.push(subchannel.id());
    }
}

fn addresses(names: &[&str]) -> Vec<Address> {
    names.iter().map(|n| Address::new("foo".to_string(), n.to_string())).collect()
}

fn options() -> LbPolicyOptions {
    LbPolicyOptions { work_scheduler: Box::new(NopWorkScheduler {}) }
}

#[test]
fn pickfirst_builder_name() {
    let mut registry = LbPolicyRegistry::new();
    reg(&mut registry);

    let builder: Arc<Builder> = match registry.get_policy("pick_first") {
        Some(b) => b,
        None => panic!("pick_first LB policy not registered"),
    };
    assert_eq!(builder.name(), "pick_first");
}

#[test]
fn pickfirst_builder_parse_config_failure() {
    let mut registry = LbPolicyRegistry::new();
    reg(&mut registry);

    let builder: Arc<Builder> = match registry.get_policy("pick_first") {
        Some(b) => b,
        None => panic!("pick_first LB policy not registered"),
    };

    // Failure cases.
    assert_eq!(builder.parse_config("").is_err(), true);
    assert_eq!(builder.parse_config("This is not JSON").is_err(), true);
    assert_eq!(builder.parse_config("{").is_err(), true);
    assert_eq!(builder.parse_config("}").is_err(), true);

    // Success cases.
    let test_cases = vec![(String::from("{}"), false)];
    for (text, want_shuffle_addresses) in test_cases {
        let config = match builder.parse_config(text.as_str()) {
            Ok(c) => c,
            Err(e) => {
                panic!("parse_config({}) failed when expected to succeed: {:?}", text, e)
            }
        };
        let config: LbPolicyConfig = match config {
            Some(c) => c,
            None => panic!("parse_config({}) returned None when expected to succeed", text),
        };
        assert_eq!(config.shuffle_address_list.unwrap_or(false), want_shuffle_addresses);
    }
}

#[test]
fn pickfirst_parse_config_reads_the_shuffle_setting() {
    let builder = Builder {};
    let on = builder.parse_config("{\"shuffleAddressList\": true}").unwrap().unwrap();
    assert_eq!(on.shuffle_address_list, Some(true));
    let off = builder.parse_config("{\"shuffleAddressList\": false, \"other\": 1}").unwrap().unwrap();
    assert_eq!(off.shuffle_address_list, Some(false));
    let absent = builder.parse_config("{\"shuffleAddressList\": null}").unwrap().unwrap();
    assert_eq!(absent.shuffle_address_list, None);
    assert!(matches!(
        builder.parse_config("{\"shuffleAddressList\": \"yes\"}"),
        Err(LbError::ConfigParse(_))
    ));
    assert!(matches!(builder.parse_config("[true]"), Err(LbError::ConfigParse(_))));
    assert!(matches!(builder.parse_config("true"), Err(LbError::ConfigParse(_))));
    let err = builder.parse_config("{").unwrap_err();
    assert!(err.message().starts_with("service config parsing failed: "));
}

#[test]
fn pickfirst_rejects_updates_it_cannot_use() {
    let mut policy = Builder {}.build(options());
    let mut cc = StubChannelController::new();

    let err = policy
        .resolver_update(ResolverUpdate::Failure(LbError::Resolution("dns".to_string())), None, &mut cc)
        .unwrap_err();
    assert_eq!(err.message(), "unhandled");

    let err = policy
        .resolver_update(ResolverUpdate::Data(ResolverData::default()), None, &mut cc)
        .unwrap_err();
    assert_eq!(err.message(), "no endpoints");

    let data = ResolverData::new(vec![Endpoint::new(vec![])]);
    let err = policy.resolver_update(ResolverUpdate::Data(data), None, &mut cc).unwrap_err();
    assert_eq!(err.message(), "no addresses");

    assert!(cc.created.is_empty());
    assert!(cc.published.is_empty());
    assert_eq!(policy.subchannel_count(), 0);
    assert_eq!(policy.pending_address_count(), 0);
}

#[test]
fn pickfirst_tries_addresses_from_the_last() {
    let mut policy = Builder {}.build(options());
    let mut cc = StubChannelController::new();
    let data = ResolverData::new(vec![
        Endpoint::new(addresses(&["a", "b", "c"])),
        Endpoint::new(addresses(&["x"])),
    ]);
    policy.resolver_update(ResolverUpdate::Data(data), None, &mut cc).unwrap();
    assert_eq!(cc.created.len(), 1);
    assert_eq!(cc.created[0].0, "c");
    assert_eq!(policy.subchannel_count(), 1);
    assert_eq!(policy.pending_address_count(), 2);

    policy.work(&mut cc);
    assert_eq!(cc.created.len(), 2);
    assert_eq!(cc.created[1].0, "b");
    policy.work(&mut cc);
    policy.work(&mut cc);
    assert_eq!(cc.created.len(), 3);
    assert_eq!(cc.created[2].0, "a");
    assert_eq!(policy.subchannel_count(), 3);
    assert_eq!(policy.pending_address_count(), 0);
    assert!(cc.published.is_empty());
}

#[test]
fn pickfirst_shuffle_keeps_every_address() {
    let mut policy = Builder {}.build(options());
    let mut cc = StubChannelController::new();
    let names = ["a", "b", "c", "d", "e", "f", "g", "h"];
    let data = ResolverData::new(vec![Endpoint::new(addresses(&names))]);
    let config = LbPolicyConfig { shuffle_address_list: Some(true) };
    policy.resolver_update(ResolverUpdate::Data(data), Some(&config), &mut cc).unwrap();
    for _ in 0..names.len() {
        policy.work(&mut cc);
    }
    let mut seen: Vec<String> = cc.created.iter().map(|(a, _)| a.clone()).collect();
    seen.sort();
    assert_eq!(seen, names.iter().map(|n| n.to_string()).collect::<Vec<_>>());
}

#[test]
fn pickfirst_offers_the_ready_subchannel_and_withdraws_it() {
    let mut policy = Builder {}.build(options());
    let mut cc = StubChannelController::new();
    let data = ResolverData::new(vec![Endpoint::new(addresses(&["a", "b"]))]);
    policy.resolver_update(ResolverUpdate::Data(data), None, &mut cc).unwrap();
    policy.work(&mut cc);
    let first = cc.created[0].1.clone();
    let second = cc.created[1].1.clone();
    let request = Request::new("method".to_string(), None);

    // Not ready yet: nothing is published.
    policy.subchannel_update(&first, &SubchannelState::new(ConnectivityState::Connecting), &mut cc);
    assert!(cc.published.is_empty());

    // A subchannel of somebody else is ignored.
    let stranger = Subchannel::new(77, Arc::default());
    policy.subchannel_update(&stranger, &SubchannelState::new(ConnectivityState::Ready), &mut cc);
    assert!(cc.published.is_empty());

    policy.subchannel_update(&second, &SubchannelState::new(ConnectivityState::Ready), &mut cc);
    assert_eq!(cc.published.len(), 1);
    assert_eq!(cc.published[0].connectivity_state, ConnectivityState::Ready);
    match cc.published[0].picker.pick(&request) {
        PickResult::Subchannel(pick) => {
            assert!(pick.subchannel == second);
            assert!(pick.on_complete.is_none());
            assert!(pick.metadata.is_none());
        }
        _ => panic!("expected a subchannel"),
    }

    // The other subchannel failing changes nothing.
    policy.subchannel_update(&first, &SubchannelState::failed("refused".to_string()), &mut cc);
    assert_eq!(cc.published.len(), 1);

    // The offered subchannel loses its connection: the picker is withdrawn.
    policy.subchannel_update(&second, &SubchannelState::new(ConnectivityState::Idle), &mut cc);
    assert_eq!(cc.published.len(), 2);
    assert_eq!(cc.published[1].connectivity_state, ConnectivityState::Idle);
    assert!(matches!(cc.published[1].picker.pick(&request), PickResult::Queue));

    // Reported again, there is nothing left to withdraw.
    policy.subchannel_update(&second, &SubchannelState::new(ConnectivityState::Idle), &mut cc);
    assert_eq!(cc.published.len(), 2);
}

#[test]
fn pickfirst_shuffle_changes_the_order() {
    // Eight addresses have 40320 orders: twenty shuffles that all leave the
    // given order in place do not happen.
    let names = ["a", "b", "c", "d", "e", "f", "g", "h"];
    let given: Vec<String> = names.iter().rev().map(|n| n.to_string()).collect();
    let config = LbPolicyConfig { shuffle_address_list: Some(true) };
    let mut changed = false;
    for _ in 0..20 {
        let mut policy = Builder {}.build(options());
        let mut cc = StubChannelController::new();
        let data = ResolverData::new(vec![Endpoint::new(addresses(&names))]);
        policy.resolver_update(ResolverUpdate::Data(data), Some(&config), &mut cc).unwrap();
        for _ in 0..names.len() {
            policy.work(&mut cc);
        }
        let seen: Vec<String> = cc.created.iter().map(|(a, _)| a.clone()).collect();
        changed = changed || seen != given;
    }
    assert!(changed);

    // Without the setting the order is the given one, from the last address.
    let mut policy = Builder {}.build(options());
    let mut cc = StubChannelController::new();
    let data = ResolverData::new(vec![Endpoint::new(addresses(&names))]);
    let off = LbPolicyConfig { shuffle_address_list: Some(false) };
    policy.resolver_update(ResolverUpdate::Data(data), Some(&off), &mut cc).unwrap();
    for _ in 0..names.len() {
        policy.work(&mut cc);
    }
    let seen: Vec<String> = cc.created.iter().map(|(a, _)| a.clone()).collect();
    assert_eq!(seen, given);
}

#[test]
fn connect_wakes_the_owner_of_the_connection() {
    let sc = Subchannel::new(3, Arc::default());
    let trigger = sc.connect_trigger();
    sc.clone().connect();
    let runtime = tokio::runtime::Builder::new_current_thread().enable_time().build().unwrap();
    let woken = runtime.block_on(async {
        tokio::time::timeout(std::time::Duration::from_secs(5), trigger.notified()).await.is_ok()
    });
    assert!(woken);
}

#[test]
fn pickfirst_starts_over_on_a_new_update() {
    let mut policy = Builder {}.build(options());
    let mut cc = StubChannelController::new();
    let request = Request::new("method".to_string(), None);
    let data = ResolverData::new(vec![Endpoint::new(addresses(&["a", "b"]))]);
    policy.resolver_update(ResolverUpdate::Data(data), None, &mut cc).unwrap();
    policy.work(&mut cc);
    assert!(cc.removed.is_empty());
    let second = cc.created[1].1.clone();
    policy.subchannel_update(&second, &SubchannelState::new(ConnectivityState::Ready), &mut cc);
    assert_eq!(cc.published.len(), 1);

    // A new update: the policy stops offering, lets go of what it holds, and
    // begins with the last of the new addresses.
    let data = ResolverData::new(vec![Endpoint::new(addresses(&["x", "y"]))]);
    policy.resolver_update(ResolverUpdate::Data(data), None, &mut cc).unwrap();
    assert_eq!(cc.published.len(), 2);
    assert_eq!(cc.published[1].connectivity_state, ConnectivityState::Connecting);
    assert!(matches!(cc.published[1].picker.pick(&request), PickResult::Queue));
    assert_eq!(cc.removed, vec![0, 1]);
    assert_eq!(cc.created.len(), 3);
    assert_eq!(cc.created[2].0, "y");
    assert_eq!(policy.subchannel_count(), 1);
    assert_eq!(policy.pending_address_count(), 1);

    // What it let go of does not concern it any more.
    policy.subchannel_update(&second, &SubchannelState::new(ConnectivityState::Idle), &mut cc);
    assert_eq!(cc.published.len(), 2);

    // An update that is rejected lets go of nothing.
    let data = ResolverData::new(vec![Endpoint::new(vec![])]);
    policy.resolver_update(ResolverUpdate::Data(data), None, &mut cc).unwrap_err();
    assert_eq!(cc.removed, vec![0, 1]);
    assert_eq!(policy.subchannel_count(), 1);

    // Without an offer there is nothing to withdraw.
    let data = ResolverData::new(vec![Endpoint::new(addresses(&["z"]))]);
    policy.resolver_update(ResolverUpdate::Data(data), None, &mut cc).unwrap();
    assert_eq!(cc.published.len(), 2);
    assert_eq!(cc.removed, vec![0, 1, 2]);
}

/// Adds up the delays of the requests for work that reach it.
struct DelaySum {
    millis: Arc<AtomicU64>,
}

impl WorkScheduler for DelaySum {
    fn schedule_work(&self) {}

    fn schedule_work_after(&self, delay_millis: u64) {
        self.millis.fetch_add(delay_millis, Ordering::SeqCst);
    }
}

#[test]
fn pickfirst_asks_the_scheduler_it_was_built_with() {
    let millis = Arc::new(AtomicU64::new(0));
    let scheduler = DelaySum { millis: millis.clone() };
    let mut policy = Builder {}.build(LbPolicyOptions { work_scheduler: Box::new(scheduler) });
    let mut cc = StubChannelController::new();
    assert_eq!(millis.load(Ordering::SeqCst), 0);

    let data = ResolverData::new(vec![Endpoint::new(addresses(&["a", "b"]))]);
    policy.resolver_update(ResolverUpdate::Data(data), None, &mut cc).unwrap();
    assert_eq!(millis.load(Ordering::SeqCst), 200);
}
