use grpc::client::connectivity::effective_state;
use grpc::client::load_balancing::{
    ChannelController, LbState, QueuingPicker, Subchannel, SubchannelIds,
};
use grpc::client::name_resolution::Address;
use grpc::client::ConnectivityState;
use std::sync::Arc;

struct StubChannelController {
    ids: SubchannelIds,
    subchannels: Vec<Subchannel>,
    pickers: usize,
}

impl ChannelController for StubChannelController {
    type Picker = QueuingPicker;

    fn new_subchannel(&mut self, _address: &Address) -> Subchannel {
        let sc = Subchannel::new(self.ids.allocate(), Arc::default());
        self.subchannels.push(sc.clone());
        sc
    }

    fn update_picker(&mut self, _update: LbState<QueuingPicker>) {
        self.pickers += 1;
    }

    fn request_resolution(&mut self) {}

    fn remove_subchannel(&mut self, subchannel: &Subchannel) {
        self.subchannels.retain(|sc| sc != subchannel);
    }
}

#[test]
fn aggregate_prefers_ready() {
    let states = vec![
        ConnectivityState::Idle,
        ConnectivityState::TransientFailure,
        ConnectivityState::Ready,
        ConnectivityState::Connecting,
    ];
    assert_eq!(effective_state(&states), ConnectivityState::Ready);
}

#[test]
fn subchannel_identity_follows_id() {
    let mut cc = StubChannelController { ids: SubchannelIds::new(), subchannels: vec![], pickers: 0 };
    let address = Address::new("foo".to_string(), "bar".to_string());
    let a = cc.new_subchannel(&address);
    let b = cc.new_subchannel(&address);
    assert!(a == a.clone().clone());
    assert!(a != b);
    assert_eq!(a.id(), 0);
    assert_eq!(b.id(), 1);
    cc.update_picker(LbState::initial());
    cc.request_resolution();
    assert_eq!(cc.pickers, 1);
    assert_eq!(cc.subchannels.len(), 2);
    cc.remove_subchannel(&a.clone());
    assert_eq!(cc.subchannels.len(), 1);
    assert!(cc.subchannels[0] == b);
}

fn permutations(states: &[ConnectivityState]) -> Vec<Vec<ConnectivityState>> {
    if states.len() <= 1 {
        return vec![states.to_vec()];
    }
    let mut all = vec![];
    for i in 0..states.len() {
        let mut rest = states.to_vec();
        let first = rest.remove(i);
        for mut tail in permutations(&rest) {
            tail.insert(0, first);
            all.push(tail);
        }
    }
    all
}

#[test]
fn aggregate_follows_the_precedence_in_any_order() {
    use_all_orders(
        &[ConnectivityState::TransientFailure, ConnectivityState::Idle, ConnectivityState::Connecting],
        ConnectivityState::Connecting,
    );
    use_all_orders(
        &[ConnectivityState::TransientFailure, ConnectivityState::Idle, ConnectivityState::Idle],
        ConnectivityState::Idle,
    );
    use_all_orders(
        &[ConnectivityState::TransientFailure, ConnectivityState::TransientFailure],
        ConnectivityState::TransientFailure,
    );
    use_all_orders(
        &[
            ConnectivityState::Idle,
            ConnectivityState::Ready,
            ConnectivityState::TransientFailure,
            ConnectivityState::Connecting,
        ],
        ConnectivityState::Ready,
    );
    assert_eq!(effective_state(&vec![]), ConnectivityState::TransientFailure);
    for state in [
        ConnectivityState::Idle,
        ConnectivityState::Connecting,
        ConnectivityState::Ready,
        ConnectivityState::TransientFailure,
    ] {
        assert_eq!(effective_state(&vec![state]), state);
    }
}

fn use_all_orders(states: &[ConnectivityState], expected: ConnectivityState) {
    for order in permutations(states) {
        assert_eq!(effective_state(&order), expected);
    }
}
