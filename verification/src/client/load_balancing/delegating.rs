//! A composite policy: one child per endpoint, round-robin over the children
//! that are in the state of the whole.

use crate::client::connectivity::{aggregate_state, effective_state, ConnectivityState};
use crate::client::load_balancing::child_manager::{
    child_identifiers, has_heard, is_replaced_and_told, is_work_round, Child, ChildManager,
    ChildState, ChildUpdate, Kept, ResolverUpdateSharder,
};
use crate::client::load_balancing::round_robin::RRPickerPicker;
use crate::client::load_balancing::{
    ChannelController, ChannelOperations, LbPolicy, LbPolicyBuilder, LbPolicyOptions, LbState,
    Picker, QueuingOr, Subchannel, SubchannelState,
};
use crate::client::name_resolution::{AddressKey, Endpoint, ResolverData, ResolverUpdate};
use crate::error::LbError;
use std::sync::Arc;
use vstd::prelude::*;

verus! {

/// Splits a resolver update into one update per endpoint. The child of an
/// endpoint is identified by the endpoint and built by the sharder's
/// builder, and its update holds that endpoint alone.
pub struct EndpointSharder<B> {
    /// Builds every child.
    pub builder: Arc<B>,
}

/// Whether `share` is the share of `endpoint` when children are built by
/// `builder`.
pub open spec fn is_share_of<B>(
    share: ChildUpdate<Endpoint, B>,
    endpoint: Endpoint,
    builder: Arc<B>,
) -> bool {
    &&& share.child_identifier.key() == endpoint.key()
    &&& share.child_policy_builder == builder
    &&& share.child_update matches ResolverUpdate::Data(data) && data.endpoints@.len() == 1
        && data.endpoints@[0] == endpoint && data.service_config is None
}

impl<B> ResolverUpdateSharder<Endpoint, B> for EndpointSharder<B> {
    /// A resolution failure is rejected as `BadUpdate`, an update without
    /// endpoints as `NoEndpoints`. Every other update gives one share per
    /// endpoint, in the order of the endpoints.
    open spec fn shards(
        &self,
        update: &ResolverUpdate,
        result: &Result<Vec<ChildUpdate<Endpoint, B>>, LbError>,
    ) -> bool {
        match update {
            ResolverUpdate::Failure(_) => *result == Err::<Vec<ChildUpdate<Endpoint, B>>, LbError>(
                LbError::BadUpdate,
            ),
            ResolverUpdate::Data(data) => if data.endpoints@.len() == 0 {
                *result == Err::<Vec<ChildUpdate<Endpoint, B>>, LbError>(LbError::NoEndpoints)
            } else {
                result matches Ok(shares) && shares@.len() == data.endpoints@.len() && forall|
                    i: int,
                |
                    0 <= i < shares@.len() ==> is_share_of(
                        #[trigger] shares@[i],
                        data.endpoints@[i],
                        self.builder,
                    )
            },
        }
    }

    fn shard(&self, update: ResolverUpdate) -> (result: Result<
        Vec<ChildUpdate<Endpoint, B>>,
        LbError,
    >) {
        let data = match update {
            ResolverUpdate::Data(data) => data,
            ResolverUpdate::Failure(_) => {
                return Err(LbError::BadUpdate);
            },
        };
        if data.endpoints.len() == 0 {
            return Err(LbError::NoEndpoints);
        }
        let ghost given = data.endpoints@;
        let mut endpoints = data.endpoints;
        let n: usize = endpoints.len();
        // Shares are made from the last endpoint to the first and put in
        // order afterwards.
        let mut backwards: Vec<ChildUpdate<Endpoint, B>> = Vec::new();
        while endpoints.len() > 0
            invariant
                n == given.len(),
                endpoints@.len() + backwards@.len() == n,
                forall|k: int| 0 <= k < endpoints@.len() ==> endpoints@[k] == given[k],
                forall|k: int|
                    0 <= k < backwards@.len() ==> is_share_of(
                        #[trigger] backwards@[k],
                        given[n - 1 - k],
                        self.builder,
                    ),
            decreases endpoints@.len(),
        {
            match endpoints.pop() {
                Some(endpoint) => {
                    let child_identifier = endpoint.clone();
                    let child_update = ResolverUpdate::Data(ResolverData::new(vec![endpoint]));
                    backwards.push(
                        ChildUpdate {
                            child_identifier,
                            child_policy_builder: self.builder.clone(),
                            child_update,
                        },
                    );
                },
                None => {},
            }
        }
        let mut shares: Vec<ChildUpdate<Endpoint, B>> = Vec::new();
        while backwards.len() > 0
            invariant
                n == given.len(),
                shares@.len() + backwards@.len() == n,
                forall|k: int|
                    0 <= k < backwards@.len() ==> is_share_of(
                        #[trigger] backwards@[k],
                        given[n - 1 - k],
                        self.builder,
                    ),
                forall|k: int|
                    0 <= k < shares@.len() ==> is_share_of(
                        #[trigger] shares@[k],
                        given[k],
                        self.builder,
                    ),
            decreases backwards@.len(),
        {
            match backwards.pop() {
                Some(share) => {
                    shares.push(share);
                },
                None => {},
            }
        }
        Ok(shares)
    }
}

/// What each of the given children has published, in order.
pub open spec fn published_states<T, Q: LbPolicy>(children: Seq<Child<T, Q>>) -> Seq<
    ChildState<Q::Picker>,
> {
    Seq::new(children.len(), |i: int| children[i].state)
}

/// The connectivity states of children that have published the given
/// states, in order.
pub open spec fn connectivities<P>(states: Seq<ChildState<P>>) -> Seq<ConnectivityState> {
    Seq::new(states.len(), |i: int| states[i].connectivity())
}

/// The pickers of the children that have published the connectivity state
/// `wanted`, in the order of the children.
pub open spec fn eligible<P>(states: Seq<ChildState<P>>, wanted: ConnectivityState) -> Seq<Arc<P>>
    decreases states.len(),
{
    if states.len() == 0 {
        Seq::empty()
    } else {
        let earlier = eligible(states.drop_last(), wanted);
        match states.last() {
            ChildState::Published(state) => if state.connectivity_state == wanted {
                earlier.push(state.picker)
            } else {
                earlier
            },
            ChildState::Initial => earlier,
        }
    }
}

/// What a composite publishes.
pub type DelegatingPicker<P> = QueuingOr<RRPickerPicker<P>>;

/// Whether `picker` is the picker of a composite whose children have
/// published `states`.
///
/// When the aggregate state is `Ready` or `TransientFailure`, the picker
/// takes turns over exactly the children that are in that state, in their
/// order. In every other case, and when there is no such child, it is the
/// queuing picker: never does a call go to a child that is not in the
/// aggregate state.
pub open spec fn is_composite_picker<P: Picker>(
    picker: DelegatingPicker<P>,
    states: Seq<ChildState<P>>,
) -> bool {
    let aggregate = aggregate_state(connectivities(states));
    let chosen = eligible(states, aggregate);
    if (aggregate == ConnectivityState::Ready || aggregate == ConnectivityState::TransientFailure)
        && chosen.len() > 0 {
        picker matches QueuingOr::Other(round_robin) && round_robin.children() == chosen
    } else {
        picker is Queuing
    }
}

/// Whether the last request in `log` publishes the aggregate state of
/// children that have published `states`, with the picker that goes with
/// it.
pub open spec fn publishes_aggregate<P: Picker>(
    log: Seq<ChannelOperations<DelegatingPicker<P>>>,
    states: Seq<ChildState<P>>,
) -> bool {
    log.len() > 0 && (log.last() matches ChannelOperations::UpdatePicker(update)
        && update.connectivity_state == aggregate_state(connectivities(states))
        && is_composite_picker(*update.picker, states))
}

/// A policy that gives every endpoint a child of its own and spreads calls
/// over the children.
pub struct DelegatingPolicy<B: LbPolicyBuilder> {
    child_manager: ChildManager<Endpoint, B, EndpointSharder<B>>,
}

impl<B: LbPolicyBuilder> DelegatingPolicy<B> {
    /// The manager of the children.
    pub closed spec fn manager(&self) -> ChildManager<Endpoint, B, EndpointSharder<B>> {
        self.child_manager
    }

    /// What each child has published, in the order of the children.
    pub open spec fn states(&self) -> Seq<ChildState<<B::Policy as LbPolicy>::Picker>> {
        published_states(self.manager().children())
    }

    /// The identities of the endpoints that the children stand for, in the
    /// order of the children.
    pub open spec fn endpoint_keys(&self) -> Seq<Seq<AddressKey>> {
        Seq::new(
            self.manager().children().len(),
            |i: int| self.manager().children()[i].identifier.key(),
        )
    }

    /// A policy without children, whose children will be built by
    /// `child_builder` and ask for work through the scheduler in `options`.
    pub fn new(child_builder: B, options: LbPolicyOptions) -> (policy: DelegatingPolicy<B>)
        ensures
            policy.manager().children().len() == 0,
            policy.manager().wf(),
            policy.manager().sharder() == (EndpointSharder { builder: Arc::new(child_builder) }),
    {
        DelegatingPolicy::with_builder(Arc::new(child_builder), options)
    }

    /// A policy without children, whose children will be built by the
    /// shared `child_builder` and ask for work through the scheduler in
    /// `options`.
    pub fn with_builder(child_builder: Arc<B>, options: LbPolicyOptions) -> (policy:
        DelegatingPolicy<B>)
        ensures
            policy.manager().children().len() == 0,
            policy.manager().wf(),
            policy.manager().sharder() == (EndpointSharder { builder: child_builder }),
    {
        let mut child_manager = ChildManager::new(EndpointSharder { builder: child_builder });
        child_manager.set_work_scheduler(options.work_scheduler);
        DelegatingPolicy { child_manager }
    }

    /// The number of children.
    pub fn child_count(&self) -> (count: usize)
        ensures
            count == self.manager().children().len(),
    {
        self.child_manager.child_count()
    }

    /// The connectivity state of each child, in order.
    pub fn child_connectivity(&self) -> (states: Vec<ConnectivityState>)
        ensures
            states@ == connectivities(self.states()),
    {
        let published = self.child_manager.child_states();
        let mut states: Vec<ConnectivityState> = Vec::new();
        let n: usize = published.len();
        for i in 0..n
            invariant
                n == published@.len(),
                n == self.manager().children().len(),
                forall|k: int|
                    0 <= k < n ==> *(#[trigger] published@[k]).1
                        == self.manager().children()[k].state,
                states@.len() == i,
                forall|k: int| 0 <= k < i ==> states@[k] == connectivities(self.states())[k],
        {
            states.push(published[i].1.connectivity_state());
        }
        proof {
            assert(states@ =~= connectivities(self.states()));
        }
        states
    }

    /// Works out the aggregate state of the children and publishes it, with
    /// the picker that goes with it.
    pub fn update_picker<
        C: ChannelController<Picker = DelegatingPicker<<B::Policy as LbPolicy>::Picker>>,
    >(
        &self,
        channel_controller: &mut C,
    )
        ensures
            C::keeps_record() ==> publishes_aggregate(
                final(channel_controller).log(),
                self.states(),
            ),
    {
        let connectivity = self.child_connectivity();
        let aggregate = effective_state(&connectivity);
        let published = self.child_manager.child_states();
        let mut pickers: Vec<Arc<<B::Policy as LbPolicy>::Picker>> = Vec::new();
        let n: usize = published.len();
        let ghost states = self.states();
        for i in 0..n
            invariant
                n == published@.len(),
                n == states.len(),
                states == self.states(),
                forall|k: int| 0 <= k < n ==> *(#[trigger] published@[k]).1 == states[k],
                pickers@ == eligible(states.take(i as int), aggregate),
        {
            proof {
                assert(states.take(i + 1).drop_last() == states.take(i as int));
                assert(states.take(i + 1).last() == states[i as int]);
            }
            match published[i].1 {
                ChildState::Published(state) => {
                    if state.connectivity_state == aggregate {
                        pickers.push(state.picker.clone());
                    }
                },
                ChildState::Initial => {},
            }
        }
        proof {
            assert(states.take(n as int) == states);
        }
        let wanted = aggregate == ConnectivityState::Ready || aggregate
            == ConnectivityState::TransientFailure;
        let picker = if wanted && pickers.len() > 0 {
            QueuingOr::Other(RRPickerPicker::new(pickers))
        } else {
            QueuingOr::Queuing
        };
        channel_controller.update_picker(LbState::new(aggregate, picker));
    }
}

impl<B: LbPolicyBuilder> LbPolicy for DelegatingPolicy<B> {
    type Picker = DelegatingPicker<<B::Policy as LbPolicy>::Picker>;

    type Config = <B::Policy as LbPolicy>::Config;

    /// A resolution failure is rejected as `BadUpdate` and an update
    /// without endpoints as `NoEndpoints`; nothing changes then. Every
    /// other update is accepted, whatever the children make of their
    /// shares: the composite then has one child per endpoint, in the order
    /// of the endpoints, and the last thing it asked of its controller is
    /// to publish the aggregate of its children.
    open spec fn on_resolver_update(
        &self,
        update: ResolverUpdate,
        config: Option<&<B::Policy as LbPolicy>::Config>,
        requests: Option<Seq<ChannelOperations<DelegatingPicker<<B::Policy as LbPolicy>::Picker>>>>,
        after: &DelegatingPolicy<B>,
        requests_after: Option<
            Seq<ChannelOperations<DelegatingPicker<<B::Policy as LbPolicy>::Picker>>>,
        >,
        result: Result<(), LbError>,
    ) -> bool {
        &&& requests_after is Some == requests is Some
        &&& update is Failure ==> result == Err::<(), LbError>(LbError::BadUpdate)
        &&& update matches ResolverUpdate::Data(data) ==> (if data.endpoints@.len() == 0 {
            result == Err::<(), LbError>(LbError::NoEndpoints)
        } else {
            &&& result is Ok
            &&& after.endpoint_keys() == Seq::new(
                data.endpoints@.len(),
                |i: int| data.endpoints@[i].key(),
            )
        })
        &&& result is Err ==> *after == *self && requests_after == requests
        &&& result is Ok ==> after.manager().wf() && (requests_after matches Some(log)
            ==> publishes_aggregate(log, after.states()))
    }

    /// The children stay the same in number and in order, and those that do
    /// not own the subchannel keep what they have published. The last thing
    /// that the composite asked of its controller is to publish the
    /// aggregate of its children.
    open spec fn on_subchannel_update(
        &self,
        subchannel: &Subchannel,
        state: &SubchannelState,
        requests: Option<Seq<ChannelOperations<DelegatingPicker<<B::Policy as LbPolicy>::Picker>>>>,
        after: &DelegatingPolicy<B>,
        requests_after: Option<
            Seq<ChannelOperations<DelegatingPicker<<B::Policy as LbPolicy>::Picker>>>,
        >,
    ) -> bool {
        &&& requests_after is Some == requests is Some
        &&& after.endpoint_keys() == self.endpoint_keys()
        &&& self.manager().wf() ==> after.manager().wf()
        &&& forall|k: int|
            0 <= k < self.states().len() && !(self.manager().has_owner(subchannel.id()) && k
                == self.manager().ownership()[subchannel.id()]) ==> #[trigger] after.states()[k]
                == self.states()[k]
        &&& if self.manager().has_owner(subchannel.id()) {
            has_heard(
                self.manager().children(),
                self.manager().ownership(),
                self.manager().ownership()[subchannel.id()],
                *subchannel,
                *state,
                after.manager().children(),
                after.manager().ownership(),
            )
        } else {
            after.manager() == self.manager()
        }
        &&& requests_after matches Some(log) ==> publishes_aggregate(log, after.states())
    }

    /// The children stay the same in number and in order, and the last
    /// thing that the composite asked of its controller is to publish the
    /// aggregate of its children.
    open spec fn on_work(
        &self,
        requests: Option<Seq<ChannelOperations<DelegatingPicker<<B::Policy as LbPolicy>::Picker>>>>,
        after: &DelegatingPolicy<B>,
        requests_after: Option<
            Seq<ChannelOperations<DelegatingPicker<<B::Policy as LbPolicy>::Picker>>>,
        >,
    ) -> bool {
        &&& requests_after is Some == requests is Some
        &&& after.endpoint_keys() == self.endpoint_keys()
        &&& self.manager().wf() ==> after.manager().wf()
        &&& exists|stages: Seq<Kept<Endpoint, B::Policy>>| #[trigger]
            is_work_round(stages, self.manager().kept(), after.manager().kept())
        &&& requests_after matches Some(log) ==> publishes_aggregate(log, after.states())
    }

    /// Gives every endpoint of the update a child, hands each child its
    /// endpoint, and publishes the aggregate once, as `on_resolver_update`
    /// states. A rejected update leaves the controller as it was: the
    /// picker published before stays in place. An update that is accepted
    /// replaces the children as the manager's `is_replaced_and_told` says:
    /// a child whose endpoint was there before keeps its policy, its state
    /// and its subchannels, the others are built anew, and each child is
    /// handed its own endpoint and `config`, in order.
    fn resolver_update<
        C: ChannelController<Picker = DelegatingPicker<<B::Policy as LbPolicy>::Picker>>,
    >(
        &mut self,
        update: ResolverUpdate,
        config: Option<&<B::Policy as LbPolicy>::Config>,
        channel_controller: &mut C,
    ) -> (result: Result<(), LbError>)
        ensures
            result is Err ==> *final(channel_controller) == *old(channel_controller),
            result is Ok ==> exists|child_updates: Vec<ChildUpdate<Endpoint, B>>|
                {
                    &&& #[trigger] old(self).manager().sharder().shards(
                        &update,
                        &Ok::<Vec<ChildUpdate<Endpoint, B>>, LbError>(child_updates),
                    )
                    &&& is_replaced_and_told(
                        old(self).manager().kept(),
                        child_updates@,
                        config,
                        final(self).manager().kept(),
                    )
                },
    {
        let ghost given = update;
        match self.child_manager.resolver_update(update, config, channel_controller) {
            Ok(_) => {},
            Err(error) => {
                return Err(error);
            },
        }
        proof {
            let shares = choose|shares: Vec<ChildUpdate<Endpoint, B>>|
                {
                    &&& #[trigger] old(self).manager().sharder().shards(
                        &given,
                        &Ok::<Vec<ChildUpdate<Endpoint, B>>, LbError>(shares),
                    )
                    &&& child_identifiers(self.manager().children())
                        == crate::client::load_balancing::child_manager::update_identifiers(
                        shares@,
                    )
                };
            let sharder = old(self).manager().sharder();
            assert(sharder.shards(&given, &Ok::<Vec<ChildUpdate<Endpoint, B>>, LbError>(shares)));
            let identifiers = child_identifiers(self.manager().children());
            assert(identifiers.len() == shares@.len());
            assert(self.manager().children().len() == shares@.len());
            if let ResolverUpdate::Data(data) = given {
                assert(shares@.len() == data.endpoints@.len());
                assert forall|i: int| 0 <= i < data.endpoints@.len() implies self.endpoint_keys()[i]
                    == data.endpoints@[i].key() by {
                    assert(is_share_of(shares@[i], data.endpoints@[i], sharder.builder));
                    assert(identifiers[i] == shares@[i].child_identifier);
                    assert(identifiers[i] == self.manager().children()[i].identifier);
                }
                assert(self.endpoint_keys() =~= Seq::new(
                    data.endpoints@.len(),
                    |i: int| data.endpoints@[i].key(),
                ));
            }
        }
        self.update_picker(channel_controller);
        Ok(())
    }

    /// Passes the state change on to the child that owns the subchannel and
    /// publishes the aggregate anew, as `on_subchannel_update` states.
    fn subchannel_update<
        C: ChannelController<Picker = DelegatingPicker<<B::Policy as LbPolicy>::Picker>>,
    >(
        &mut self,
        subchannel: &Subchannel,
        state: &SubchannelState,
        channel_controller: &mut C,
    )
    {
        self.child_manager.subchannel_update(subchannel, state, channel_controller);
        proof {
            assert(self.endpoint_keys() =~= old(self).endpoint_keys());
        }
        self.update_picker(channel_controller);
    }

    /// Lets the children that asked for it do their work and publishes the
    /// aggregate anew, as `on_work` states.
    fn work<C: ChannelController<Picker = DelegatingPicker<<B::Policy as LbPolicy>::Picker>>>(
        &mut self,
        channel_controller: &mut C,
    )
    {
        self.child_manager.work(channel_controller);
        proof {
            assert(self.endpoint_keys() =~= old(self).endpoint_keys());
        }
        self.update_picker(channel_controller);
    }
}

/// The name under which the composite policy goes.
pub const POLICY_NAME: &'static str = "delegating";

/// Builds composite policies whose children are all built by one builder.
/// Composites can be children of composites.
pub struct DelegatingPolicyBuilder<B> {
    /// Builds the children of every policy built.
    pub child_builder: Arc<B>,
}

impl<B: LbPolicyBuilder> LbPolicyBuilder for DelegatingPolicyBuilder<B> {
    type Policy = DelegatingPolicy<B>;

    open spec fn builds(&self, policy: &DelegatingPolicy<B>) -> bool {
        &&& policy.manager().children().len() == 0
        &&& policy.manager().wf()
        &&& policy.manager().sharder() == (EndpointSharder { builder: self.child_builder })
    }

    fn build(&self, options: LbPolicyOptions) -> (policy: DelegatingPolicy<B>) {
        DelegatingPolicy::with_builder(self.child_builder.clone(), options)
    }

    fn name(&self) -> (name: &'static str)
        ensures
            name@ == POLICY_NAME@,
    {
        POLICY_NAME
    }

    /// The composite takes the configuration of its children.
    fn parse_config(&self, config: &str) -> (parsed: Result<
        Option<<B::Policy as LbPolicy>::Config>,
        LbError,
    >)
        ensures
            call_ensures(B::parse_config, (&*self.child_builder, config), parsed),
    {
        self.child_builder.parse_config(config)
    }
}

} // verus!
