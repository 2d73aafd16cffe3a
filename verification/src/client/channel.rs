//! The channel: its options, the balancer that holds its policy, and the
//! state that an active channel keeps.
//!
//! An active channel is driven by events: a resolver update, an event of one
//! of its subchannels, a call of `work`. Each event is handed to the policy,
//! which talks to a recording controller; what the policy asked for is then
//! carried out on the pool and the published state, and what is left for
//! the program around the library to do (start an attempt, wake the
//! resolver) is handed back as a list of actions.

use crate::attributes::Attributes;
use crate::client::connectivity::ConnectivityState;
use crate::client::load_balancing::pick_first::POLICY_NAME;
use crate::client::load_balancing::recorder::{is_copy_of, RecordingController};
use crate::client::load_balancing::registry::LbPolicyRegistry;
use crate::client::load_balancing::{
    recorded, ChannelController, ChannelOperations, ChannelUpdates, LbPolicy, LbPolicyBuilder,
    LbPolicyOptions, LbState, PickResult, Picker, SharedWorkScheduler, Subchannel,
    SubchannelState, WorkScheduler,
};
use crate::client::name_resolution::{Address, ResolverUpdate, Target};
use crate::client::subchannel::watcher::{nth_version, Watcher, WatcherIter};
use crate::client::subchannel::{
    reported, route_of, step, InternalSubchannel, InternalSubchannelPool, Route, SubchannelAction,
    SubchannelEvent,
};
use crate::error::LbError;
use crate::sequence::reversed;
use crate::service::Request;
use std::sync::Arc;
use vstd::prelude::*;

verus! {

/// How much memory retries may use if the options do not say: 8 MiB.
pub const DEFAULT_MAX_RETRY_MEMORY: u32 = 8 * 1024 * 1024;

/// After how many seconds without calls a channel goes idle if the options
/// do not say: thirty minutes.
pub const DEFAULT_IDLE_TIMEOUT_SECS: u64 = 30 * 60;

/// The settings of a channel.
#[derive(Debug)]
#[non_exhaustive]
pub struct ChannelOptions {
    /// Settings that are passed on to the transports.
    pub transport_options: Attributes,
    /// The authority to use in place of the one that the resolver derives
    /// from the target.
    pub override_authority: Option<String>,
    /// The service config to use while the resolver has provided none.
    pub default_service_config: Option<String>,
    /// Whether to connect directly even where a proxy is configured.
    pub disable_proxy: bool,
    /// Whether to ignore service configs that the resolver finds.
    pub disable_service_config_lookup: bool,
    /// Whether to leave out health checks.
    pub disable_health_checks: bool,
    /// How many bytes retries may buffer.
    pub max_retry_memory: u32,
    /// After how many seconds without calls the channel goes idle.
    pub idle_timeout_secs: u64,
}

impl Default for ChannelOptions {
    /// The options of a channel about which nothing was said.
    fn default() -> (options: ChannelOptions)
        ensures
            options.transport_options.entries@.len() == 0,
            options.override_authority is None,
            options.default_service_config is None,
            !options.disable_proxy,
            !options.disable_service_config_lookup,
            !options.disable_health_checks,
            options.max_retry_memory == 8_388_608,
            options.idle_timeout_secs == 1_800,
    {
        ChannelOptions {
            transport_options: Attributes::new(),
            override_authority: None,
            default_service_config: None,
            disable_proxy: false,
            disable_service_config_lookup: false,
            disable_health_checks: false,
            max_retry_memory: DEFAULT_MAX_RETRY_MEMORY,
            idle_timeout_secs: DEFAULT_IDLE_TIMEOUT_SECS,
        }
    }
}

impl ChannelOptions {
    /// The same options with `transport_options` added to the transport
    /// options that are there.
    pub fn transport_options(self, transport_options: Attributes) -> (options: ChannelOptions)
        ensures
            options.transport_options.entries@ == self.transport_options.entries@
                + transport_options.entries@,
            options.override_authority == self.override_authority,
            options.default_service_config == self.default_service_config,
            options.disable_proxy == self.disable_proxy,
            options.disable_service_config_lookup == self.disable_service_config_lookup,
            options.disable_health_checks == self.disable_health_checks,
            options.max_retry_memory == self.max_retry_memory,
            options.idle_timeout_secs == self.idle_timeout_secs,
    {
        let mut options = self;
        let mut added = transport_options.entries;
        options.transport_options.entries.append(&mut added);
        options
    }

    /// The same options with the given authority in place of the derived
    /// one.
    pub fn override_authority(self, authority: String) -> (options: ChannelOptions)
        ensures
            options.override_authority == Some(authority),
            options.transport_options == self.transport_options,
            options.default_service_config == self.default_service_config,
            options.disable_proxy == self.disable_proxy,
            options.disable_service_config_lookup == self.disable_service_config_lookup,
            options.disable_health_checks == self.disable_health_checks,
            options.max_retry_memory == self.max_retry_memory,
            options.idle_timeout_secs == self.idle_timeout_secs,
    {
        let mut options = self;
        options.override_authority = Some(authority);
        options
    }
}

/// Holds the policy of a channel and sees to it that at most one call of
/// `work` is pending at any time.
pub struct GracefulSwitchBalancer<B: LbPolicyBuilder> {
    policy: Option<B::Policy>,
    policy_builder: Option<Arc<B>>,
    work_scheduler: Arc<Box<dyn WorkScheduler>>,
    pending: bool,
}

impl<B: LbPolicyBuilder> GracefulSwitchBalancer<B> {
    /// The policy, once one has been built.
    pub closed spec fn policy(&self) -> Option<B::Policy> {
        self.policy
    }

    /// The builder that built the policy.
    pub closed spec fn policy_builder(&self) -> Option<Arc<B>> {
        self.policy_builder
    }

    /// Whether a call of `work` has been asked for and not made yet.
    pub closed spec fn pending(&self) -> bool {
        self.pending
    }

    /// A balancer without a policy. The policy that it builds later asks
    /// for work through `work_scheduler`.
    pub fn new(work_scheduler: Box<dyn WorkScheduler>) -> (balancer: GracefulSwitchBalancer<B>)
        ensures
            balancer.policy() is None,
            balancer.policy_builder() is None,
            !balancer.pending(),
    {
        GracefulSwitchBalancer {
            policy: None,
            policy_builder: None,
            work_scheduler: Arc::new(work_scheduler),
            pending: false,
        }
    }

    /// Whether the balancer has built its policy.
    pub fn has_policy(&self) -> (built: bool)
        ensures
            built == self.policy() is Some,
    {
        self.policy.is_some()
    }

    /// Notes a request for a call of `work`. The result says whether a call
    /// has to be queued: only if none is pending already. Requests made
    /// while a call is pending are covered by that call.
    pub fn schedule_work(&mut self) -> (queue: bool)
        ensures
            queue == !old(self).pending(),
            final(self).pending(),
            final(self).policy() == old(self).policy(),
            final(self).policy_builder() == old(self).policy_builder(),
    {
        let queue = !self.pending;
        self.pending = true;
        queue
    }

    /// Takes a resolver update for the policy of the channel.
    ///
    /// The update is rejected, and nothing changes, if it is a resolution
    /// failure (`Unhandled`), if it carries a service config
    /// (`ServiceConfigUnsupported`), or if the balancer has no policy yet
    /// and `registry` holds none under the name `pick_first`
    /// (`UnknownPolicy`). Otherwise the balancer builds its policy if it has
    /// none, hands it the update without a configuration, and returns what
    /// the policy answers.
    pub fn handle_resolver_update<C: ChannelController<Picker = <B::Policy as LbPolicy>::Picker>>(
        &mut self,
        update: ResolverUpdate,
        registry: &LbPolicyRegistry<B>,
        controller: &mut C,
    ) -> (result: Result<(), LbError>)
        ensures
            final(self).pending() == old(self).pending(),
            update is Failure ==> result == Err::<(), LbError>(LbError::Unhandled),
            update matches ResolverUpdate::Data(data) ==> (data.service_config is Some ==> result
                == Err::<(), LbError>(LbError::ServiceConfigUnsupported)),
            update matches ResolverUpdate::Data(data) ==> (data.service_config is None
                && old(self).policy() is None && !registry@.contains_key(POLICY_NAME@)
                ==> (result matches Err(
                LbError::UnknownPolicy(name),
            ) && name@ == POLICY_NAME@)),
            rejects(update, old(self).policy() is Some, registry@.contains_key(POLICY_NAME@)) ==> {
                &&& result is Err
                &&& *final(self) == *old(self)
                &&& *final(controller) == *old(controller)
            },
            !rejects(update, old(self).policy() is Some, registry@.contains_key(POLICY_NAME@)) ==> {
                &&& final(self).policy() is Some
                &&& old(self).policy() is Some ==> final(self).policy_builder()
                    == old(self).policy_builder()
                &&& old(self).policy() is None ==> final(self).policy_builder() == Some(
                    registry@[POLICY_NAME@],
                )
                &&& exists|started: B::Policy|
                    {
                        &&& takes_update(old(self).policy(), registry@[POLICY_NAME@], started)
                        &&& #[trigger] started.on_resolver_update(
                            update,
                            None,
                            recorded(&*old(controller)),
                            &final(self).policy()->0,
                            recorded(&*final(controller)),
                            result,
                        )
                    }
            },
    {
        match &update {
            ResolverUpdate::Data(data) => {
                if data.service_config.is_some() {
                    return Err(LbError::ServiceConfigUnsupported);
                }
            },
            ResolverUpdate::Failure(_) => {
                return Err(LbError::Unhandled);
            },
        }
        if self.policy.is_none() {
            let builder = match registry.get_policy(POLICY_NAME) {
                Some(builder) => builder,
                None => {
                    return Err(LbError::UnknownPolicy(POLICY_NAME.to_owned()));
                },
            };
            let scheduler = SharedWorkScheduler { inner: self.work_scheduler.clone() };
            let policy = builder.build(LbPolicyOptions { work_scheduler: Box::new(scheduler) });
            self.policy_builder = Some(builder);
            self.policy = Some(policy);
        }
        match self.policy.as_mut() {
            Some(policy) => policy.resolver_update(update, None, controller),
            None => Err(LbError::Unhandled),
        }
    }

    /// Hands one event of the channel to the policy: a resolver update as
    /// `handle_resolver_update` does, the new state of a subchannel as
    /// `subchannel_update` does.
    pub fn handle_update<C: ChannelController<Picker = <B::Policy as LbPolicy>::Picker>>(
        &mut self,
        update: ChannelUpdates,
        registry: &LbPolicyRegistry<B>,
        controller: &mut C,
    ) -> (result: Result<(), LbError>)
        ensures
            final(self).pending() == old(self).pending(),
            update is SubchannelUpdate ==> {
                &&& result is Ok
                &&& final(self).policy_builder() == old(self).policy_builder()
                &&& final(self).policy() is Some == old(self).policy() is Some
            },
            update matches ChannelUpdates::NameResolverUpdate(resolved) ==> (rejects(
                resolved,
                old(self).policy() is Some,
                registry@.contains_key(POLICY_NAME@),
            ) ==> {
                &&& result is Err
                &&& *final(self) == *old(self)
                &&& *final(controller) == *old(controller)
            }),
            update matches ChannelUpdates::NameResolverUpdate(resolved) ==> (!rejects(
                resolved,
                old(self).policy() is Some,
                registry@.contains_key(POLICY_NAME@),
            ) ==> final(self).policy() is Some && exists|started: B::Policy|
                {
                    &&& takes_update(old(self).policy(), registry@[POLICY_NAME@], started)
                    &&& #[trigger] started.on_resolver_update(
                        resolved,
                        None,
                        recorded(&*old(controller)),
                        &final(self).policy()->0,
                        recorded(&*final(controller)),
                        result,
                    )
                }),
            update matches ChannelUpdates::SubchannelUpdate(subchannel, state) ==> (match old(self)
                .policy() {
                Some(policy) => policy.on_subchannel_update(
                    &subchannel,
                    &state,
                    recorded(&*old(controller)),
                    &final(self).policy()->0,
                    recorded(&*final(controller)),
                ),
                None => *final(self) == *old(self) && *final(controller) == *old(controller),
            }),
    {
        match update {
            ChannelUpdates::NameResolverUpdate(resolved) => self.handle_resolver_update(
                resolved,
                registry,
                controller,
            ),
            ChannelUpdates::SubchannelUpdate(subchannel, state) => {
                self.subchannel_update(&subchannel, &state, controller);
                Ok(())
            },
        }
    }

    /// Passes the new state of a subchannel on to the policy: the policy is
    /// handed the subchannel, the state and the controller, and reacts as it
    /// says it does. Without a policy nothing happens.
    pub fn subchannel_update<C: ChannelController<Picker = <B::Policy as LbPolicy>::Picker>>(
        &mut self,
        subchannel: &Subchannel,
        state: &SubchannelState,
        channel_controller: &mut C,
    )
        ensures
            final(self).pending() == old(self).pending(),
            final(self).policy_builder() == old(self).policy_builder(),
            match old(self).policy() {
                Some(policy) => final(self).policy() matches Some(after)
                    && policy.on_subchannel_update(
                    subchannel,
                    state,
                    recorded(&*old(channel_controller)),
                    &after,
                    recorded(&*final(channel_controller)),
                ),
                None => *final(self) == *old(self) && *final(channel_controller)
                    == *old(channel_controller),
            },
    {
        match self.policy.as_mut() {
            Some(policy) => {
                policy.subchannel_update(subchannel, state, channel_controller);
            },
            None => {},
        }
    }

    /// Makes the call of `work` that was asked for: from now on a new
    /// request queues a new call. The policy is handed the controller and
    /// does its work as it says it does. Without a policy nothing else
    /// happens.
    pub fn work<C: ChannelController<Picker = <B::Policy as LbPolicy>::Picker>>(
        &mut self,
        channel_controller: &mut C,
    )
        ensures
            !final(self).pending(),
            final(self).policy_builder() == old(self).policy_builder(),
            match old(self).policy() {
                Some(policy) => final(self).policy() matches Some(after) && policy.on_work(
                    recorded(&*old(channel_controller)),
                    &after,
                    recorded(&*final(channel_controller)),
                ),
                None => final(self).policy() is None && *final(channel_controller)
                    == *old(channel_controller),
            },
    {
        self.pending = false;
        match self.policy.as_mut() {
            Some(policy) => {
                policy.work(channel_controller);
            },
            None => {},
        }
    }
}

/// Whether `started` is the policy that hears of a resolver update when the
/// balancer holds `held`: the policy held, or with none held, one that
/// `builder` has built.
pub open spec fn takes_update<B: LbPolicyBuilder>(
    held: Option<B::Policy>,
    builder: Arc<B>,
    started: B::Policy,
) -> bool {
    match held {
        Some(policy) => started == policy,
        None => builder.builds(&started),
    }
}

/// Whether the balancer rejects `update` before its policy hears of it.
pub open spec fn rejects(update: ResolverUpdate, has_policy: bool, registered: bool) -> bool {
    match update {
        ResolverUpdate::Failure(_) => true,
        ResolverUpdate::Data(data) => data.service_config is Some || (!has_policy && !registered),
    }
}

/// What the program around the library has to do after an event.
pub enum ChannelAction {
    /// A subchannel for the address has joined the pool: wait on its connect
    /// trigger and report a request to connect as an event of the
    /// subchannel.
    Watch(Subchannel, Address),
    /// Do as the action says for the subchannel with the given id.
    Connection(u32, SubchannelAction),
    /// The subchannel with the given id has left the pool: stop waiting on
    /// its connect trigger, abort its attempt or its backoff timer, and let
    /// go of its connection.
    Forget(u32),
    /// Wake the name resolver.
    ResolveNow,
}

/// What carrying out `operations` leaves to do for the subchannels when
/// the pool holds those with the ids in `held`: one `Watch` for each
/// subchannel that joins the pool and one `Forget` for each that leaves it,
/// in the order of the operations.
pub open spec fn pool_actions<P>(operations: Seq<ChannelOperations<P>>, held: Set<u32>) -> Seq<
    ChannelAction,
>
    decreases operations.len(),
{
    if operations.len() == 0 {
        Seq::empty()
    } else {
        let earlier = pool_actions(operations.drop_last(), held);
        let holds = held_after(operations.drop_last(), held);
        match operations.last() {
            ChannelOperations::CreateSubchannel(address, subchannel) => if holds.contains(
                subchannel.id(),
            ) {
                earlier
            } else {
                earlier.push(ChannelAction::Watch(subchannel, address))
            },
            ChannelOperations::RemoveSubchannel(subchannel) => if holds.contains(subchannel.id()) {
                earlier.push(ChannelAction::Forget(subchannel.id()))
            } else {
                earlier
            },
            _ => earlier,
        }
    }
}

/// Whether one of `operations` asks for resolution.
pub open spec fn asks_for_resolution<P>(operations: Seq<ChannelOperations<P>>) -> bool {
    exists|k: int| 0 <= k < operations.len() && #[trigger] operations[k] is RequestResolution
}

/// The actions that carrying out `operations` leaves to do: what there is
/// to do for the subchannels, and after that one `ResolveNow` if resolution
/// was asked for, however often.
pub open spec fn planned<P>(operations: Seq<ChannelOperations<P>>, held: Set<u32>) -> Seq<
    ChannelAction,
> {
    if asks_for_resolution(operations) {
        pool_actions(operations, held).push(ChannelAction::ResolveNow)
    } else {
        pool_actions(operations, held)
    }
}

/// The ids of the subchannels that the pool holds after `operations` have
/// been carried out, when it held those in `held` before.
pub open spec fn held_after<P>(operations: Seq<ChannelOperations<P>>, held: Set<u32>) -> Set<u32>
    decreases operations.len(),
{
    if operations.len() == 0 {
        held
    } else {
        let earlier = held_after(operations.drop_last(), held);
        match operations.last() {
            ChannelOperations::CreateSubchannel(_, subchannel) => earlier.insert(subchannel.id()),
            ChannelOperations::RemoveSubchannel(subchannel) => earlier.remove(subchannel.id()),
            _ => earlier,
        }
    }
}

/// How many of `operations` publish a picker.
pub open spec fn publications<P>(operations: Seq<ChannelOperations<P>>) -> nat
    decreases operations.len(),
{
    if operations.len() == 0 {
        0
    } else {
        let earlier = publications(operations.drop_last());
        match operations.last() {
            ChannelOperations::UpdatePicker(_) => earlier + 1,
            _ => earlier,
        }
    }
}

/// Whether every subchannel in the pool `after` is as it was in the pool
/// `before`, or has joined the pool since and is idle. Subchannels may have
/// left the pool.
pub open spec fn kept_or_idle(
    before: Map<u32, InternalSubchannel>,
    after: Map<u32, InternalSubchannel>,
) -> bool {
    forall|id: u32| #[trigger]
        after.contains_key(id) ==> (before.contains_key(id) && after[id] == before[id])
            || after[id].state() is Idle
}

/// Whether `after` is the pool `pool` once the subchannel with the given
/// id has taken `event`: that subchannel has moved as `step` says, and the
/// others are as they were.
pub open spec fn is_stepped(
    pool: Map<u32, InternalSubchannel>,
    id: u32,
    event: SubchannelEvent,
    after: Map<u32, InternalSubchannel>,
) -> bool {
    let moved = step(pool[id].state(), pool[id].backoff(), event);
    &&& after.dom() == pool.dom()
    &&& forall|other: u32|
        other != id && pool.contains_key(other) ==> #[trigger] after[other] == pool[other]
    &&& after[id].address() == pool[id].address()
    &&& after[id].subchannel() == pool[id].subchannel()
    &&& after[id].state() == moved.state
    &&& after[id].backoff() == moved.backoff
}

/// What a subchannel asks for after an event, as the first thing left to
/// do: nothing, or the action for the subchannel with the given id.
pub open spec fn own_action(id: u32, action: SubchannelAction) -> Seq<ChannelAction> {
    if action is Nothing {
        Seq::empty()
    } else {
        seq![ChannelAction::Connection(id, action)]
    }
}

/// Whether a channel has carried out `requests`, the requests that its
/// controller had on record, when it held the subchannels `pool` and had
/// published `published` before: `actions` are what is left to do, every
/// new subchannel has joined the pool in idle state, every subchannel let
/// go of has left it, and the last state and picker published replace the
/// ones before. What is carried out is a copy of the requests, up to the
/// attributes of the addresses.
pub open spec fn is_carried_out<P>(
    requests: Seq<ChannelOperations<P>>,
    pool: Map<u32, InternalSubchannel>,
    published: Watcher<LbState<P>>,
    actions: Seq<ChannelAction>,
    pool_after: Map<u32, InternalSubchannel>,
    published_after: Watcher<LbState<P>>,
) -> bool {
    &&& exists|taken: Seq<ChannelOperations<P>>| #[trigger]
        is_copy_of(taken, requests) && actions == planned(taken, pool.dom())
    &&& pool_after.dom() == held_after(requests, pool.dom())
    &&& kept_or_idle(pool, pool_after)
    &&& published_after.version() == nth_version(published.version(), publications(requests))
    &&& match crate::client::load_balancing::published(requests) {
        Some(state) => published_after.latest() matches Some(latest) && *latest == state,
        None => published_after.latest() == published.latest(),
    }
}

/// Requests and their copies have the same effect on the pool and publish
/// the same.
pub proof fn lemma_copy_same_effect<P>(
    taken: Seq<ChannelOperations<P>>,
    made: Seq<ChannelOperations<P>>,
    held: Set<u32>,
)
    requires
        is_copy_of(taken, made),
    ensures
        held_after(taken, held) == held_after(made, held),
        publications(taken) == publications(made),
        crate::client::load_balancing::published(taken) == crate::client::load_balancing::published(
            made,
        ),
    decreases taken.len(),
{
    if taken.len() > 0 {
        assert(crate::client::load_balancing::recorder::records(taken.last(), made.last()));
        assert forall|i: int| 0 <= i < taken.drop_last().len() implies
            crate::client::load_balancing::recorder::records(
            #[trigger] taken.drop_last()[i],
            made.drop_last()[i],
        ) by {
            assert(crate::client::load_balancing::recorder::records(taken[i], made[i]));
        }
        lemma_copy_same_effect(taken.drop_last(), made.drop_last(), held);
    }
}

/// What a channel that is not idle keeps: the balancer with the policy, the
/// controller that the policy talks to, the pool of subchannels, and the
/// state and picker that were published last.
pub struct ActiveChannel<B: LbPolicyBuilder> {
    lb: GracefulSwitchBalancer<B>,
    controller: RecordingController<<B::Policy as LbPolicy>::Picker>,
    pool: InternalSubchannelPool,
    published: Watcher<LbState<<B::Policy as LbPolicy>::Picker>>,
}

impl<B: LbPolicyBuilder> ActiveChannel<B> {
    /// The balancer of the channel.
    pub closed spec fn lb(&self) -> GracefulSwitchBalancer<B> {
        self.lb
    }

    /// The controller that the policy talks to.
    pub closed spec fn controller(&self) -> RecordingController<<B::Policy as LbPolicy>::Picker> {
        self.controller
    }

    /// The pool of subchannels.
    pub closed spec fn pool(&self) -> InternalSubchannelPool {
        self.pool
    }

    /// The state and picker that were published last.
    pub closed spec fn published(&self) -> Watcher<LbState<<B::Policy as LbPolicy>::Picker>> {
        self.published
    }

    /// The connectivity state of the channel: the one published last, and
    /// `Idle` while nothing has been published.
    pub open spec fn connectivity(&self) -> ConnectivityState {
        match self.published().latest() {
            Some(state) => state.connectivity_state,
            None => ConnectivityState::Idle,
        }
    }

    /// An active channel without a policy, without subchannels, and with
    /// nothing published.
    pub fn new(work_scheduler: Box<dyn WorkScheduler>) -> (channel: ActiveChannel<B>)
        ensures
            channel.lb().policy() is None,
            !channel.lb().pending(),
            channel.controller().pending().len() == 0,
            channel.pool()@ == Map::<u32, InternalSubchannel>::empty(),
            channel.published().latest() is None,
            channel.published().version() == 0,
    {
        ActiveChannel {
            lb: GracefulSwitchBalancer::new(work_scheduler),
            controller: RecordingController::new(),
            pool: InternalSubchannelPool::new(),
            published: Watcher::new(),
        }
    }

    /// The connectivity state of the channel.
    pub fn state(&self) -> (state: ConnectivityState)
        ensures
            state == self.connectivity(),
    {
        match self.published.cur() {
            Some(published) => published.connectivity_state,
            None => ConnectivityState::Idle,
        }
    }

    /// A consumer of the published picker that has seen nothing yet.
    pub fn watch(&self) -> (consumer: WatcherIter)
        ensures
            consumer.seen() is None,
    {
        self.published.iter()
    }

    /// Carries out what a policy asked of the controller: every new
    /// subchannel joins the pool in idle state, every subchannel let go of
    /// leaves it, and the last state and picker published replace the ones
    /// before. The subchannels that stay in the pool keep their state. What
    /// is left to do is returned.
    pub fn apply(
        &mut self,
        operations: Vec<ChannelOperations<<B::Policy as LbPolicy>::Picker>>,
    ) -> (actions: Vec<ChannelAction>)
        ensures
            final(self).lb() == old(self).lb(),
            final(self).controller() == old(self).controller(),
            actions@ == planned(operations@, old(self).pool()@.dom()),
            final(self).pool()@.dom() == held_after(operations@, old(self).pool()@.dom()),
            kept_or_idle(old(self).pool()@, final(self).pool()@),
            final(self).published().version() == nth_version(
                old(self).published().version(),
                publications(operations@),
            ),
            match crate::client::load_balancing::published(operations@) {
                Some(state) => final(self).published().latest() matches Some(latest) && *latest
                    == state,
                None => final(self).published().latest() == old(self).published().latest(),
            },
    {
        let mut actions: Vec<ChannelAction> = Vec::new();
        let mut resolve = false;
        let ghost held = old(self).pool()@.dom();
        let ghost all = operations@;
        let n: usize = operations.len();
        let mut pending = reversed(operations);
        let mut i: usize = 0;
        proof {
            crate::client::subchannel::watcher::lemma_nth_version_zero(
                old(self).published().version(),
            );
        }
        while i < n
            invariant
                i <= n,
                n == all.len(),
                pending@.len() == n - i,
                forall|k: int| 0 <= k < pending@.len() ==> pending@[k] == all[n - 1 - k],
                self.lb == old(self).lb,
                self.controller == old(self).controller,
                held == old(self).pool()@.dom(),
                actions@ == pool_actions(all.take(i as int), held),
                resolve == asks_for_resolution(all.take(i as int)),
                self.pool@.dom() == held_after(all.take(i as int), held),
                forall|id: u32| #[trigger]
                    self.pool@.contains_key(id) ==> (held.contains(id) && self.pool@[id]
                        == old(self).pool()@[id]) || self.pool@[id].state() is Idle,
                self.published.version() == nth_version(
                    old(self).published().version(),
                    publications(all.take(i as int)),
                ),
                match crate::client::load_balancing::published(all.take(i as int)) {
                    Some(state) => self.published.latest() matches Some(latest) && *latest == state,
                    None => self.published.latest() == old(self).published().latest(),
                },
            decreases n - i,
        {
            let operation = match pending.pop() {
                Some(operation) => operation,
                None => vstd::pervasive::unreached(),
            };
            proof {
                assert(operation == all[i as int]);
                assert(all.take(i + 1).drop_last() == all.take(i as int));
                assert(all.take(i + 1).last() == all[i as int]);
                crate::client::subchannel::watcher::lemma_nth_version_step(
                    old(self).published().version(),
                    publications(all.take(i as int)),
                );
            }
            let ghost pool_before = self.pool@;
            match operation {
                ChannelOperations::CreateSubchannel(address, subchannel) => {
                    let added = self.pool.new_subchannel(&subchannel, address.address.clone());
                    if added {
                        actions.push(ChannelAction::Watch(subchannel, address));
                    }
                    proof {
                        assert forall|id: u32| #[trigger] self.pool@.contains_key(id) implies (
                        held.contains(id) && self.pool@[id] == old(self).pool()@[id])
                            || self.pool@[id].state() is Idle by {
                            if id != subchannel.id() {
                                assert(self.pool@.dom().contains(id));
                                assert(pool_before.contains_key(id));
                                assert(self.pool@[id] == pool_before[id]);
                            }
                        }
                    }
                },
                ChannelOperations::RemoveSubchannel(subchannel) => {
                    let id = subchannel.id();
                    match self.pool.remove(id) {
                        Some(_) => {
                            actions.push(ChannelAction::Forget(id));
                        },
                        None => {},
                    }
                    proof {
                        assert(self.pool@.dom() =~= pool_before.dom().remove(id));
                    }
                },
                ChannelOperations::UpdatePicker(state) => {
                    self.published.update(state);
                },
                ChannelOperations::RequestResolution => {
                    resolve = true;
                },
            }
            proof {
                let before = all.take(i as int);
                let after = all.take(i + 1);
                if asks_for_resolution(before) {
                    let k = choose|k: int| 0 <= k < before.len() && #[trigger] before[k]
                        is RequestResolution;
                    assert(after[k] is RequestResolution);
                }
                if all[i as int] is RequestResolution {
                    assert(after[i as int] is RequestResolution);
                }
                if asks_for_resolution(after) {
                    let k = choose|k: int| 0 <= k < after.len() && #[trigger] after[k]
                        is RequestResolution;
                    if k < i {
                        assert(before[k] is RequestResolution);
                    }
                }
            }
            i += 1;
        }
        proof {
            assert(all.take(n as int) == all);
        }
        if resolve {
            actions.push(ChannelAction::ResolveNow);
        }
        actions
    }

    /// Carries out what the policy has asked of the controller since this
    /// was last done.
    fn carry_out(&mut self) -> (actions: Vec<ChannelAction>)
        ensures
            final(self).lb() == old(self).lb(),
            actions@ == planned(old(self).controller().pending(), old(self).pool()@.dom()),
            final(self).pool()@.dom() == held_after(
                old(self).controller().pending(),
                old(self).pool()@.dom(),
            ),
            final(self).controller().pending().len() == 0,
            kept_or_idle(old(self).pool()@, final(self).pool()@),
            final(self).published().version() == nth_version(
                old(self).published().version(),
                publications(old(self).controller().pending()),
            ),
            match crate::client::load_balancing::published(old(self).controller().pending()) {
                Some(state) => final(self).published().latest() matches Some(latest) && *latest
                    == state,
                None => final(self).published().latest() == old(self).published().latest(),
            },
            final(self).controller().log().len() == 0,
            is_carried_out(
                old(self).controller().log(),
                old(self).pool()@,
                old(self).published(),
                actions@,
                final(self).pool()@,
                final(self).published(),
            ),
    {
        proof {
            self.controller.lemma_pending_is_copy();
            lemma_copy_same_effect(
                self.controller.pending(),
                self.controller.log(),
                self.pool()@.dom(),
            );
        }
        let operations = self.controller.take_operations();
        let ghost taken = operations@;
        let actions = self.apply(operations);
        proof {
            assert(is_copy_of(taken, old(self).controller().log()));
        }
        actions
    }

    /// Takes a resolver update: hands it to the balancer and carries out
    /// what the policy asks for. When the balancer rejects the update
    /// before the policy hears of it, nothing changes and nothing is left to
    /// do. In any case a subchannel that stays in the pool keeps its state:
    /// only its own events change that.
    pub fn resolver_update(
        &mut self,
        update: ResolverUpdate,
        registry: &LbPolicyRegistry<B>,
    ) -> (outcome: (Result<(), LbError>, Vec<ChannelAction>))
        ensures
            update is Failure ==> outcome.0 == Err::<(), LbError>(LbError::Unhandled),
            update matches ResolverUpdate::Data(data) ==> (data.service_config is Some ==> outcome.0
                == Err::<(), LbError>(LbError::ServiceConfigUnsupported)),
            rejects(
                update,
                old(self).lb().policy() is Some,
                registry@.contains_key(POLICY_NAME@),
            ) && old(self).controller().pending().len() == 0 ==> {
                &&& outcome.0 is Err
                &&& outcome.1@.len() == 0
                &&& final(self).pool()@.dom() == old(self).pool()@.dom()
                &&& final(self).published().version() == old(self).published().version()
                &&& final(self).published().latest() == old(self).published().latest()
            },
            !rejects(update, old(self).lb().policy() is Some, registry@.contains_key(POLICY_NAME@))
                ==> final(self).lb().policy() is Some && exists|
                started: B::Policy,
                requests: Seq<ChannelOperations<<B::Policy as LbPolicy>::Picker>>,
            |
                {
                    &&& takes_update(old(self).lb().policy(), registry@[POLICY_NAME@], started)
                    &&& #[trigger] started.on_resolver_update(
                        update,
                        None,
                        Some(old(self).controller().log()),
                        &final(self).lb().policy()->0,
                        Some(requests),
                        outcome.0,
                    )
                    &&& is_carried_out(
                        requests,
                        old(self).pool()@,
                        old(self).published(),
                        outcome.1@,
                        final(self).pool()@,
                        final(self).published(),
                    )
                },
            final(self).controller().pending().len() == 0,
            final(self).controller().log().len() == 0,
            kept_or_idle(old(self).pool()@, final(self).pool()@),
    {
        let result = self.lb.handle_resolver_update(update, registry, &mut self.controller);
        proof {
            crate::client::subchannel::watcher::lemma_nth_version_zero(
                old(self).published().version(),
            );
            if rejects(
                update,
                old(self).lb().policy() is Some,
                registry@.contains_key(POLICY_NAME@),
            ) && old(self).controller().pending().len() == 0 {
                assert(self.controller().pending() == Seq::<
                    ChannelOperations<<B::Policy as LbPolicy>::Picker>,
                >::empty());
            }
        }
        let ghost before = self.pool()@;
        let ghost asked = self.controller();
        let ghost requests = asked.log();
        let ghost reacted = self.lb().policy();
        let actions = self.carry_out();
        proof {
            assert(before == old(self).pool()@);
            if !rejects(
                update,
                old(self).lb().policy() is Some,
                registry@.contains_key(POLICY_NAME@),
            ) {
                let started = choose|started: B::Policy|
                    {
                        &&& takes_update(old(self).lb().policy(), registry@[POLICY_NAME@], started)
                        &&& #[trigger] started.on_resolver_update(
                            update,
                            None,
                            recorded(&old(self).controller()),
                            &reacted->0,
                            recorded(&asked),
                            result,
                        )
                    };
                assert(started.on_resolver_update(
                    update,
                    None,
                    Some(old(self).controller().log()),
                    &self.lb().policy()->0,
                    Some(requests),
                    result,
                ));
            }
        }
        (result, actions)
    }

    /// Takes an event of the subchannel with the given id: hands it to the
    /// state machine of the subchannel, reports a change of state to the
    /// policy, and carries out what the policy asks for. An event for a
    /// subchannel that the pool does not hold is dropped.
    ///
    /// The subchannel moves as `step` says, and what it asks for is the
    /// first thing left to do. The other subchannels are not touched, except
    /// that the policy may let go of any of them in its reaction, or of
    /// this one.
    pub fn subchannel_event(&mut self, id: u32, event: SubchannelEvent) -> (actions: Vec<
        ChannelAction,
    >)
        ensures
            !old(self).pool()@.contains_key(id) && old(self).controller().pending().len() == 0 ==> {
                &&& actions@.len() == 0
                &&& final(self).pool()@ == old(self).pool()@
                &&& final(self).lb() == old(self).lb()
                &&& final(self).published() == old(self).published()
            },
            final(self).controller().pending().len() == 0,
            kept_or_idle(old(self).pool()@.remove(id), final(self).pool()@.remove(id)),
            old(self).pool()@.contains_key(id) ==> ({
                let before = old(self).pool()@[id];
                let after = final(self).pool()@[id];
                let stepped = step(before.state(), before.backoff(), event);
                &&& final(self).pool()@.contains_key(id) ==> after.state() is Idle || {
                    &&& after.state() == stepped.state
                    &&& after.backoff() == stepped.backoff
                    &&& after.subchannel() == before.subchannel()
                }
                &&& !(stepped.action is Nothing) ==> actions@.len() > 0 && actions@[0]
                    == ChannelAction::Connection(id, stepped.action)
            }),
            old(self).pool()@.contains_key(id) ==> exists|
                requests: Seq<ChannelOperations<<B::Policy as LbPolicy>::Picker>>,
                stepped: Map<u32, InternalSubchannel>,
                rest: Seq<ChannelAction>,
            |
                {
                    let before = old(self).pool()@[id];
                    let moved = step(before.state(), before.backoff(), event);
                    &&& is_stepped(old(self).pool()@, id, event, stepped)
                    &&& actions@ == own_action(id, moved.action) + rest
                    &&& match (reported(before.state(), moved.state), old(self).lb().policy()) {
                        (Some(report), Some(policy)) => final(self).lb().policy() matches Some(
                            after,
                        ) && policy.on_subchannel_update(
                            &before.subchannel(),
                            &report,
                            Some(old(self).controller().log()),
                            &after,
                            Some(requests),
                        ),
                        _ => final(self).lb() == old(self).lb() && requests
                            == old(self).controller().log(),
                    }
                    &&& #[trigger] is_carried_out(
                        requests,
                        stepped,
                        old(self).published(),
                        rest,
                        final(self).pool()@,
                        final(self).published(),
                    )
                },
    {
        let transition = match self.pool.handle(id, event) {
            Some(transition) => transition,
            None => {
                if self.controller_is_drained() {
                    return Vec::new();
                }
                let ghost before = self.pool()@;
                let actions = self.carry_out();
                proof {
                    assert(before == old(self).pool()@);
                }
                return actions;
            },
        };
        let ghost handled = self.pool()@;
        proof {
            assert(handled.dom() == old(self).pool()@.dom());
            assert(handled.contains_key(id));
        }
        let mut actions: Vec<ChannelAction> = Vec::new();
        match transition.action {
            SubchannelAction::Nothing => {},
            action => {
                actions.push(ChannelAction::Connection(id, action));
            },
        }
        match transition.notify {
            Some(state) => {
                match self.pool.subchannel(id) {
                    Some(subchannel) => {
                        self.lb.subchannel_update(&subchannel, &state, &mut self.controller);
                    },
                    None => {},
                }
            },
            None => {},
        }
        let ghost before = self.pool()@;
        let ghost first = actions@;
        let ghost requests = self.controller().log();
        let mut more = self.carry_out();
        let ghost rest = more@;
        actions.append(&mut more);
        proof {
            assert(before == handled);
            assert(is_stepped(old(self).pool()@, id, event, handled));
            assert(first =~= own_action(id, transition.action));
            assert(is_carried_out(
                requests,
                handled,
                old(self).published(),
                rest,
                self.pool()@,
                self.published(),
            ));
            let was = old(self).pool()@.remove(id);
            let now = self.pool()@.remove(id);
            assert forall|other: u32| #[trigger] now.contains_key(other) implies (
            was.contains_key(other) && now[other] == was[other]) || now[other].state() is Idle by {
                assert(self.pool()@.contains_key(other));
                if handled.contains_key(other) {
                    assert(old(self).pool()@.dom().contains(other));
                }
            }
            if first.len() > 0 {
                assert(actions@[0] == first[0]);
            }
        }
        actions
    }

    /// Makes the call of `work` that the policy asked for and carries out
    /// what the policy asks for during it. A subchannel that stays in the
    /// pool keeps its state.
    pub fn work(&mut self) -> (actions: Vec<ChannelAction>)
        ensures
            !final(self).lb().pending(),
            final(self).controller().pending().len() == 0,
            final(self).controller().log().len() == 0,
            kept_or_idle(old(self).pool()@, final(self).pool()@),
            exists|requests: Seq<ChannelOperations<<B::Policy as LbPolicy>::Picker>>|
                {
                    &&& match old(self).lb().policy() {
                        Some(policy) => final(self).lb().policy() matches Some(after)
                            && policy.on_work(
                            Some(old(self).controller().log()),
                            &after,
                            Some(requests),
                        ),
                        None => final(self).lb().policy() is None && requests
                            == old(self).controller().log(),
                    }
                    &&& #[trigger] is_carried_out(
                        requests,
                        old(self).pool()@,
                        old(self).published(),
                        actions@,
                        final(self).pool()@,
                        final(self).published(),
                    )
                },
    {
        self.lb.work(&mut self.controller);
        let ghost before = self.pool()@;
        let ghost requests = self.controller().log();
        let actions = self.carry_out();
        proof {
            assert(before == old(self).pool()@);
            assert(is_carried_out(
                requests,
                old(self).pool()@,
                old(self).published(),
                actions@,
                self.pool()@,
                self.published(),
            ));
        }
        actions
    }

    /// Notes a request of the policy for a call of `work`. The result says
    /// whether a call has to be queued.
    pub fn schedule_work(&mut self) -> (queue: bool)
        ensures
            queue == !old(self).lb().pending(),
            final(self).lb().pending(),
            final(self).pool() == old(self).pool(),
            final(self).published() == old(self).published(),
            final(self).controller() == old(self).controller(),
    {
        self.lb.schedule_work()
    }

    /// Takes the subchannel with the given id out of the pool. If the pool
    /// held it, the one thing left to do is to forget it.
    pub fn remove_subchannel(&mut self, id: u32) -> (actions: Vec<ChannelAction>)
        ensures
            final(self).pool()@ == old(self).pool()@.remove(id),
            final(self).lb() == old(self).lb(),
            final(self).published() == old(self).published(),
            final(self).controller() == old(self).controller(),
            actions@ == (if old(self).pool()@.contains_key(id) {
                seq![ChannelAction::Forget(id)]
            } else {
                Seq::<ChannelAction>::empty()
            }),
    {
        let mut actions: Vec<ChannelAction> = Vec::new();
        match self.pool.remove(id) {
            Some(_) => {
                actions.push(ChannelAction::Forget(id));
            },
            None => {},
        }
        actions
    }

    /// Picks a route for `request` with the picker published last, if the
    /// consumer has not tried that picker yet. `None` means that there is
    /// no picker that the consumer has not tried: the call has to wait for
    /// the next one, as it has after `Route::Wait`.
    pub fn pick(&self, request: &Request, consumer: &mut WatcherIter) -> (route: Option<Route>)
        ensures
            old(consumer).has_news(&self.published()) ==> {
                &&& final(consumer).seen() == Some(self.published().version())
                &&& self.published().latest() matches Some(latest) && exists|result: PickResult|
                    {
                        &&& #[trigger] latest.picker.picks(request, &result)
                        &&& route == Some(route_of(self.pool()@, result))
                    }
            },
            !old(consumer).has_news(&self.published()) ==> {
                &&& route is None
                &&& final(consumer).seen() == old(consumer).seen()
            },
    {
        match consumer.next(&self.published) {
            Some(state) => {
                let result = state.picker.pick(request);
                Some(self.pool.route(result))
            },
            None => None,
        }
    }

    fn controller_is_drained(&self) -> (drained: bool)
        ensures
            drained == (self.controller().pending().len() == 0),
    {
        self.controller.pending_count() == 0
    }
}

/// A channel to one target. It starts idle and becomes active on first
/// use.
pub struct Channel<B: LbPolicyBuilder> {
    target: Target,
    options: ChannelOptions,
    active_channel: Option<ActiveChannel<B>>,
}

impl<B: LbPolicyBuilder> Channel<B> {
    /// The destination of the channel.
    pub closed spec fn target(&self) -> Target {
        self.target
    }

    /// The settings of the channel.
    pub closed spec fn settings(&self) -> ChannelOptions {
        self.options
    }

    /// What the channel keeps while it is active.
    pub closed spec fn active_channel(&self) -> Option<ActiveChannel<B>> {
        self.active_channel
    }

    /// An idle channel to `target`. A target that is not an absolute URL is
    /// rejected as `InvalidTarget`.
    pub fn new(target: &str, options: ChannelOptions) -> (channel: Result<Channel<B>, LbError>)
        ensures
            match channel {
                Ok(made) => crate::client::name_resolution::url_parts(target@) == Some(
                    (made.target().scheme@, made.target().path@),
                ) && made.active_channel() is None && made.settings() == options,
                Err(error) => crate::client::name_resolution::url_parts(target@) is None
                    && error is InvalidTarget,
            },
    {
        match Target::parse(target) {
            Ok(target) => Ok(Channel { target, options, active_channel: None }),
            Err(error) => Err(error),
        }
    }

    /// The destination of the channel.
    pub fn destination(&self) -> (target: &Target)
        ensures
            *target == self.target(),
    {
        &self.target
    }

    /// The settings of the channel.
    pub fn options(&self) -> (options: &ChannelOptions)
        ensures
            *options == self.settings(),
    {
        &self.options
    }

    /// Whether the channel is active.
    pub fn is_active(&self) -> (active: bool)
        ensures
            active == self.active_channel() is Some,
    {
        self.active_channel.is_some()
    }

    /// Makes the channel active if it is not. The result says whether it
    /// was idle: the caller then has to start a name resolver for the
    /// target. The policy of the channel asks for work through
    /// `work_scheduler`, which is dropped if the channel is active already.
    pub fn get_active_channel(
        &mut self,
        work_scheduler: Box<dyn WorkScheduler>,
    ) -> (activated: bool)
        ensures
            activated == old(self).active_channel() is None,
            final(self).active_channel() is Some,
            final(self).target() == old(self).target(),
            final(self).settings() == old(self).settings(),
            !activated ==> final(self).active_channel() == old(self).active_channel(),
            activated ==> final(self).active_channel()->0.connectivity() == ConnectivityState::Idle,
    {
        if self.active_channel.is_some() {
            return false;
        }
        self.active_channel = Some(ActiveChannel::new(work_scheduler));
        true
    }

    /// What the channel keeps while it is active, for handing events to.
    pub fn active_mut(&mut self) -> (active: Option<&mut ActiveChannel<B>>)
        ensures
            old(self).active_channel() is None ==> active is None,
            old(self).active_channel() is Some ==> active is Some,
    {
        self.active_channel.as_mut()
    }

    /// Returns the current state of the channel. An idle channel is `Idle`;
    /// an active one is in the state that its policy published last, and
    /// `Idle` until the policy has published one. With `connect` set an
    /// idle channel becomes active first; the second part of the result
    /// then says so, and the caller has to start a name resolver for the
    /// target.
    pub fn state(&mut self, connect: bool, work_scheduler: Box<dyn WorkScheduler>) -> (outcome: (
        ConnectivityState,
        bool,
    ))
        ensures
            final(self).target() == old(self).target(),
            final(self).settings() == old(self).settings(),
            outcome.1 == (connect && old(self).active_channel() is None),
            !connect ==> final(self).active_channel() == old(self).active_channel(),
            connect ==> final(self).active_channel() is Some,
            outcome.0 == (match old(self).active_channel() {
                Some(active) => active.connectivity(),
                None => ConnectivityState::Idle,
            }),
    {
        let activated = if connect {
            self.get_active_channel(work_scheduler)
        } else {
            false
        };
        let state = match &self.active_channel {
            Some(active) => active.state(),
            None => ConnectivityState::Idle,
        };
        (state, activated)
    }

    /// Makes the channel idle again. What it kept while it was active is
    /// dropped.
    pub fn enter_idle(&mut self)
        ensures
            final(self).active_channel() is None,
            final(self).target() == old(self).target(),
            final(self).settings() == old(self).settings(),
    {
        self.active_channel = None;
    }
}

} // verus!
