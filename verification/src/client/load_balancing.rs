//! The load-balancing framework: what a policy is, what it may ask of the
//! channel, and what it hands back.
//!
//! A policy is driven by three events, delivered one at a time: a resolver
//! update, a subchannel state change, and a call of `work` that it asked
//! for. Through the [`ChannelController`] it creates subchannels, lets go of
//! them, publishes pickers and asks for re-resolution. A controller can keep
//! a record of what it was asked to do; the contract of a policy then says
//! exactly which requests the policy made.

use crate::attributes::Attributes;
use crate::client::connectivity::ConnectivityState;
use crate::client::name_resolution::{Address, ResolverUpdate};
use crate::error::LbError;
use crate::service::{Request, Response};
use std::collections::HashMap;
use std::sync::Arc;
use tokio::sync::Notify;
use tonic::metadata::MetadataMap;
use vstd::prelude::*;
use vstd::std_specs::cmp::PartialEqSpecImpl;

pub mod child_manager;
pub mod delegating;
pub mod pick_first;
pub mod recorder;
pub mod registry;
pub mod round_robin;

pub use registry::LbPolicyRegistry;

verus! {

/// The wake-up primitive through which a subchannel handle asks for a
/// connection attempt. Nothing inside it is visible to the library.
#[verifier::external_type_specification]
#[verifier::external_body]
pub struct ExNotify(Notify);

/// Metadata to add to an outgoing call. The library carries it from the
/// picker to the call path and never looks inside.
#[verifier::external_type_specification]
#[verifier::external_body]
pub struct ExMetadataMap(MetadataMap);

/// Wakes the task that waits on `notify`: a call of
/// `tokio::sync::Notify::notify_one`, which stores a permit if no task is
/// waiting yet. Nothing is claimed of it.
#[verifier::external_body]
fn notify_one(notify: &Notify) {
    notify.notify_one();
}

/// A handle to the connection lifecycle of one address.
///
/// - A subchannel starts `Idle` and becomes `Connecting` when `connect` is
///   called.
/// - `Connecting` leads to `Ready` on success and to `TransientFailure` on
///   error.
/// - `Ready` falls back to `Idle` when the connection is lost.
/// - `TransientFailure` returns to `Connecting` when the backoff has elapsed.
///
/// The handle refers to connection state that the pool owns. Two handles are
/// equal exactly when their ids are; copies of a handle stay valid for
/// comparison after the pool has let go of the subchannel.
#[derive(Debug)]
pub struct Subchannel {
    id: u32,
    notify: Arc<Notify>,
}

impl Subchannel {
    /// The id that identifies this subchannel.
    pub closed spec fn spec_id(&self) -> u32 {
        self.id
    }

    /// The wake-up primitive that `connect` signals.
    pub closed spec fn trigger(&self) -> Arc<Notify> {
        self.notify
    }

    /// A handle with the given id that forwards `connect` to `notify` and
    /// does nothing else.
    pub fn new(id: u32, notify: Arc<Notify>) -> (subchannel: Subchannel)
        ensures
            subchannel.id() == id,
            subchannel.trigger() == notify,
    {
        Subchannel { id, notify }
    }

    /// The id that identifies this subchannel.
    #[verifier::when_used_as_spec(spec_id)]
    pub fn id(&self) -> (id: u32)
        ensures
            id == self.spec_id(),
    {
        self.id
    }

    /// Asks the owner of the connection to connect.
    pub fn connect(&self) {
        notify_one(&self.notify);
    }

    /// The wake-up primitive that `connect` signals. The owner of the
    /// connection waits on it.
    pub fn connect_trigger(&self) -> (trigger: Arc<Notify>)
        ensures
            trigger == self.trigger(),
    {
        self.notify.clone()
    }
}

impl Clone for Subchannel {
    /// Another handle to the same subchannel.
    fn clone(&self) -> (copy: Subchannel)
        ensures
            copy == *self,
    {
        Subchannel { id: self.id, notify: self.notify.clone() }
    }
}

impl PartialEq for Subchannel {
    /// Two handles are equal exactly when their ids are.
    fn eq(&self, other: &Subchannel) -> (equal: bool) {
        self.id == other.id
    }
}

impl PartialEqSpecImpl for Subchannel {
    open spec fn obeys_eq_spec() -> bool {
        true
    }

    open spec fn eq_spec(&self, other: &Subchannel) -> bool {
        self.id() == other.id()
    }
}

impl Eq for Subchannel {}

/// The ids of the given subchannels, in order.
pub open spec fn subchannel_ids(subchannels: Seq<Subchannel>) -> Seq<u32> {
    Seq::new(subchannels.len(), |i: int| subchannels[i].id())
}

/// Hands out subchannel ids: each id is one more than the one before, and
/// after `u32::MAX` the count starts again at zero.
#[derive(Debug)]
pub struct SubchannelIds {
    next: u32,
}

impl SubchannelIds {
    /// The id that the next call of `allocate` returns.
    pub closed spec fn upcoming(&self) -> u32 {
        self.next
    }

    /// A source whose first id is zero.
    pub fn new() -> (ids: SubchannelIds)
        ensures
            ids.upcoming() == 0,
    {
        SubchannelIds { next: 0 }
    }

    /// Returns the upcoming id and moves on to the one after it.
    pub fn allocate(&mut self) -> (id: u32)
        ensures
            id == old(self).upcoming(),
            final(self).upcoming() == nth_id(old(self).upcoming(), 1),
    {
        let id = self.next;
        self.next = if id == u32::MAX {
            0
        } else {
            id + 1
        };
        id
    }
}

/// The id handed out `n` allocations after the one that handed out `first`.
pub open spec fn nth_id(first: u32, n: nat) -> u32 {
    ((first + n) % 0x1_0000_0000) as u32
}

/// Ids do not repeat early: of any run of at most 2^32 consecutive
/// allocations, no two return the same id.
pub proof fn lemma_ids_distinct(first: u32, i: nat, j: nat)
    requires
        i < j,
        j - i < 0x1_0000_0000,
    ensures
        nth_id(first, i) != nth_id(first, j),
{
    let m = 0x1_0000_0000int;
    let a = first + i;
    let b = first + j;
    if a % m == b % m {
        vstd::arithmetic::div_mod::lemma_fundamental_div_mod(a, m);
        vstd::arithmetic::div_mod::lemma_fundamental_div_mod(b, m);
        let qa = a / m;
        let qb = b / m;
        assert(b - a == m * (qb - qa)) by (nonlinear_arith)
            requires
                a == m * qa + a % m,
                b == m * qb + b % m,
                a % m == b % m,
        ;
        assert(false) by (nonlinear_arith)
            requires
                0 < b - a < m,
                b - a == m * (qb - qa),
        ;
    }
}

/// The connectivity of a subchannel as reported to a policy.
#[derive(Debug)]
pub struct SubchannelState {
    /// The connectivity state of the subchannel.
    pub connectivity_state: ConnectivityState,
    /// Describes the failure when the state is `TransientFailure`.
    pub last_connection_error: Option<String>,
}

impl SubchannelState {
    /// A report of `connectivity_state` without an error.
    pub fn new(connectivity_state: ConnectivityState) -> (state: SubchannelState)
        ensures
            state.connectivity_state == connectivity_state,
            state.last_connection_error is None,
    {
        SubchannelState { connectivity_state, last_connection_error: None }
    }

    /// A report of a failed connection attempt.
    pub fn failed(error: String) -> (state: SubchannelState)
        ensures
            state.connectivity_state == ConnectivityState::TransientFailure,
            state.last_connection_error == Some(error),
    {
        SubchannelState {
            connectivity_state: ConnectivityState::TransientFailure,
            last_connection_error: Some(error),
        }
    }
}

impl Clone for SubchannelState {
    fn clone(&self) -> (copy: SubchannelState)
        ensures
            copy == *self,
    {
        SubchannelState {
            connectivity_state: self.connectivity_state,
            last_connection_error: match &self.last_connection_error {
                Some(error) => Some(error.clone()),
                None => None,
            },
        }
    }
}

/// The states of several subchannels, reported together and keyed by
/// subchannel id.
pub struct SubchannelUpdate {
    states: HashMap<u32, SubchannelState>,
}

impl View for SubchannelUpdate {
    type V = Map<u32, SubchannelState>;

    closed spec fn view(&self) -> Map<u32, SubchannelState> {
        self.states@
    }
}

impl SubchannelUpdate {
    /// An update that reports nothing.
    pub fn new() -> (update: SubchannelUpdate)
        ensures
            update@ == Map::<u32, SubchannelState>::empty(),
    {
        SubchannelUpdate { states: HashMap::new() }
    }

    /// The state that the update reports for `subchannel`, if any.
    pub fn get(&self, subchannel: &Subchannel) -> (state: Option<&SubchannelState>)
        ensures
            state == (if self@.contains_key(subchannel.id()) {
                Some(&self@[subchannel.id()])
            } else {
                None
            }),
    {
        broadcast use vstd::std_specs::hash::group_hash_axioms;

        let id = subchannel.id();
        self.states.get(&id)
    }

    /// Records `state` for `subchannel`, in place of any earlier report for
    /// it.
    pub fn set(&mut self, subchannel: &Subchannel, state: SubchannelState)
        ensures
            final(self)@ == old(self)@.insert(subchannel.id(), state),
    {
        broadcast use vstd::std_specs::hash::group_hash_axioms;

        self.states.insert(subchannel.id(), state);
    }
}

/// Called when the call that a pick routed has completed.
pub trait CompletionCallback: Send + Sync {
    /// Reports the response of the completed call.
    fn on_complete(&self, response: &Response);
}

/// Where to send a call.
pub struct Pick {
    /// The subchannel chosen for the call.
    pub subchannel: Subchannel,
    /// Called when the call has completed, if the picker wants to know.
    pub on_complete: Option<Box<dyn CompletionCallback>>,
    /// Metadata to add to what the call sends already.
    pub metadata: Option<MetadataMap>,
}

/// What a picker decided for one call.
pub enum PickResult {
    /// Route the call to this subchannel.
    Subchannel(Pick),
    /// Hold the call until a newer picker is published.
    Queue,
    /// Fail the call at once.
    Fail(LbError),
}

impl PickResult {
    /// The pick of a result that routes the call.
    pub fn unwrap_pick(self) -> (pick: Pick)
        requires
            self is Subchannel,
        ensures
            self == PickResult::Subchannel(pick),
    {
        match self {
            PickResult::Subchannel(pick) => pick,
            _ => vstd::pervasive::unreached(),
        }
    }
}

/// The routing function of a channel at one point in time.
///
/// `picks(request, result)` says which results the picker may give for a
/// request. A picker is fixed once built: whatever state it keeps inside
/// (a cursor, say) only selects among the results that `picks` allows.
///
/// A picker that does not say what it picks may pick anything.
pub trait Picker: Send + Sync {
    /// Whether the picker may answer `request` with `result`.
    open spec fn picks(&self, request: &Request, result: &PickResult) -> bool {
        true
    }

    /// Decides where `request` goes.
    fn pick(&self, request: &Request) -> (result: PickResult)
        ensures
            self.picks(request, &result),
    ;
}

/// The picker that holds every call until a newer picker is published. It
/// never routes a call to a subchannel.
#[derive(Debug)]
pub struct QueuingPicker {}

impl Picker for QueuingPicker {
    open spec fn picks(&self, request: &Request, result: &PickResult) -> bool {
        result is Queue
    }

    fn pick(&self, request: &Request) -> (result: PickResult) {
        PickResult::Queue
    }
}

/// Either the queuing picker or a picker of type `P`.
///
/// A policy whose own picker can only route publishes this instead, so that
/// it can also tell the channel to hold calls.
#[derive(Debug)]
pub enum QueuingOr<P> {
    /// Holds every call.
    Queuing,
    /// Decides as the picker inside does.
    Other(P),
}

impl<P: Picker> Picker for QueuingOr<P> {
    open spec fn picks(&self, request: &Request, result: &PickResult) -> bool {
        match self {
            QueuingOr::Queuing => result is Queue,
            QueuingOr::Other(picker) => picker.picks(request, result),
        }
    }

    fn pick(&self, request: &Request) -> (result: PickResult) {
        match self {
            QueuingOr::Queuing => PickResult::Queue,
            QueuingOr::Other(picker) => picker.pick(request),
        }
    }
}

/// What a policy publishes: its connectivity state and the picker to route
/// calls with.
pub struct LbState<P> {
    /// The connectivity state of the policy.
    pub connectivity_state: ConnectivityState,
    /// The picker that goes with that state.
    pub picker: Arc<P>,
}

impl<P> LbState<P> {
    /// A state made of the given parts.
    pub fn new(connectivity_state: ConnectivityState, picker: P) -> (state: LbState<P>)
        ensures
            state.connectivity_state == connectivity_state,
            *state.picker == picker,
    {
        LbState { connectivity_state, picker: Arc::new(picker) }
    }
}

impl LbState<QueuingPicker> {
    /// The state of a policy that has published nothing yet: `Connecting`,
    /// with a picker that queues every call.
    pub fn initial() -> (state: LbState<QueuingPicker>)
        ensures
            state.connectivity_state == ConnectivityState::Connecting,
            *state.picker == (QueuingPicker {  }),
    {
        LbState { connectivity_state: ConnectivityState::Connecting,
            picker: Arc::new(QueuingPicker {  }) }
    }
}

impl<P> Clone for LbState<P> {
    /// The same state, sharing the picker.
    fn clone(&self) -> (copy: LbState<P>)
        ensures
            copy == *self,
    {
        LbState { connectivity_state: self.connectivity_state, picker: self.picker.clone() }
    }
}

/// One request of a policy to its channel controller.
pub enum ChannelOperations<P> {
    /// A subchannel was created for the address; the handle is the one that
    /// the policy got back.
    CreateSubchannel(Address, Subchannel),
    /// The policy published a new state and picker.
    UpdatePicker(LbState<P>),
    /// The policy asked the name resolver to resolve again.
    RequestResolution,
    /// The policy let go of the subchannel: the pool shuts it down and
    /// reports no more states for it.
    RemoveSubchannel(Subchannel),
}

/// One event that the channel delivers to a policy.
pub enum ChannelUpdates {
    /// The name resolver produced an update.
    NameResolverUpdate(ResolverUpdate),
    /// The subchannel changed its connectivity state.
    SubchannelUpdate(Subchannel, SubchannelState),
}

/// What a policy may ask of the channel.
///
/// A controller type that keeps a record says so in `keeps_record`; `log()`
/// is then the record of the requests made through the controller, oldest
/// first, and each method appends its own request and changes nothing else
/// in the record. A controller may start its record anew by means of its
/// own. Of a controller type that keeps no record nothing is claimed.
pub trait ChannelController {
    /// The type of picker that policies publish through this controller.
    type Picker: Picker;

    /// Whether controllers of this type keep the record that `log`
    /// describes.
    open spec fn keeps_record() -> bool {
        false
    }

    /// The requests on record, oldest first.
    open spec fn log(&self) -> Seq<ChannelOperations<Self::Picker>> {
        Seq::empty()
    }

    /// Creates a new subchannel for `address`, in `Idle` state. The caller
    /// must call `connect` on it to start connecting.
    fn new_subchannel(&mut self, address: &Address) -> (subchannel: Subchannel)
        ensures
            Self::keeps_record() ==> final(self).log() == old(self).log().push(
                ChannelOperations::CreateSubchannel(*address, subchannel),
            ),
    ;

    /// Replaces the state and picker that the channel routes calls with.
    fn update_picker(&mut self, update: LbState<Self::Picker>)
        ensures
            Self::keeps_record() ==> final(self).log() == old(self).log().push(
                ChannelOperations::UpdatePicker(update),
            ),
    ;

    /// Asks the name resolver to resolve again now.
    fn request_resolution(&mut self)
        ensures
            Self::keeps_record() ==> final(self).log() == old(self).log().push(
                ChannelOperations::RequestResolution,
            ),
    ;

    /// Lets go of `subchannel`: its connection is shut down and it leaves
    /// the pool. Handles to it stay valid for comparison.
    fn remove_subchannel(&mut self, subchannel: &Subchannel)
        ensures
            Self::keeps_record() ==> final(self).log() == old(self).log().push(
                ChannelOperations::RemoveSubchannel(*subchannel),
            ),
    ;
}

/// The requests that `controller` has on record, oldest first, if it keeps
/// a record.
pub open spec fn recorded<C: ChannelController>(controller: &C) -> Option<
    Seq<ChannelOperations<C::Picker>>,
> {
    if C::keeps_record() {
        Some(controller.log())
    } else {
        None
    }
}

/// The subchannels that the requests in `log` created, oldest first.
pub open spec fn created_in<P>(log: Seq<ChannelOperations<P>>) -> Seq<Subchannel>
    decreases log.len(),
{
    if log.len() == 0 {
        Seq::empty()
    } else {
        match log.last() {
            ChannelOperations::CreateSubchannel(_, subchannel) => created_in(log.drop_last()).push(
                subchannel,
            ),
            _ => created_in(log.drop_last()),
        }
    }
}

/// The subchannels that the requests in `log` let go of, oldest first.
pub open spec fn removed_in<P>(log: Seq<ChannelOperations<P>>) -> Seq<Subchannel>
    decreases log.len(),
{
    if log.len() == 0 {
        Seq::empty()
    } else {
        match log.last() {
            ChannelOperations::RemoveSubchannel(subchannel) => removed_in(log.drop_last()).push(
                subchannel,
            ),
            _ => removed_in(log.drop_last()),
        }
    }
}

/// The request `kept` with the attributes of its address, if it has one,
/// replaced by `attributes`.
pub open spec fn restored_one<P>(
    kept: ChannelOperations<P>,
    attributes: Attributes,
) -> ChannelOperations<P> {
    match kept {
        ChannelOperations::CreateSubchannel(address, subchannel) => {
            let given = Address {
                address_type: address.address_type,
                address: address.address,
                attributes,
            };
            ChannelOperations::CreateSubchannel(given, subchannel)
        },
        other => other,
    }
}

/// The requests as they were made, when `kept` holds copies of them and
/// `attributes` holds, by position, the attributes of the addresses that
/// they were made with. A copy of an address has the type and the text of
/// the address itself and a copy of its attributes.
pub open spec fn restored<P>(
    kept: Seq<ChannelOperations<P>>,
    attributes: Map<nat, Attributes>,
) -> Seq<ChannelOperations<P>> {
    Seq::new(kept.len(), |i: int| restored_one(kept[i], attributes[i as nat]))
}

/// Recording one more request, with the attributes of its address, adds
/// the request as it was made to the requests restored.
pub proof fn lemma_restored_push<P>(
    kept: Seq<ChannelOperations<P>>,
    attributes: Map<nat, Attributes>,
    copy: ChannelOperations<P>,
    given: Attributes,
)
    ensures
        restored(kept.push(copy), attributes.insert(kept.len(), given)) == restored(
            kept,
            attributes,
        ).push(restored_one(copy, given)),
{
    let after = restored(kept.push(copy), attributes.insert(kept.len(), given));
    let wanted = restored(kept, attributes).push(restored_one(copy, given));
    assert(after.len() == wanted.len());
    assert forall|i: int| 0 <= i < after.len() implies after[i] == wanted[i] by {
        if i < kept.len() {
            assert(kept.push(copy)[i] == kept[i]);
            assert(attributes.insert(kept.len(), given)[i as nat] == attributes[i as nat]);
        }
    }
    assert(after =~= wanted);
}

/// Which subchannels were created and let go of, and what was published
/// last, can be read from the copies of the requests: the attributes of
/// the addresses play no part in it.
pub proof fn lemma_restored_outcome<P>(
    kept: Seq<ChannelOperations<P>>,
    attributes: Map<nat, Attributes>,
)
    ensures
        created_in(restored(kept, attributes)) == created_in(kept),
        removed_in(restored(kept, attributes)) == removed_in(kept),
        published(restored(kept, attributes)) == published(kept),
    decreases kept.len(),
{
    if kept.len() > 0 {
        lemma_restored_outcome(kept.drop_last(), attributes);
        assert(restored(kept, attributes).drop_last() =~= restored(kept.drop_last(), attributes));
        assert(restored(kept, attributes).last() == restored_one(
            kept.last(),
            attributes[(kept.len() - 1) as nat],
        ));
    }
}

/// The requests that let go of the given subchannels, in order.
pub open spec fn removals<P>(subchannels: Seq<Subchannel>) -> Seq<ChannelOperations<P>> {
    Seq::new(subchannels.len(), |i: int| ChannelOperations::RemoveSubchannel(subchannels[i]))
}

/// Lets go of every one of `subchannels`, in order.
pub fn remove_subchannels<C: ChannelController>(
    subchannels: &Vec<Subchannel>,
    channel_controller: &mut C,
)
    ensures
        subchannels@.len() == 0 ==> *final(channel_controller) == *old(channel_controller),
        C::keeps_record() ==> final(channel_controller).log() == old(channel_controller).log()
            + removals::<C::Picker>(subchannels@),
{
    let n: usize = subchannels.len();
    let mut i: usize = 0;
    while i < n
        invariant
            i <= n,
            n == subchannels@.len(),
            n == 0 ==> *channel_controller == *old(channel_controller),
            C::keeps_record() ==> channel_controller.log() == old(channel_controller).log()
                + removals::<C::Picker>(subchannels@.take(i as int)),
        decreases n - i,
    {
        channel_controller.remove_subchannel(&subchannels[i]);
        proof {
            if C::keeps_record() {
                let before = removals::<C::Picker>(subchannels@.take(i as int));
                let after = removals::<C::Picker>(subchannels@.take(i + 1));
                assert(after =~= before.push(
                    ChannelOperations::RemoveSubchannel(subchannels@[i as int]),
                ));
                assert(channel_controller.log() =~= old(channel_controller).log() + after);
            }
        }
        i += 1;
    }
    proof {
        assert(subchannels@.take(n as int) == subchannels@);
    }
}

/// Whether `after` is `before` with exactly one more request at its end.
pub open spec fn one_more<P>(
    before: Seq<ChannelOperations<P>>,
    after: Seq<ChannelOperations<P>>,
) -> bool {
    after.len() == before.len() + 1 && after.drop_last() == before
}

/// Whether `operation` publishes the given connectivity state and picker.
pub open spec fn is_publication<P>(
    operation: ChannelOperations<P>,
    connectivity_state: ConnectivityState,
    picker: P,
) -> bool {
    operation matches ChannelOperations::UpdatePicker(state) && state.connectivity_state
        == connectivity_state && *state.picker == picker
}

/// The state and picker that a controller with this record routes calls
/// with: the last one published, if any was.
pub open spec fn published<P>(log: Seq<ChannelOperations<P>>) -> Option<LbState<P>>
    decreases log.len(),
{
    if log.len() == 0 {
        None
    } else {
        match log.last() {
            ChannelOperations::UpdatePicker(state) => Some(state),
            _ => published(log.drop_last()),
        }
    }
}

/// Lets a policy ask to be called back.
pub trait WorkScheduler: Send + Sync {
    /// Schedules a call of the policy's `work` method. If a call is pending
    /// that has not started yet, this need not schedule another one.
    fn schedule_work(&self);

    /// Schedules a call of the policy's `work` method to be made once
    /// `delay_millis` milliseconds have passed.
    fn schedule_work_after(&self, delay_millis: u64);
}

/// A work scheduler that drops every request.
#[derive(Debug)]
pub struct NopWorkScheduler {}

impl WorkScheduler for NopWorkScheduler {
    fn schedule_work(&self) {
    }

    fn schedule_work_after(&self, delay_millis: u64) {
    }
}

/// A work scheduler that passes every request on to a scheduler that it
/// shares with others.
pub struct SharedWorkScheduler {
    /// The scheduler that the requests go to.
    pub inner: Arc<Box<dyn WorkScheduler>>,
}

impl WorkScheduler for SharedWorkScheduler {
    fn schedule_work(&self) {
        self.inner.schedule_work();
    }

    fn schedule_work_after(&self, delay_millis: u64) {
        self.inner.schedule_work_after(delay_millis);
    }
}

/// What a policy is built with.
pub struct LbPolicyOptions {
    /// The scheduler through which the policy asks for calls of `work`.
    pub work_scheduler: Box<dyn WorkScheduler>,
}

/// The parsed configuration of a policy.
pub trait LbConfig: Send {

}

/// A load-balancing policy.
///
/// The three methods are called one at a time, never concurrently, for one
/// instance. None of them may block: slow work is handed to the scheduler
/// or to a subchannel and comes back as a later event.
pub trait LbPolicy: Send {
    /// The type of picker that this policy publishes.
    type Picker: Picker;

    /// The type of this policy's parsed configuration.
    type Config: LbConfig;

    /// Whether the policy may react to a resolver update as given: going
    /// from `self` to `after`, taking the requests that its controller has
    /// on record from `requests` to `requests_after`, and answering
    /// `result`. A policy that does not say how it reacts may react in any
    /// way.
    open spec fn on_resolver_update(
        &self,
        update: ResolverUpdate,
        config: Option<&Self::Config>,
        requests: Option<Seq<ChannelOperations<Self::Picker>>>,
        after: &Self,
        requests_after: Option<Seq<ChannelOperations<Self::Picker>>>,
        result: Result<(), LbError>,
    ) -> bool {
        true
    }

    /// Whether the policy may react to the new state of a subchannel as
    /// given: going from `self` to `after` and taking the requests that its
    /// controller has on record from `requests` to `requests_after`.
    open spec fn on_subchannel_update(
        &self,
        subchannel: &Subchannel,
        state: &SubchannelState,
        requests: Option<Seq<ChannelOperations<Self::Picker>>>,
        after: &Self,
        requests_after: Option<Seq<ChannelOperations<Self::Picker>>>,
    ) -> bool {
        true
    }

    /// Whether the policy may do its work as given: going from `self` to
    /// `after` and taking the requests that its controller has on record
    /// from `requests` to `requests_after`.
    open spec fn on_work(
        &self,
        requests: Option<Seq<ChannelOperations<Self::Picker>>>,
        after: &Self,
        requests_after: Option<Seq<ChannelOperations<Self::Picker>>>,
    ) -> bool {
        true
    }

    /// Takes a new result of name resolution. An error leaves the policy
    /// usable: the caller may hand it a later update.
    fn resolver_update<C: ChannelController<Picker = Self::Picker>>(
        &mut self,
        update: ResolverUpdate,
        config: Option<&Self::Config>,
        channel_controller: &mut C,
    ) -> (result: Result<(), LbError>)
        ensures
            old(self).on_resolver_update(
                update,
                config,
                recorded(&*old(channel_controller)),
                &*final(self),
                recorded(&*final(channel_controller)),
                result,
            ),
    ;

    /// Takes the new state of one of the policy's subchannels.
    fn subchannel_update<C: ChannelController<Picker = Self::Picker>>(
        &mut self,
        subchannel: &Subchannel,
        state: &SubchannelState,
        channel_controller: &mut C,
    )
        ensures
            old(self).on_subchannel_update(
                subchannel,
                state,
                recorded(&*old(channel_controller)),
                &*final(self),
                recorded(&*final(channel_controller)),
            ),
    ;

    /// Does the work that the policy asked its scheduler for.
    fn work<C: ChannelController<Picker = Self::Picker>>(&mut self, channel_controller: &mut C)
        ensures
            old(self).on_work(
                recorded(&*old(channel_controller)),
                &*final(self),
                recorded(&*final(channel_controller)),
            ),
    ;
}

/// Builds policies of one kind.
pub trait LbPolicyBuilder: Send + Sync {
    /// The kind of policy that this builder builds.
    type Policy: LbPolicy;

    /// Whether `policy` is what `build` returns: a policy that has seen no
    /// event yet. A builder that does not say what it builds may build
    /// anything.
    open spec fn builds(&self, policy: &Self::Policy) -> bool {
        true
    }

    /// Builds a policy. This never fails.
    fn build(&self, options: LbPolicyOptions) -> (policy: Self::Policy)
        ensures
            self.builds(&policy),
    ;

    /// The name under which the policy is registered.
    fn name(&self) -> &'static str;

    /// Parses the text of a configuration for this policy. `Ok(None)` means
    /// that the policy takes no configuration, which is what a builder
    /// answers that does not say otherwise.
    fn parse_config(&self, config: &str) -> (parsed: Result<
        Option<<Self::Policy as LbPolicy>::Config>,
        LbError,
    >)
        default_ensures
            parsed == Ok::<Option<<Self::Policy as LbPolicy>::Config>, LbError>(None),
    {
        Ok(None)
    }
}

} // verus!
