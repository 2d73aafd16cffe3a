//! The child manager: the part of a composite policy that owns its children.
//!
//! A composite policy splits each resolver update into one update per child,
//! keeps the children whose identifiers occur again, builds the others
//! anew, and passes events on to the child they belong to. Each child talks
//! to a [`WrappedController`], which forwards requests for subchannels and
//! for re-resolution to the real controller and keeps the child's picker
//! for the composite to read.

use crate::client::connectivity::ConnectivityState;
use crate::attributes::Attributes;
use crate::client::load_balancing::{
    created_in, lemma_restored_outcome, lemma_restored_push, published, removed_in,
    remove_subchannels, restored, subchannel_ids, ChannelController, ChannelOperations, LbPolicy,
    LbPolicyBuilder, LbPolicyOptions, LbState, NopWorkScheduler, Picker, Subchannel,
    SubchannelState, SubchannelUpdate, WorkScheduler,
};
use crate::client::name_resolution::{Address, ResolverUpdate};
use crate::error::LbError;
use crate::sequence::{first_index, lemma_first_index, lemma_first_index_unique, reversed};
use std::collections::HashMap;
use std::sync::atomic::AtomicBool;
use std::sync::Arc;
use vstd::prelude::*;
use vstd::std_specs::cmp::PartialEqSpec;
use vstd::std_specs::iter::IteratorSpec;

verus! {

/// The controller that a child of a composite policy talks to.
///
/// Requests for subchannels and for re-resolution go on to the controller of
/// the composite unchanged. A picker update goes no further: the composite
/// publishes a picker of its own. A copy of every request is kept, and what
/// the composite takes in after the call is read from these copies: the
/// subchannels created and let go of, and the picker published last.
pub struct WrappedController<'a, C: ChannelController, P: Picker> {
    /// The controller of the composite.
    pub channel_controller: &'a mut C,
    /// A copy of every request that the child made, oldest first.
    pub requests: Vec<ChannelOperations<P>>,
    /// By position in `requests`, the attributes of the address that the
    /// request was made with.
    pub attributes: Ghost<Map<nat, Attributes>>,
}

impl<'a, C: ChannelController, P: Picker> WrappedController<'a, C, P> {
    /// The controller of the composite, as it stands.
    pub open spec fn parent(&self) -> C {
        *self.channel_controller
    }

    /// The subchannels created through this controller, oldest first.
    pub open spec fn created(&self) -> Seq<Subchannel> {
        created_in(self.log())
    }

    /// The subchannels let go of through this controller, oldest first.
    pub open spec fn removed(&self) -> Seq<Subchannel> {
        removed_in(self.log())
    }

    /// The last state and picker that the child published, if it published
    /// any.
    pub open spec fn captured(&self) -> Option<LbState<P>> {
        published(self.log())
    }

    /// A controller for one call into a child, on top of the controller of
    /// the composite.
    pub fn new(channel_controller: &'a mut C) -> (wrapped: WrappedController<'a, C, P>)
        ensures
            wrapped.parent() == *old(channel_controller),
            wrapped.log() == Seq::<ChannelOperations<P>>::empty(),
            *final(wrapped.channel_controller) == *final(channel_controller),
    {
        let wrapped = WrappedController {
            channel_controller,
            requests: Vec::new(),
            attributes: Ghost(Map::empty()),
        };
        proof {
            assert(wrapped.log() =~= Seq::<ChannelOperations<P>>::empty());
        }
        wrapped
    }

    /// Ends the call into the child: hands out the subchannels that the
    /// child created, those that it let go of, and the state that it
    /// published last, as its requests show them.
    pub fn finish(self) -> (outcome: (Vec<Subchannel>, Vec<Subchannel>, Option<LbState<P>>))
        ensures
            outcome.0@ == self.created(),
            outcome.1@ == self.removed(),
            outcome.2 == self.captured(),
            *final(self.channel_controller) == self.parent(),
    {
        let mut created: Vec<Subchannel> = Vec::new();
        let mut removed: Vec<Subchannel> = Vec::new();
        let mut captured: Option<LbState<P>> = None;
        let ghost kept = self.requests@;
        let n: usize = self.requests.len();
        let mut i: usize = 0;
        while i < n
            invariant
                i <= n,
                n == kept.len(),
                kept == self.requests@,
                created@ == created_in(kept.take(i as int)),
                removed@ == removed_in(kept.take(i as int)),
                captured == published(kept.take(i as int)),
            decreases n - i,
        {
            proof {
                assert(kept.take(i + 1).drop_last() == kept.take(i as int));
                assert(kept.take(i + 1).last() == kept[i as int]);
            }
            match &self.requests[i] {
                ChannelOperations::CreateSubchannel(_, subchannel) => {
                    created.push(subchannel.clone());
                },
                ChannelOperations::RemoveSubchannel(subchannel) => {
                    removed.push(subchannel.clone());
                },
                ChannelOperations::UpdatePicker(update) => {
                    captured = Some(update.clone());
                },
                ChannelOperations::RequestResolution => {},
            }
            i += 1;
        }
        proof {
            assert(kept.take(n as int) == kept);
            lemma_restored_outcome(kept, self.attributes@);
        }
        (created, removed, captured)
    }
}

impl<'a, C: ChannelController, P: Picker> ChannelController for WrappedController<'a, C, P> {
    type Picker = P;

    open spec fn keeps_record() -> bool {
        true
    }

    open spec fn log(&self) -> Seq<ChannelOperations<P>> {
        restored(self.requests@, self.attributes@)
    }

    /// Creates the subchannel through the controller of the composite and
    /// notes the request.
    fn new_subchannel(&mut self, address: &Address) -> (subchannel: Subchannel)
        ensures
            *final(final(self).channel_controller) == *final(old(self).channel_controller),
            C::keeps_record() ==> final(self).parent().log() == old(self).parent().log().push(
                ChannelOperations::CreateSubchannel(*address, subchannel),
            ),
    {
        let subchannel = self.channel_controller.new_subchannel(address);
        let copy = address.clone();
        proof {
            lemma_restored_push(
                self.requests@,
                self.attributes@,
                ChannelOperations::CreateSubchannel(copy, subchannel),
                address.attributes,
            );
            self.attributes@ = self.attributes@.insert(self.requests@.len(), address.attributes);
        }
        self.requests.push(ChannelOperations::CreateSubchannel(copy, subchannel.clone()));
        subchannel
    }

    /// Keeps the update for the composite. The controller of the composite
    /// does not hear of it.
    fn update_picker(&mut self, update: LbState<P>)
        ensures
            final(self).parent() == old(self).parent(),
            *final(final(self).channel_controller) == *final(old(self).channel_controller),
    {
        proof {
            lemma_restored_push(
                self.requests@,
                self.attributes@,
                ChannelOperations::UpdatePicker(update),
                Attributes::nothing(),
            );
            self.attributes@ = self.attributes@.insert(
                self.requests@.len(),
                Attributes::nothing(),
            );
        }
        self.requests.push(ChannelOperations::UpdatePicker(update));
    }

    /// Passes the request on to the controller of the composite and notes
    /// it.
    fn remove_subchannel(&mut self, subchannel: &Subchannel)
        ensures
            *final(final(self).channel_controller) == *final(old(self).channel_controller),
            C::keeps_record() ==> final(self).parent().log() == old(self).parent().log().push(
                ChannelOperations::RemoveSubchannel(*subchannel),
            ),
    {
        self.channel_controller.remove_subchannel(subchannel);
        proof {
            lemma_restored_push(
                self.requests@,
                self.attributes@,
                ChannelOperations::RemoveSubchannel(*subchannel),
                Attributes::nothing(),
            );
            self.attributes@ = self.attributes@.insert(
                self.requests@.len(),
                Attributes::nothing(),
            );
        }
        self.requests.push(ChannelOperations::RemoveSubchannel(subchannel.clone()));
    }

    /// Passes the request on to the controller of the composite and notes
    /// it.
    fn request_resolution(&mut self)
        ensures
            *final(final(self).channel_controller) == *final(old(self).channel_controller),
            C::keeps_record() ==> final(self).parent().log() == old(self).parent().log().push(
                ChannelOperations::RequestResolution,
            ),
    {
        self.channel_controller.request_resolution();
        proof {
            lemma_restored_push(
                self.requests@,
                self.attributes@,
                ChannelOperations::RequestResolution,
                Attributes::nothing(),
            );
            self.attributes@ = self.attributes@.insert(
                self.requests@.len(),
                Attributes::nothing(),
            );
        }
        self.requests.push(ChannelOperations::RequestResolution);
    }
}

/// The position of the last of `ids` that equals `id`, or -1 if none does.
pub open spec fn last_match<T: PartialEq>(ids: Seq<T>, id: T) -> int
    decreases ids.len(),
{
    if ids.len() == 0 {
        -1
    } else if ids.last().eq_spec(&id) {
        ids.len() - 1
    } else {
        last_match(ids.drop_last(), id)
    }
}

/// `last_match` finds the last identifier that equals `id`, and reports -1
/// only when there is none.
pub proof fn lemma_last_match<T: PartialEq>(ids: Seq<T>, id: T)
    ensures
        -1 <= last_match(ids, id) < ids.len(),
        last_match(ids, id) >= 0 ==> ids[last_match(ids, id)].eq_spec(&id),
        forall|j: int| last_match(ids, id) < j < ids.len() ==> !ids[j].eq_spec(&id),
    decreases ids.len(),
{
    if ids.len() > 0 && !ids.last().eq_spec(&id) {
        let rest = ids.drop_last();
        lemma_last_match(rest, id);
        assert forall|j: int| last_match(ids, id) < j < ids.len() implies !ids[j].eq_spec(&id) by {
            if j < ids.len() - 1 {
                assert(ids[j] == rest[j]);
            }
        }
    }
}

/// For each new identifier, the old child that it names: the last old child
/// with an equal identifier, or -1.
pub open spec fn targets<T: PartialEq>(old_ids: Seq<T>, new_ids: Seq<T>) -> Seq<int> {
    Seq::new(new_ids.len(), |i: int| last_match(old_ids, new_ids[i]))
}

/// The old child that the new child at position `i` takes over, if it takes
/// one over: the old child that its identifier names, unless an earlier new
/// child has taken that one already.
pub open spec fn reused<T: PartialEq>(old_ids: Seq<T>, new_ids: Seq<T>, i: int) -> Option<int> {
    let named = targets(old_ids, new_ids);
    if named[i] >= 0 && first_index(named, named[i]) == i {
        Some(named[i])
    } else {
        None
    }
}

/// For each old child, the position of the new child that takes it over, if
/// one does.
pub open spec fn successors<T: PartialEq>(old_ids: Seq<T>, new_ids: Seq<T>) -> Seq<Option<usize>> {
    let named = targets(old_ids, new_ids);
    Seq::new(
        old_ids.len(),
        |j: int|
            if first_index(named, j) < named.len() {
                Some(first_index(named, j) as usize)
            } else {
                None
            },
    )
}

/// A new child takes over an old one exactly when it is the successor of
/// that old child.
pub proof fn lemma_reused_is_successor<T: PartialEq>(
    old_ids: Seq<T>,
    new_ids: Seq<T>,
    i: int,
    j: int,
)
    requires
        0 <= i < new_ids.len() <= usize::MAX,
        0 <= j < old_ids.len(),
    ensures
        reused(old_ids, new_ids, i) == Some(j) <==> successors(old_ids, new_ids)[j] == Some(
            i as usize,
        ),
{
    let named = targets(old_ids, new_ids);
    lemma_first_index(named, j);
    lemma_first_index(named, named[i]);
}

/// What a child has published.
pub enum ChildState<P> {
    /// Nothing yet. The child counts as `Connecting`, and calls that would
    /// go to it are held.
    Initial,
    /// The state and picker that the child published last.
    Published(LbState<P>),
}

impl<P> ChildState<P> {
    /// The connectivity state that the child is in.
    pub open spec fn connectivity(&self) -> ConnectivityState {
        match self {
            ChildState::Initial => ConnectivityState::Connecting,
            ChildState::Published(state) => state.connectivity_state,
        }
    }

    /// The connectivity state that the child is in.
    pub fn connectivity_state(&self) -> (state: ConnectivityState)
        ensures
            state == self.connectivity(),
    {
        match self {
            ChildState::Initial => ConnectivityState::Connecting,
            ChildState::Published(state) => state.connectivity_state,
        }
    }
}

/// One child of a composite policy.
pub struct Child<T, Q: LbPolicy> {
    /// What identifies the child from one resolver update to the next.
    pub identifier: T,
    /// The policy of the child.
    pub policy: Q,
    /// What the child has published.
    pub state: ChildState<Q::Picker>,
    /// Why the child rejected the last resolver update handed to it, if it
    /// did.
    pub update_error: Option<LbError>,
    /// Raised by the child's work scheduler when the child asks for a call
    /// of `work`, and lowered by the manager when it makes the call. The
    /// flag belongs to this child alone: a request of a child that has been
    /// dropped reaches nobody.
    pub wants_work: Arc<AtomicBool>,
    /// The subchannels that the child has created and not let go of, oldest
    /// first. When the child is dropped, the manager lets go of them.
    pub subchannels: Vec<Subchannel>,
}

/// The work scheduler that a child is built with: it notes the request in
/// the child's own flag and asks the scheduler of the composite for a call
/// of `work`, in which the manager then calls the child.
pub struct ChildWorkScheduler {
    wants_work: Arc<AtomicBool>,
    parent: Arc<Box<dyn WorkScheduler>>,
}

impl WorkScheduler for ChildWorkScheduler {
    fn schedule_work(&self) {
        self.wants_work.store(true, std::sync::atomic::Ordering::SeqCst);
        self.parent.schedule_work();
    }

    fn schedule_work_after(&self, delay_millis: u64) {
        self.wants_work.store(true, std::sync::atomic::Ordering::SeqCst);
        self.parent.schedule_work_after(delay_millis);
    }
}

/// The share of one child in a resolver update.
pub struct ChildUpdate<T, B> {
    /// Identifies the child that the update is for.
    pub child_identifier: T,
    /// Builds the child if there is none with this identifier yet.
    pub child_policy_builder: Arc<B>,
    /// The update to hand to the child.
    pub child_update: ResolverUpdate,
}

/// Splits a resolver update into the updates of the children.
///
/// A sharder that does not say how it splits may split in any way.
pub trait ResolverUpdateSharder<T, B> {
    /// Whether the sharder may answer `update` with `result`.
    open spec fn shards(
        &self,
        update: &ResolverUpdate,
        result: &Result<Vec<ChildUpdate<T, B>>, LbError>,
    ) -> bool {
        true
    }

    /// Splits `update`, or rejects it as a whole.
    fn shard(&self, update: ResolverUpdate) -> (result: Result<Vec<ChildUpdate<T, B>>, LbError>)
        ensures
            self.shards(&update, &result),
    ;
}

/// The identifiers of the given children, in order.
pub open spec fn child_identifiers<T, Q: LbPolicy>(children: Seq<Child<T, Q>>) -> Seq<T> {
    Seq::new(children.len(), |i: int| children[i].identifier)
}

/// The identifiers of the given updates, in order.
pub open spec fn update_identifiers<T, B>(updates: Seq<ChildUpdate<T, B>>) -> Seq<T> {
    Seq::new(updates.len(), |i: int| updates[i].child_identifier)
}

/// An ownership map after the subchannels with the given ids have been
/// given to the child at `child_idx`.
pub open spec fn assigned(ownership: Map<u32, usize>, ids: Seq<u32>, child_idx: usize) -> Map<
    u32,
    usize,
> {
    Map::new(
        |id: u32| ownership.contains_key(id) || ids.contains(id),
        |id: u32|
            if ids.contains(id) {
                child_idx
            } else {
                ownership[id]
            },
    )
}

/// An ownership map after the subchannels with the given ids have been let
/// go of.
pub open spec fn released(ownership: Map<u32, usize>, ids: Seq<u32>) -> Map<u32, usize> {
    Map::new(|id: u32| ownership.contains_key(id) && !ids.contains(id), |id: u32| ownership[id])
}

/// Those of `subchannels` whose id is none of `ids`, in order.
pub open spec fn without(subchannels: Seq<Subchannel>, ids: Seq<u32>) -> Seq<Subchannel>
    decreases subchannels.len(),
{
    if subchannels.len() == 0 {
        Seq::empty()
    } else {
        let earlier = without(subchannels.drop_last(), ids);
        if ids.contains(subchannels.last().id()) {
            earlier
        } else {
            earlier.push(subchannels.last())
        }
    }
}

/// The subchannels of the old children that no new child takes over, child
/// by child in the order of the old children.
pub open spec fn orphans<T, Q: LbPolicy>(
    children: Seq<Child<T, Q>>,
    successors: Seq<Option<usize>>,
) -> Seq<Subchannel>
    decreases children.len(),
{
    if children.len() == 0 {
        Seq::empty()
    } else {
        let earlier = orphans(children.drop_last(), successors);
        let last = children.len() - 1;
        if last < successors.len() && successors[last] is Some {
            earlier
        } else {
            earlier + children.last().subchannels@
        }
    }
}

/// Whether `subchannels` holds a subchannel with the given id.
fn holds_id(subchannels: &Vec<Subchannel>, id: u32) -> (held: bool)
    ensures
        held == subchannel_ids(subchannels@).contains(id),
{
    let n: usize = subchannels.len();
    let mut i: usize = 0;
    while i < n
        invariant
            i <= n,
            n == subchannels@.len(),
            forall|k: int| 0 <= k < i ==> subchannel_ids(subchannels@)[k] != id,
        decreases n - i,
    {
        if subchannels[i].id() == id {
            assert(subchannel_ids(subchannels@)[i as int] == id);
            return true;
        }
        assert(subchannel_ids(subchannels@)[i as int] != id);
        i += 1;
    }
    false
}

/// Those of `subchannels` that are none of `removed`, in order.
fn keep_without(subchannels: Vec<Subchannel>, removed: &Vec<Subchannel>) -> (kept: Vec<Subchannel>)
    ensures
        kept@ == without(subchannels@, subchannel_ids(removed@)),
{
    let ghost all = subchannels@;
    let ghost ids = subchannel_ids(removed@);
    let n: usize = subchannels.len();
    let mut pending = reversed(subchannels);
    let mut kept: Vec<Subchannel> = Vec::new();
    let mut i: usize = 0;
    while i < n
        invariant
            i <= n,
            n == all.len(),
            ids == subchannel_ids(removed@),
            pending@.len() == n - i,
            forall|k: int| 0 <= k < pending@.len() ==> pending@[k] == all[n - 1 - k],
            kept@ == without(all.take(i as int), ids),
        decreases n - i,
    {
        let subchannel = match pending.pop() {
            Some(subchannel) => subchannel,
            None => vstd::pervasive::unreached(),
        };
        proof {
            assert(subchannel == all[i as int]);
            assert(all.take(i + 1).drop_last() == all.take(i as int));
            assert(all.take(i + 1).last() == all[i as int]);
        }
        if !holds_id(removed, subchannel.id()) {
            kept.push(subchannel);
        }
        i += 1;
    }
    proof {
        assert(all.take(n as int) == all);
    }
    kept
}

/// The position of the last of `ids` that equals `id`.
fn find_last<T: Eq>(ids: &Vec<T>, id: &T) -> (found: Option<usize>)
    ensures
        found matches Some(j) ==> j < ids@.len(),
        T::obeys_eq_spec() ==> last_match(ids@, *id) == (match found {
            Some(j) => j as int,
            None => -1,
        }),
{
    let mut k: usize = ids.len();
    proof {
        assert(ids@.take(k as int) == ids@);
    }
    while k > 0
        invariant
            k <= ids@.len(),
            T::obeys_eq_spec() ==> last_match(ids@, *id) == last_match(ids@.take(k as int), *id),
        decreases k,
    {
        k -= 1;
        let hit = ids[k] == *id;
        proof {
            let prefix = ids@.take(k + 1);
            assert(prefix.last() == ids@[k as int]);
            assert(prefix.drop_last() == ids@.take(k as int));
        }
        if hit {
            return Some(k);
        }
    }
    None
}

/// Whether `after` is what a manager keeps when the children in `before`
/// have been replaced by one child for each of `entries`, in order. A new
/// child whose identifier names an old child that no earlier new child has
/// taken over has the policy, the state and the subchannels of that old
/// child, and these subchannels are owned at its new position. Every other
/// new child has a policy from its builder, has published nothing and
/// holds no subchannel. The subchannels of old children that no new child
/// took over are owned by nobody.
pub open spec fn is_reconciled<T: PartialEq, B: LbPolicyBuilder>(
    before: Kept<T, B::Policy>,
    entries: Seq<(T, Arc<B>)>,
    after: Kept<T, B::Policy>,
) -> bool {
    let old_ids = child_identifiers(before.children);
    let new_ids = Seq::new(entries.len(), |k: int| entries[k].0);
    &&& after.children.len() == entries.len()
    &&& forall|i: int|
        0 <= i < entries.len() ==> {
            &&& (#[trigger] after.children[i]).identifier == entries[i].0
            &&& after.children[i].update_error is None
            &&& match reused(old_ids, new_ids, i) {
                Some(j) => {
                    &&& after.children[i].policy == before.children[j].policy
                    &&& after.children[i].state == before.children[j].state
                    &&& after.children[i].wants_work == before.children[j].wants_work
                    &&& after.children[i].subchannels == before.children[j].subchannels
                },
                None => {
                    &&& entries[i].1.builds(&after.children[i].policy)
                    &&& after.children[i].state is Initial
                    &&& after.children[i].subchannels@.len() == 0
                },
            }
        }
    &&& after.ownership == renumbered(before.ownership, successors(old_ids, new_ids))
}

/// The identifier and the builder of each of the given updates, in order.
pub open spec fn share_entries<T, B>(updates: Seq<ChildUpdate<T, B>>) -> Seq<(T, Arc<B>)> {
    Seq::new(updates.len(), |i: int| (updates[i].child_identifier, updates[i].child_policy_builder))
}

/// What each of the given updates holds for its child, in order.
pub open spec fn share_updates<T, B>(updates: Seq<ChildUpdate<T, B>>) -> Seq<ResolverUpdate> {
    Seq::new(updates.len(), |i: int| updates[i].child_update)
}

/// Whether `children_after` and `ownership_after` are what the manager
/// keeps after a call into the child at `child_idx` that has left the
/// child's policy as `policy`, when `requests` are the requests that the
/// child made during the call: the subchannels created are the child's
/// own, those let go of have left the ownership map, the state published
/// last is in the child's slot, and `update_error` is kept with the child.
/// The other children are as they were.
pub open spec fn is_taken_in<T, Q: LbPolicy>(
    children: Seq<Child<T, Q>>,
    ownership: Map<u32, usize>,
    child_idx: usize,
    policy: Q,
    requests: Seq<ChannelOperations<Q::Picker>>,
    update_error: Option<LbError>,
    children_after: Seq<Child<T, Q>>,
    ownership_after: Map<u32, usize>,
) -> bool {
    let before = children[child_idx as int];
    let after = children_after[child_idx as int];
    &&& children_after.len() == children.len()
    &&& forall|k: int|
        0 <= k < children.len() && k != child_idx ==> #[trigger] children_after[k] == children[k]
    &&& after.identifier == before.identifier
    &&& after.policy == policy
    &&& after.wants_work == before.wants_work
    &&& after.update_error == update_error
    &&& after.state == (match published(requests) {
        Some(update) => ChildState::Published(update),
        None => before.state,
    })
    &&& after.subchannels@ == without(
        before.subchannels@ + created_in(requests),
        subchannel_ids(removed_in(requests)),
    )
    &&& ownership_after == released(
        assigned(ownership, subchannel_ids(created_in(requests)), child_idx),
        subchannel_ids(removed_in(requests)),
    )
}

/// Whether the manager has passed the new state of `subchannel` on to the
/// child at `child_idx`: the child's policy was handed the subchannel, the
/// state and a controller that had recorded nothing, and what it asked of
/// that controller was taken in.
pub open spec fn has_heard<T, Q: LbPolicy>(
    children: Seq<Child<T, Q>>,
    ownership: Map<u32, usize>,
    child_idx: usize,
    subchannel: Subchannel,
    state: SubchannelState,
    children_after: Seq<Child<T, Q>>,
    ownership_after: Map<u32, usize>,
) -> bool {
    exists|policy: Q, requests: Seq<ChannelOperations<Q::Picker>>|
        {
            &&& #[trigger] children[child_idx as int].policy.on_subchannel_update(
                &subchannel,
                &state,
                Some(Seq::empty()),
                &policy,
                Some(requests),
            )
            &&& is_taken_in(
                children,
                ownership,
                child_idx,
                policy,
                requests,
                children[child_idx as int].update_error,
                children_after,
                ownership_after,
            )
        }
}

/// Whether the manager has called `work` on the child at `child_idx`: the
/// child's policy was handed a controller that had recorded nothing, and
/// what it asked of that controller was taken in.
pub open spec fn has_worked<T, Q: LbPolicy>(
    children: Seq<Child<T, Q>>,
    ownership: Map<u32, usize>,
    child_idx: usize,
    children_after: Seq<Child<T, Q>>,
    ownership_after: Map<u32, usize>,
) -> bool {
    exists|policy: Q, requests: Seq<ChannelOperations<Q::Picker>>|
        {
            &&& #[trigger] children[child_idx as int].policy.on_work(
                Some(Seq::empty()),
                &policy,
                Some(requests),
            )
            &&& is_taken_in(
                children,
                ownership,
                child_idx,
                policy,
                requests,
                children[child_idx as int].update_error,
                children_after,
                ownership_after,
            )
        }
}

/// What a manager keeps of its children at one point in time.
pub struct Kept<T, Q: LbPolicy> {
    /// The children, in order.
    pub children: Seq<Child<T, Q>>,
    /// For each subchannel id, the position of the child that owns the
    /// subchannel.
    pub ownership: Map<u32, usize>,
}

/// Whether the step from `stages[i]` to `stages[i + 1]` is the turn of the
/// child at `i` in a round of work: the child was called, or it was not
/// called and nothing has changed.
pub open spec fn is_work_step<T, Q: LbPolicy>(stages: Seq<Kept<T, Q>>, i: int) -> bool {
    let before = stages[i];
    let after = stages[i + 1];
    after == before || has_worked(
        before.children,
        before.ownership,
        i as usize,
        after.children,
        after.ownership,
    )
}

/// Whether `stages` are the stages of a round of work that leads from
/// `before` to `after`: one step for each child, in the order of the
/// children.
pub open spec fn is_work_round<T, Q: LbPolicy>(
    stages: Seq<Kept<T, Q>>,
    before: Kept<T, Q>,
    after: Kept<T, Q>,
) -> bool {
    &&& stages.len() == before.children.len() + 1
    &&& stages[0] == before
    &&& stages.last() == after
    &&& forall|i: int| 0 <= i < before.children.len() ==> #[trigger] is_work_step(stages, i)
}

/// The error that is kept with a child whose policy has answered a
/// resolver update with `result`.
pub open spec fn rejection(result: Result<(), LbError>) -> Option<LbError> {
    match result {
        Ok(_) => None,
        Err(error) => Some(error),
    }
}

/// Whether the manager has handed the child at `child_idx` its share of a
/// resolver update: the child's policy was handed `update`, `config` and a
/// controller that had recorded nothing, what it asked of that controller
/// was taken in, and its error, if it answered with one, is kept with it.
pub open spec fn has_taken_update<T, Q: LbPolicy>(
    children: Seq<Child<T, Q>>,
    ownership: Map<u32, usize>,
    child_idx: usize,
    update: ResolverUpdate,
    config: Option<&Q::Config>,
    children_after: Seq<Child<T, Q>>,
    ownership_after: Map<u32, usize>,
) -> bool {
    exists|policy: Q, requests: Seq<ChannelOperations<Q::Picker>>, result: Result<(), LbError>|
        {
            &&& #[trigger] children[child_idx as int].policy.on_resolver_update(
                update,
                config,
                Some(Seq::empty()),
                &policy,
                Some(requests),
                result,
            )
            &&& is_taken_in(
                children,
                ownership,
                child_idx,
                policy,
                requests,
                rejection(result),
                children_after,
                ownership_after,
            )
        }
}

/// Whether the step from `stages[i]` to `stages[i + 1]` is the turn of the
/// child at `i` in a delivery of `updates`: the child was handed
/// `updates[i]`.
pub open spec fn is_delivery_step<T, Q: LbPolicy>(
    stages: Seq<Kept<T, Q>>,
    updates: Seq<ResolverUpdate>,
    config: Option<&Q::Config>,
    i: int,
) -> bool {
    has_taken_update(
        stages[i].children,
        stages[i].ownership,
        i as usize,
        updates[i],
        config,
        stages[i + 1].children,
        stages[i + 1].ownership,
    )
}

/// Whether `stages` are the stages of a delivery of `updates` that leads
/// from `before` to `after`: one step for each child that there is an
/// update for, in the order of the children.
pub open spec fn is_delivery<T, Q: LbPolicy>(
    stages: Seq<Kept<T, Q>>,
    updates: Seq<ResolverUpdate>,
    config: Option<&Q::Config>,
    before: Kept<T, Q>,
    after: Kept<T, Q>,
) -> bool {
    let turns = if updates.len() < before.children.len() {
        updates.len()
    } else {
        before.children.len()
    };
    &&& stages.len() == turns + 1
    &&& stages[0] == before
    &&& stages.last() == after
    &&& forall|i: int| 0 <= i < turns ==> #[trigger] is_delivery_step(stages, updates, config, i)
}

/// The subchannels that a batch of states is looked up for, each with the
/// position of the child that holds it: child by child in the order of the
/// children, and for each child its subchannels in the order in which it
/// created them.
pub open spec fn visits<T, Q: LbPolicy>(children: Seq<Child<T, Q>>) -> Seq<(usize, Subchannel)>
    decreases children.len(),
{
    if children.len() == 0 {
        Seq::empty()
    } else {
        visits(children.drop_last()) + visits_of(
            (children.len() - 1) as usize,
            children.last().subchannels@,
        )
    }
}

/// The given subchannels, each with the position `child_idx`.
pub open spec fn visits_of(child_idx: usize, subchannels: Seq<Subchannel>) -> Seq<
    (usize, Subchannel),
> {
    Seq::new(subchannels.len(), |j: int| (child_idx, subchannels[j]))
}

/// Whether the step from `stages[k]` to `stages[k + 1]` is the visit `k` of
/// `plan` in passing on the batch `reports`: if the batch reports on the
/// subchannel, the child that held it was handed the subchannel and the
/// state reported; if not, nothing has changed.
pub open spec fn is_batch_step<T, Q: LbPolicy>(
    stages: Seq<Kept<T, Q>>,
    plan: Seq<(usize, Subchannel)>,
    reports: Map<u32, SubchannelState>,
    k: int,
) -> bool {
    if reports.contains_key(plan[k].1.id()) {
        has_heard(
            stages[k].children,
            stages[k].ownership,
            plan[k].0,
            plan[k].1,
            reports[plan[k].1.id()],
            stages[k + 1].children,
            stages[k + 1].ownership,
        )
    } else {
        stages[k + 1] == stages[k]
    }
}

/// Whether `stages` are the stages of passing on the batch `reports` that
/// lead from `before` to `after`: one step for each subchannel that a child
/// held before, in the order of `visits`.
pub open spec fn is_batch<T, Q: LbPolicy>(
    stages: Seq<Kept<T, Q>>,
    reports: Map<u32, SubchannelState>,
    before: Kept<T, Q>,
    after: Kept<T, Q>,
) -> bool {
    let plan = visits(before.children);
    &&& stages.len() == plan.len() + 1
    &&& stages[0] == before
    &&& stages.last() == after
    &&& forall|k: int| 0 <= k < plan.len() ==> #[trigger] is_batch_step(stages, plan, reports, k)
}

/// Whether `after` is what a manager keeps when it has taken the shares
/// `child_updates` of a resolver update while it kept `before`: first the
/// children were replaced by one child for each share, as `is_reconciled`
/// says, and then each child was handed the update of its share, and
/// `config`, in order.
pub open spec fn is_replaced_and_told<T: PartialEq, B: LbPolicyBuilder>(
    before: Kept<T, B::Policy>,
    child_updates: Seq<ChildUpdate<T, B>>,
    config: Option<&<B::Policy as LbPolicy>::Config>,
    after: Kept<T, B::Policy>,
) -> bool {
    exists|replaced: Kept<T, B::Policy>, stages: Seq<Kept<T, B::Policy>>|
        {
            &&& T::obeys_eq_spec() ==> is_reconciled(before, share_entries(child_updates), replaced)
            &&& replaced.children.len() == child_updates.len()
            &&& #[trigger] is_delivery(
                stages,
                share_updates(child_updates),
                config,
                replaced,
                after,
            )
        }
}

/// Lowers the flag and says whether it was raised: a call of
/// `AtomicBool::swap`. Requests that are made at the same time are either
/// taken by this call or stay for the next.
fn take_request(wants_work: &AtomicBool) -> bool {
    wants_work.swap(false, std::sync::atomic::Ordering::SeqCst)
}

/// A policy that manages children.
///
/// The manager keeps the children in the order of the last resolver update
/// and knows for each subchannel which child created it. Events for a
/// subchannel go to the child that owns it; what a child publishes is kept
/// in the child's own slot and nowhere else.
///
/// All calls into one manager must be made one at a time. A child must not
/// call back into the manager that is calling it.
pub struct ChildManager<T, B: LbPolicyBuilder, S> {
    subchannel_child_map: HashMap<u32, usize>,
    children: Vec<Child<T, B::Policy>>,
    shard_update: S,
    work_scheduler: Arc<Box<dyn WorkScheduler>>,
}

impl<T, B: LbPolicyBuilder, S> ChildManager<T, B, S> {
    /// The children, in the order of the last resolver update.
    pub closed spec fn children(&self) -> Seq<Child<T, B::Policy>> {
        self.children@
    }

    /// For each subchannel id, the position of the child that owns the
    /// subchannel.
    pub closed spec fn ownership(&self) -> Map<u32, usize> {
        self.subchannel_child_map@
    }

    /// What the manager keeps of its children.
    pub open spec fn kept(&self) -> Kept<T, B::Policy> {
        Kept { children: self.children(), ownership: self.ownership() }
    }

    /// What splits resolver updates for this manager.
    pub closed spec fn sharder(&self) -> S {
        self.shard_update
    }

    /// The scheduler through which the children ask for work: that of the
    /// composite policy.
    pub closed spec fn work_scheduler(&self) -> Arc<Box<dyn WorkScheduler>> {
        self.work_scheduler
    }

    /// Whether the subchannel with the given id is in the ownership map and
    /// its owner is among the children.
    pub open spec fn has_owner(&self, id: u32) -> bool {
        self.ownership().contains_key(id) && self.ownership()[id] < self.children().len()
    }

    /// Every subchannel in the ownership map belongs to a child that is
    /// there.
    pub open spec fn wf(&self) -> bool {
        forall|id: u32| #[trigger]
            self.ownership().contains_key(id) ==> self.ownership()[id] < self.children().len()
    }

}

impl<T: Eq, B: LbPolicyBuilder, S: ResolverUpdateSharder<T, B>> ChildManager<T, B, S> {
    /// A manager without children that splits resolver updates with
    /// `shard_update`. Requests of its children for work go nowhere until a
    /// work scheduler is set.
    pub fn new(shard_update: S) -> (manager: ChildManager<T, B, S>)
        ensures
            manager.children().len() == 0,
            manager.ownership() == Map::<u32, usize>::empty(),
            manager.sharder() == shard_update,
            manager.wf(),
    {
        let scheduler: Box<dyn WorkScheduler> = Box::new(NopWorkScheduler {  });
        ChildManager {
            subchannel_child_map: HashMap::new(),
            children: Vec::new(),
            shard_update,
            work_scheduler: Arc::new(scheduler),
        }
    }

    /// Sets the scheduler that children built from now on ask for work
    /// through: the scheduler of the composite policy.
    pub fn set_work_scheduler(&mut self, work_scheduler: Box<dyn WorkScheduler>)
        ensures
            final(self).children() == old(self).children(),
            final(self).ownership() == old(self).ownership(),
            final(self).sharder() == old(self).sharder(),
            final(self).work_scheduler() == Arc::new(work_scheduler),
    {
        let shared = Arc::new(work_scheduler);
        self.work_scheduler = shared;
    }

    /// The number of children.
    pub fn child_count(&self) -> (count: usize)
        ensures
            count == self.children().len(),
    {
        self.children.len()
    }

    /// The identifier and the state of every child, in order.
    pub fn child_states(&self) -> (states: Vec<
        (&T, &ChildState<<B::Policy as LbPolicy>::Picker>),
    >)
        ensures
            states@.len() == self.children().len(),
            forall|i: int|
                0 <= i < states@.len() ==> {
                    &&& *(#[trigger] states@[i]).0 == self.children()[i].identifier
                    &&& *states@[i].1 == self.children()[i].state
                },
    {
        let mut states: Vec<(&T, &ChildState<<B::Policy as LbPolicy>::Picker>)> = Vec::new();
        let n: usize = self.children.len();
        for i in 0..n
            invariant
                n == self.children@.len(),
                states@.len() == i,
                forall|k: int|
                    0 <= k < i ==> {
                        &&& *(#[trigger] states@[k]).0 == self.children@[k].identifier
                        &&& *states@[k].1 == self.children@[k].state
                    },
        {
            let child = &self.children[i];
            states.push((&child.identifier, &child.state));
        }
        states
    }

    /// Why the child at `child_idx` rejected the last resolver update handed
    /// to it, if it did.
    pub fn child_update_error(&self, child_idx: usize) -> (error: Option<&LbError>)
        requires
            child_idx < self.children().len(),
        ensures
            error == (match self.children()[child_idx as int].update_error {
                Some(rejection) => Some(&rejection),
                None => None,
            }),
    {
        self.children[child_idx].update_error.as_ref()
    }

    /// What `f` makes of the identifier and the state of every child, in
    /// order.
    pub fn map_child_states<V, F: Fn(&T, &ChildState<<B::Policy as LbPolicy>::Picker>) -> V>(
        &self,
        f: F,
    ) -> (mapped: Vec<V>)
        requires
            forall|i: int|
                0 <= i < self.children().len() ==> call_requires(
                    f,
                    (&(#[trigger] self.children()[i]).identifier, &self.children()[i].state),
                ),
        ensures
            mapped@.len() == self.children().len(),
            forall|i: int|
                0 <= i < self.children().len() ==> call_ensures(
                    f,
                    (&self.children()[i].identifier, &self.children()[i].state),
                    #[trigger] mapped@[i],
                ),
    {
        let mut mapped: Vec<V> = Vec::new();
        let n: usize = self.children.len();
        for i in 0..n
            invariant
                n == self.children@.len(),
                mapped@.len() == i,
                forall|k: int|
                    0 <= k < self.children().len() ==> call_requires(
                        f,
                        (&(#[trigger] self.children()[k]).identifier, &self.children()[k].state),
                    ),
                forall|k: int|
                    0 <= k < i ==> call_ensures(
                        f,
                        (&self.children()[k].identifier, &self.children()[k].state),
                        #[trigger] mapped@[k],
                    ),
        {
            let child = &self.children[i];
            assert(child == self.children()[i as int]);
            mapped.push(f(&child.identifier, &child.state));
        }
        mapped
    }

    /// The child that owns `subchannel`, if one does.
    pub fn owner(&self, subchannel: &Subchannel) -> (child_idx: Option<usize>)
        ensures
            child_idx == (if self.ownership().contains_key(subchannel.id()) {
                Some(self.ownership()[subchannel.id()])
            } else {
                None
            }),
    {
        broadcast use vstd::std_specs::hash::group_hash_axioms;

        let id = subchannel.id();
        match self.subchannel_child_map.get(&id) {
            Some(child_idx) => Some(*child_idx),
            None => None,
        }
    }

    /// Replaces the children by one child for each of `entries`, in order.
    ///
    /// A new child whose identifier equals that of an old child takes over
    /// the policy, the state and the subchannels of that old child: of the
    /// last old child with an equal identifier, and only the first new child
    /// to name it. Every other new child gets a policy from its builder and
    /// has published nothing. Old children that no new child takes over are
    /// dropped, and so are the ownership entries of their subchannels.
    ///
    /// The subchannels of the dropped children are returned: the caller
    /// has to let go of them.
    pub fn reconcile(&mut self, entries: Vec<(T, Arc<B>)>) -> (dropped: Vec<Subchannel>)
        ensures
            final(self).wf(),
            final(self).sharder() == old(self).sharder(),
            final(self).work_scheduler() == old(self).work_scheduler(),
            final(self).children().len() == entries@.len(),
            forall|i: int|
                0 <= i < entries@.len() ==> {
                    &&& (#[trigger] final(self).children()[i]).identifier == entries@[i].0
                    &&& final(self).children()[i].update_error is None
                },
            T::obeys_eq_spec() ==> is_reconciled(old(self).kept(), entries@, final(self).kept()),
            T::obeys_eq_spec() ==> dropped@ == orphans(
                old(self).children(),
                successors(
                    child_identifiers(old(self).children()),
                    Seq::new(entries@.len(), |k: int| entries@[k].0),
                ),
            ),
    {
        let ghost old_children = self.children@;
        let ghost old_ids = child_identifiers(old_children);
        let ghost new_ids = Seq::new(entries@.len(), |k: int| entries@[k].0);
        let ghost named = targets(old_ids, new_ids);

        // Take the old children and the old ownership map out.
        let mut taken: Vec<Child<T, B::Policy>> = Vec::new();
        std::mem::swap(&mut self.children, &mut taken);
        let mut old_map: HashMap<u32, usize> = HashMap::new();
        std::mem::swap(&mut self.subchannel_child_map, &mut old_map);

        // Split the old children into their identifiers and the rest.
        let mut backwards = reversed(taken);
        let mut identifiers: Vec<T> = Vec::new();
        let mut parts: Vec<
            Option<
                (
                    B::Policy,
                    ChildState<<B::Policy as LbPolicy>::Picker>,
                    Arc<AtomicBool>,
                    Vec<Subchannel>,
                ),
            >,
        > = Vec::new();
        let mut moved_to: Vec<Option<usize>> = Vec::new();
        while backwards.len() > 0
            invariant
                backwards@.len() + identifiers@.len() == old_children.len(),
                parts@.len() == identifiers@.len(),
                moved_to@.len() == identifiers@.len(),
                forall|k: int|
                    0 <= k < backwards@.len() ==> backwards@[k] == old_children[old_children.len()
                        - 1 - k],
                forall|j: int|
                    0 <= j < identifiers@.len() ==> {
                        &&& identifiers@[j] == old_children[j].identifier
                        &&& parts@[j]
                            == Some((old_children[j].policy, old_children[j].state,
                            old_children[j].wants_work, old_children[j].subchannels))
                        &&& moved_to@[j] is None
                    },
            decreases backwards@.len(),
        {
            let ghost position = identifiers@.len() as int;
            match backwards.pop() {
                Some(child) => {
                    assert(child == old_children[position]);
                    identifiers.push(child.identifier);
                    parts.push(Some((child.policy, child.state, child.wants_work,
                        child.subchannels)));
                    moved_to.push(None);
                },
                None => {},
            }
        }
        proof {
            assert(identifiers@ =~= old_ids);
            assert(named.take(0).len() == 0);
            assert forall|j: int| 0 <= j < old_children.len() implies {
                &&& moved_to@[j] is None
                &&& (#[trigger] parts@[j])
                    == Some((old_children[j].policy, old_children[j].state,
                    old_children[j].wants_work, old_children[j].subchannels))
                &&& first_index(named.take(0), j) == 0
            } by {
                assert(identifiers@[j] == old_children[j].identifier);
            }
            assert forall|j: int| 0 <= j < moved_to@.len() implies (#[trigger] moved_to@[j])
                is None by {
                assert(identifiers@[j] == old_children[j].identifier);
            }
        }

        // Go through the new entries in order.
        let n: usize = entries.len();
        let mut pending = reversed(entries);
        let mut i: usize = 0;
        while i < n
            invariant
                i <= n,
                n == entries@.len(),
                pending@.len() == n - i,
                forall|k: int| 0 <= k < pending@.len() ==> pending@[k] == entries@[n - 1 - k],
                identifiers@ == old_ids,
                old_ids == child_identifiers(old_children),
                new_ids == Seq::new(entries@.len(), |k: int| entries@[k].0),
                named == targets(old_ids, new_ids),
                parts@.len() == old_children.len(),
                moved_to@.len() == old_children.len(),
                self.children@.len() == i,
                self.shard_update == old(self).shard_update,
                self.work_scheduler == old(self).work_scheduler,
                forall|k: int|
                    0 <= k < i ==> {
                        &&& (#[trigger] self.children@[k]).identifier == entries@[k].0
                        &&& self.children@[k].update_error is None
                    },
                forall|j: int|
                    0 <= j < moved_to@.len() ==> ((#[trigger] moved_to@[j]) matches Some(k) ==> k
                        < i),
                T::obeys_eq_spec() ==> forall|j: int|
                    0 <= j < old_children.len() ==> {
                        &&& (#[trigger] parts@[j]) == (if first_index(named.take(i as int), j) < i {
                            None
                        } else {
                            Some((old_children[j].policy, old_children[j].state,
                                old_children[j].wants_work, old_children[j].subchannels))
                        })
                        &&& moved_to@[j] == (if first_index(named.take(i as int), j) < i {
                            Some(first_index(named.take(i as int), j) as usize)
                        } else {
                            None
                        })
                    },
                T::obeys_eq_spec() ==> forall|k: int|
                    0 <= k < i ==> match reused(old_ids, new_ids, k) {
                        Some(j) => {
                            &&& (#[trigger] self.children@[k]).policy == old_children[j].policy
                            &&& self.children@[k].state == old_children[j].state
                            &&& self.children@[k].wants_work == old_children[j].wants_work
                            &&& self.children@[k].subchannels == old_children[j].subchannels
                        },
                        None => {
                            &&& entries@[k].1.builds(&(#[trigger] self.children@[k]).policy)
                            &&& self.children@[k].state is Initial
                            &&& self.children@[k].subchannels@.len() == 0
                        },
                    },
            decreases n - i,
        {
            let (identifier, builder) = match pending.pop() {
                Some(entry) => entry,
                None => vstd::pervasive::unreached(),
            };
            assert(identifier == entries@[i as int].0 && builder == entries@[i as int].1);
            let found = find_last(&identifiers, &identifier);
            let ghost before = named.take(i as int);
            let ghost after = named.take(i + 1);
            let ghost parts_before = parts@;
            let ghost moved_before = moved_to@;
            let ghost named_here = named[i as int];
            proof {
                assert(after == before.push(named_here));
                assert(named_here == last_match(old_ids, identifier));
                assert forall|j: int| 0 <= j < old_children.len() implies first_index(after, j)
                    == (if first_index(before, j) < i {
                    first_index(before, j)
                } else if named_here == j {
                    i as int
                } else {
                    i + 1
                }) by {
                    lemma_first_index(before, j);
                    let k = if first_index(before, j) < i {
                        first_index(before, j)
                    } else if named_here == j {
                        i as int
                    } else {
                        i + 1
                    };
                    assert forall|m: int| 0 <= m < k implies after[m] != j by {
                        if m < i {
                            assert(after[m] == before[m]);
                        }
                    }
                    lemma_first_index_unique(after, j, k);
                }
                // Whether this entry is the first to name its old child.
                lemma_first_index(named, named_here);
                lemma_first_index(before, named_here);
                if first_index(before, named_here) < i {
                    let m = first_index(before, named_here);
                    assert(before[m] == named[m]);
                    assert(first_index(named, named_here) != i);
                } else {
                    assert forall|m: int| 0 <= m < i implies named[m] != named_here by {
                        assert(before[m] == named[m]);
                    }
                    lemma_first_index_unique(named, named_here, i as int);
                }
            }
            let part = match found {
                Some(j) => parts[j].take(),
                None => None,
            };
            match part {
                Some((policy, state, wants_work, subchannels)) => {
                    match found {
                        Some(j) => {
                            moved_to.set(j, Some(i));
                        },
                        None => {},
                    }
                    self.children.push(
                        Child {
                            identifier,
                            policy,
                            state,
                            update_error: None,
                            wants_work,
                            subchannels,
                        },
                    );
                },
                None => {
                    let wants_work = Arc::new(AtomicBool::new(false));
                    let scheduler = ChildWorkScheduler {
                        wants_work: wants_work.clone(),
                        parent: self.work_scheduler.clone(),
                    };
                    let policy = builder.build(
                        LbPolicyOptions { work_scheduler: Box::new(scheduler) },
                    );
                    self.children.push(
                        Child {
                            identifier,
                            policy,
                            state: ChildState::Initial,
                            update_error: None,
                            wants_work,
                            subchannels: Vec::new(),
                        },
                    );
                },
            }
            proof {
                if T::obeys_eq_spec() {
                    assert forall|j: int| 0 <= j < old_children.len() implies {
                        &&& (#[trigger] parts@[j]) == (if first_index(after, j) < i + 1 {
                            None
                        } else {
                            Some((old_children[j].policy, old_children[j].state,
                                old_children[j].wants_work, old_children[j].subchannels))
                        })
                        &&& moved_to@[j] == (if first_index(after, j) < i + 1 {
                            Some(first_index(after, j) as usize)
                        } else {
                            None
                        })
                    } by {
                        assert(parts_before[j] == (if first_index(before, j) < i {
                            None
                        } else {
                            Some((old_children[j].policy, old_children[j].state,
                                old_children[j].wants_work, old_children[j].subchannels))
                        }));
                        assert(moved_before[j] == (if first_index(before, j) < i {
                            Some(first_index(before, j) as usize)
                        } else {
                            None
                        }));
                    }
                    assert forall|k: int| 0 <= k < i + 1 implies match reused(old_ids, new_ids, k) {
                        Some(j) => {
                            &&& (#[trigger] self.children@[k]).policy == old_children[j].policy
                            &&& self.children@[k].state == old_children[j].state
                            &&& self.children@[k].wants_work == old_children[j].wants_work
                            &&& self.children@[k].subchannels == old_children[j].subchannels
                        },
                        None => {
                            &&& entries@[k].1.builds(&(#[trigger] self.children@[k]).policy)
                            &&& self.children@[k].state is Initial
                            &&& self.children@[k].subchannels@.len() == 0
                        },
                    } by {
                        if k == i {
                            if named_here >= 0 {
                                assert(parts_before[named_here] == (if first_index(
                                    before,
                                    named_here,
                                ) < i {
                                    None
                                } else {
                                    Some(
                                        (
                                            old_children[named_here].policy,
                                            old_children[named_here].state,
                                            old_children[named_here].wants_work,
                                            old_children[named_here].subchannels,
                                        ),
                                    )
                                }));
                            }
                        }
                    }
                }
            }
            i += 1;
        }
        proof {
            assert(named.take(n as int) == named);
            if T::obeys_eq_spec() {
                assert forall|j: int| 0 <= j < old_children.len() implies moved_to@[j]
                    == successors(old_ids, new_ids)[j] by {
                    assert(parts@[j] == (if first_index(named, j) < n {
                        None
                    } else {
                        Some((old_children[j].policy, old_children[j].state,
                            old_children[j].wants_work, old_children[j].subchannels))
                    }));
                }
                assert(moved_to@ =~= successors(old_ids, new_ids));
                assert forall|k: int| 0 <= k < old_children.len() implies (#[trigger] parts@[k])
                    == (
                if moved_to@[k] is Some {
                    None
                } else {
                    Some(
                        (
                            old_children[k].policy,
                            old_children[k].state,
                            old_children[k].wants_work,
                            old_children[k].subchannels,
                        ),
                    )
                }) by {
                    assert(parts@[k] == (if first_index(named, k) < n {
                        None
                    } else {
                        Some(
                            (
                                old_children[k].policy,
                                old_children[k].state,
                                old_children[k].wants_work,
                                old_children[k].subchannels,
                            ),
                        )
                    }));
                }
            }
        }

        // Entries of subchannels follow their child; the others are dropped.
        self.subchannel_child_map = renumber(&old_map, &moved_to);

        // What is left of the old children is dropped with them.
        let mut dropped: Vec<Subchannel> = Vec::new();
        let old_count: usize = parts.len();
        let mut j: usize = 0;
        while j < old_count
            invariant
                j <= old_count,
                old_count == old_children.len(),
                parts@.len() == old_count,
                moved_to@.len() == old_count,
                self.children@.len() == n,
                n == entries@.len(),
                self.shard_update == old(self).shard_update,
                self.work_scheduler == old(self).work_scheduler,
                self.wf(),
                self.children() == self.children@,
                T::obeys_eq_spec() ==> moved_to@ == successors(old_ids, new_ids),
                T::obeys_eq_spec() ==> forall|k: int|
                    j <= k < old_count ==> (#[trigger] parts@[k]) == (if moved_to@[k] is Some {
                        None
                    } else {
                        Some(
                            (
                                old_children[k].policy,
                                old_children[k].state,
                                old_children[k].wants_work,
                                old_children[k].subchannels,
                            ),
                        )
                    }),
                T::obeys_eq_spec() ==> dropped@ == orphans(old_children.take(j as int), moved_to@),
            decreases old_count - j,
        {
            proof {
                assert(old_children.take(j + 1).drop_last() == old_children.take(j as int));
                assert(old_children.take(j + 1).last() == old_children[j as int]);
            }
            match parts[j].take() {
                Some((_, _, _, subchannels)) => {
                    let mut subchannels = subchannels;
                    dropped.append(&mut subchannels);
                },
                None => {},
            }
            j += 1;
        }
        proof {
            assert(old_children.take(old_count as int) == old_children);
        }
        dropped
    }

    /// Takes in what the child at `child_idx` did during one call into it:
    /// every subchannel that it created is given to it, every subchannel
    /// that it let go of leaves the ownership map, and the state that it
    /// published last, if it published any, replaces the one kept for it.
    /// Nothing else about the children changes.
    pub fn resolve_child_controller<C: ChannelController>(
        &mut self,
        channel_controller: WrappedController<'_, C, <B::Policy as LbPolicy>::Picker>,
        child_idx: usize,
    )
        requires
            child_idx < old(self).children().len(),
        ensures
            final(self).sharder() == old(self).sharder(),
            final(self).work_scheduler() == old(self).work_scheduler(),
            final(self).children().len() == old(self).children().len(),
            forall|k: int|
                0 <= k < old(self).children().len() && k != child_idx
                    ==> #[trigger] final(self).children()[k] == old(self).children()[k],
            ({
                let after = final(self).children()[child_idx as int];
                let before = old(self).children()[child_idx as int];
                &&& after.identifier == before.identifier
                &&& after.policy == before.policy
                &&& after.update_error == before.update_error
                &&& after.wants_work == before.wants_work
                &&& after.state == (match channel_controller.captured() {
                    Some(update) => ChildState::Published(update),
                    None => before.state,
                })
                &&& after.subchannels@ == without(
                    before.subchannels@ + channel_controller.created(),
                    subchannel_ids(channel_controller.removed()),
                )
            }),
            final(self).ownership() == released(
                assigned(
                    old(self).ownership(),
                    subchannel_ids(channel_controller.created()),
                    child_idx,
                ),
                subchannel_ids(channel_controller.removed()),
            ),
            old(self).wf() ==> final(self).wf(),
            *final(channel_controller.channel_controller) == channel_controller.parent(),
    {
        broadcast use vstd::std_specs::hash::group_hash_axioms;

        let (created, removed, captured) = channel_controller.finish();
        let ghost ids = subchannel_ids(created@);
        let n: usize = created.len();
        for i in 0..n
            invariant
                n == created@.len(),
                ids == subchannel_ids(created@),
                self.children == old(self).children,
                self.shard_update == old(self).shard_update,
                self.work_scheduler == old(self).work_scheduler,
                self.subchannel_child_map@ == assigned(
                    old(self).subchannel_child_map@,
                    ids.take(i as int),
                    child_idx,
                ),
        {
            let id = created[i].id();
            self.subchannel_child_map.insert(id, child_idx);
            proof {
                let before = ids.take(i as int);
                let after = ids.take(i + 1);
                assert(after == before.push(id));
                assert forall|other: u32| after.contains(other) <==> (before.contains(other)
                    || other == id) by {
                    if before.contains(other) {
                        let k = choose|k: int| 0 <= k < before.len() && before[k] == other;
                        assert(after[k] == other);
                    }
                    if other == id {
                        assert(after[i as int] == id);
                    }
                }
                assert(self.subchannel_child_map@ =~= assigned(
                    old(self).subchannel_child_map@,
                    after,
                    child_idx,
                ));
            }
        }
        proof {
            assert(ids.take(n as int) == ids);
        }
        let ghost given = self.subchannel_child_map@;
        let ghost gone = subchannel_ids(removed@);
        let m: usize = removed.len();
        for i in 0..m
            invariant
                m == removed@.len(),
                gone == subchannel_ids(removed@),
                self.children == old(self).children,
                self.shard_update == old(self).shard_update,
                self.work_scheduler == old(self).work_scheduler,
                self.subchannel_child_map@ == released(given, gone.take(i as int)),
        {
            let id = removed[i].id();
            self.subchannel_child_map.remove(&id);
            proof {
                let before = gone.take(i as int);
                let after = gone.take(i + 1);
                assert(after == before.push(id));
                assert forall|other: u32| after.contains(other) <==> (before.contains(other)
                    || other == id) by {
                    if before.contains(other) {
                        let k = choose|k: int| 0 <= k < before.len() && before[k] == other;
                        assert(after[k] == other);
                    }
                    if other == id {
                        assert(after[i as int] == id);
                    }
                }
                assert(self.subchannel_child_map@ =~= released(given, after));
            }
        }
        proof {
            assert(gone.take(m as int) == gone);
        }
        let mut own: Vec<Subchannel> = Vec::new();
        std::mem::swap(&mut self.children[child_idx].subchannels, &mut own);
        let mut created = created;
        own.append(&mut created);
        self.children[child_idx].subchannels = keep_without(own, &removed);
        match captured {
            Some(update) => {
                self.children[child_idx].state = ChildState::Published(update);
            },
            None => {},
        }
    }

    /// Hands each child its share of a resolver update, in order, each
    /// through a controller of its own, and takes in what the child did. A
    /// child that rejects its share keeps its place; the error is kept with
    /// it and the other children are not affected. The first update is for
    /// the first child, and so on: children for which there is no update
    /// hear nothing, and updates for which there is no child are dropped.
    pub fn deliver<C: ChannelController>(
        &mut self,
        updates: Vec<ResolverUpdate>,
        config: Option<&<B::Policy as LbPolicy>::Config>,
        channel_controller: &mut C,
    )
        ensures
            old(self).wf() ==> final(self).wf(),
            final(self).sharder() == old(self).sharder(),
            final(self).work_scheduler() == old(self).work_scheduler(),
            final(self).children().len() == old(self).children().len(),
            forall|k: int|
                0 <= k < old(self).children().len()
                    ==> (#[trigger] final(self).children()[k]).identifier
                    == old(self).children()[k].identifier,
            forall|k: int|
                updates@.len() <= k < old(self).children().len()
                    ==> #[trigger] final(self).children()[k] == old(self).children()[k],
            exists|stages: Seq<Kept<T, B::Policy>>| #[trigger]
                is_delivery(
                    stages,
                    updates@,
                    config,
                    old(self).kept(),
                    final(self).kept(),
                ),
    {
        let n: usize = if updates.len() < self.children.len() {
            updates.len()
        } else {
            self.children.len()
        };
        let ghost given = updates@;
        let mut pending = reversed(updates);
        let mut i: usize = 0;
        let ghost mut stages: Seq<Kept<T, B::Policy>> = seq![self.kept()];
        while i < n
            invariant
                i <= n,
                n <= self.children@.len(),
                n <= given.len(),
                self.children@.len() == old(self).children@.len(),
                pending@.len() == given.len() - i,
                forall|k: int|
                    0 <= k < pending@.len() ==> pending@[k] == given[given.len() - 1 - k],
                old(self).wf() ==> self.wf(),
                self.shard_update == old(self).shard_update,
                self.work_scheduler == old(self).work_scheduler,
                forall|k: int|
                    n <= k < self.children@.len() ==> #[trigger] self.children@[k]
                        == old(self).children@[k],
                forall|k: int|
                    0 <= k < self.children@.len() ==> (#[trigger] self.children@[k]).identifier
                        == old(self).children@[k].identifier,
                stages.len() == i + 1,
                stages[0] == old(self).kept(),
                stages.last() == self.kept(),
                forall|k: int|
                    0 <= k < i ==> #[trigger] is_delivery_step(
                        stages,
                        given,
                        config,
                        k,
                    ),
            decreases n - i,
        {
            let update = match pending.pop() {
                Some(update) => update,
                None => vstd::pervasive::unreached(),
            };
            assert(update == given[i as int]);
            let ghost before = self.kept();
            let ghost was = *self;
            let mut wrapped = WrappedController::new(channel_controller);
            let result = self.children[i].policy.resolver_update(update, config, &mut wrapped);
            let ghost requests = wrapped.log();
            let ghost policy = self.children()[i as int].policy;
            proof {
                assert(self.children().len() == was.children().len());
                assert(self.ownership() == was.ownership());
                assert(was.wf() ==> self.wf());
            }
            self.resolve_child_controller(wrapped, i);
            let ghost answer = result;
            self.children[i].update_error = match result {
                Ok(()) => None,
                Err(error) => Some(error),
            };
            proof {
                assert(before.children[i as int].policy.on_resolver_update(
                    update,
                    config,
                    Some(Seq::empty()),
                    &policy,
                    Some(requests),
                    answer,
                ));
                assert(is_taken_in(
                    before.children,
                    before.ownership,
                    i,
                    policy,
                    requests,
                    rejection(answer),
                    self.children(),
                    self.ownership(),
                ));
                let earlier = stages;
                stages = stages.push(self.kept());
                assert forall|k: int| 0 <= k < i + 1 implies #[trigger] is_delivery_step(
                    stages,
                    given,
                    config,
                    k,
                ) by {
                    if k < i {
                        assert(is_delivery_step(earlier, given, config, k));
                        assert(stages[k] == earlier[k]);
                        assert(stages[k + 1] == earlier[k + 1]);
                    } else {
                        assert(stages[k] == before);
                        assert(stages[k + 1] == self.kept());
                        assert(has_taken_update(
                            stages[k].children,
                            stages[k].ownership,
                            k as usize,
                            given[k],
                            config,
                            stages[k + 1].children,
                            stages[k + 1].ownership,
                        ));
                    }
                }
            }
            i += 1;
        }
        proof {
            assert(is_delivery(stages, given, config, old(self).kept(), self.kept()));
        }
    }

    /// Takes a new result of name resolution.
    ///
    /// The update is split by the sharder. If the sharder rejects it, its
    /// error is returned and nothing has changed: no child has heard of the
    /// update and no request has been made. Otherwise the children are
    /// replaced as `reconcile` describes, each child is handed its share in
    /// order, and the result is `Ok` whatever the children answered.
    pub fn resolver_update<C: ChannelController>(
        &mut self,
        resolver_update: ResolverUpdate,
        config: Option<&<B::Policy as LbPolicy>::Config>,
        channel_controller: &mut C,
    ) -> (result: Result<(), LbError>)
        ensures
            final(self).sharder() == old(self).sharder(),
            final(self).work_scheduler() == old(self).work_scheduler(),
            match result {
                Err(error) => {
                    &&& old(self).sharder().shards(
                        &resolver_update,
                        &Err::<Vec<ChildUpdate<T, B>>, LbError>(error),
                    )
                    &&& *final(self) == *old(self)
                    &&& *final(channel_controller) == *old(channel_controller)
                },
                Ok(_) => {
                    &&& final(self).wf()
                    &&& exists|child_updates: Vec<ChildUpdate<T, B>>|
                        {
                            &&& #[trigger] old(self).sharder().shards(
                                &resolver_update,
                                &Ok::<Vec<ChildUpdate<T, B>>, LbError>(child_updates),
                            )
                            &&& child_identifiers(final(self).children()) == update_identifiers(
                                child_updates@,
                            )
                            &&& is_replaced_and_told(
                                old(self).kept(),
                                child_updates@,
                                config,
                                final(self).kept(),
                            )
                        }
                },
            },
    {
        let child_updates = match self.shard_update.shard(resolver_update) {
            Ok(child_updates) => child_updates,
            Err(error) => {
                return Err(error);
            },
        };
        let ghost sharded = child_updates;

        // Part the identifiers and builders from the updates.
        let n: usize = child_updates.len();
        let mut pending = reversed(child_updates);
        let mut entries: Vec<(T, Arc<B>)> = Vec::new();
        let mut updates: Vec<ResolverUpdate> = Vec::new();
        while pending.len() > 0
            invariant
                pending@.len() + entries@.len() == n,
                n == sharded@.len(),
                updates@.len() == entries@.len(),
                forall|k: int| 0 <= k < pending@.len() ==> pending@[k] == sharded@[n - 1 - k],
                forall|k: int|
                    0 <= k < entries@.len() ==> #[trigger] entries@[k] == (
                        sharded@[k].child_identifier,
                        sharded@[k].child_policy_builder,
                    ),
                forall|k: int|
                    0 <= k < updates@.len() ==> #[trigger] updates@[k] == sharded@[k].child_update,
            decreases pending@.len(),
        {
            let ghost position = entries@.len() as int;
            match pending.pop() {
                Some(child_update) => {
                    assert(child_update == sharded@[position]);
                    entries.push((child_update.child_identifier,
                        child_update.child_policy_builder));
                    updates.push(child_update.child_update);
                },
                None => {},
            }
        }
        let ghost wanted = entries@;
        let ghost shares = updates@;
        let dropped = self.reconcile(entries);
        let ghost replaced = self.kept();
        remove_subchannels(&dropped, channel_controller);
        self.deliver(updates, config, channel_controller);
        proof {
            assert(wanted =~= share_entries(sharded@));
            assert(shares =~= share_updates(sharded@));
            let stages = choose|stages: Seq<Kept<T, B::Policy>>| #[trigger]
                is_delivery(stages, shares, config, replaced, self.kept());
            assert(is_delivery(stages, share_updates(sharded@), config, replaced, self.kept()));
            assert(is_replaced_and_told(old(self).kept(), sharded@, config, self.kept()));
            assert(child_identifiers(self.children()) =~= update_identifiers(sharded@)) by {
                assert forall|k: int| 0 <= k < sharded@.len() implies child_identifiers(
                    self.children(),
                )[k] == update_identifiers(sharded@)[k] by {
                    assert(self.children()[k].identifier == wanted[k].0);
                }
            }
        }
        Ok(())
    }

    /// Makes one call into the child at `child_idx`, through a controller
    /// of its own, and takes in what the child did: its state change goes to
    /// its policy, its picker update to its own slot, and the subchannels
    /// that it creates become its own. The other children are not touched.
    fn with_child<C: ChannelController>(
        &mut self,
        child_idx: usize,
        event: ChildEvent<'_>,
        channel_controller: &mut C,
    )
        requires
            child_idx < old(self).children().len(),
        ensures
            final(self).sharder() == old(self).sharder(),
            final(self).work_scheduler() == old(self).work_scheduler(),
            old(self).wf() ==> final(self).wf(),
            match event {
                ChildEvent::SubchannelUpdate(subchannel, state) => has_heard(
                    old(self).children(),
                    old(self).ownership(),
                    child_idx,
                    *subchannel,
                    *state,
                    final(self).children(),
                    final(self).ownership(),
                ),
                ChildEvent::Work => has_worked(
                    old(self).children(),
                    old(self).ownership(),
                    child_idx,
                    final(self).children(),
                    final(self).ownership(),
                ),
            },
    {
        let mut wrapped = WrappedController::new(channel_controller);
        match event {
            ChildEvent::SubchannelUpdate(subchannel, state) => {
                self.children[child_idx].policy.subchannel_update(subchannel, state, &mut wrapped);
            },
            ChildEvent::Work => {
                self.children[child_idx].policy.work(&mut wrapped);
            },
        }
        let ghost requests = wrapped.log();
        let ghost policy = self.children()[child_idx as int].policy;
        proof {
            assert(self.children().len() == old(self).children().len());
            assert(self.ownership() == old(self).ownership());
            assert(old(self).wf() ==> self.wf());
        }
        self.resolve_child_controller(wrapped, child_idx);
        proof {
            assert(is_taken_in(
                old(self).children(),
                old(self).ownership(),
                child_idx,
                policy,
                requests,
                old(self).children()[child_idx as int].update_error,
                self.children(),
                self.ownership(),
            ));
        }
    }

    /// Passes the new state of a subchannel on to the child that owns it.
    ///
    /// A subchannel that no child owns is ignored: nothing changes and no
    /// request is made. Otherwise the owner, and only the owner, is handed
    /// the subchannel, the state and a controller of its own, and what it
    /// does is taken in: the other children keep their policy and their
    /// state, subchannels that the owner creates during the call become its
    /// own, and those that it lets go of leave the ownership map.
    pub fn subchannel_update<C: ChannelController>(
        &mut self,
        subchannel: &Subchannel,
        state: &SubchannelState,
        channel_controller: &mut C,
    )
        ensures
            final(self).sharder() == old(self).sharder(),
            final(self).work_scheduler() == old(self).work_scheduler(),
            old(self).wf() ==> final(self).wf(),
            final(self).children().len() == old(self).children().len(),
            if old(self).has_owner(subchannel.id()) {
                has_heard(
                    old(self).children(),
                    old(self).ownership(),
                    old(self).ownership()[subchannel.id()],
                    *subchannel,
                    *state,
                    final(self).children(),
                    final(self).ownership(),
                )
            } else {
                &&& *final(self) == *old(self)
                &&& *final(channel_controller) == *old(channel_controller)
            },
    {
        let child_idx = match self.owner(subchannel) {
            Some(child_idx) => child_idx,
            None => {
                return ;
            },
        };
        if child_idx >= self.children.len() {
            return ;
        }
        self.with_child(child_idx, ChildEvent::SubchannelUpdate(subchannel, state),
            channel_controller);
    }

    /// The subchannels that the children hold, each with the position of
    /// its child, in the order of `visits`.
    fn plan_visits(&self) -> (plan: Vec<(usize, Subchannel)>)
        ensures
            plan@ == visits(self.children()),
            forall|k: int| 0 <= k < plan@.len() ==> (#[trigger] plan@[k]).0 < self.children().len(),
    {
        let mut plan: Vec<(usize, Subchannel)> = Vec::new();
        let n: usize = self.children.len();
        let mut i: usize = 0;
        while i < n
            invariant
                i <= n,
                n == self.children@.len(),
                plan@ == visits(self.children@.take(i as int)),
                forall|k: int| 0 <= k < plan@.len() ==> (#[trigger] plan@[k]).0 < n,
            decreases n - i,
        {
            let ghost earlier = plan@;
            let m: usize = self.children[i].subchannels.len();
            let mut j: usize = 0;
            while j < m
                invariant
                    j <= m,
                    i < n,
                    n == self.children@.len(),
                    m == self.children@[i as int].subchannels@.len(),
                    plan@ == earlier + visits_of(
                        i,
                        self.children@[i as int].subchannels@.take(j as int),
                    ),
                    forall|k: int| 0 <= k < plan@.len() ==> (#[trigger] plan@[k]).0 < n,
                decreases m - j,
            {
                plan.push((i, self.children[i].subchannels[j].clone()));
                proof {
                    let own = self.children@[i as int].subchannels@;
                    assert(plan@ =~= earlier + visits_of(i, own.take(j + 1)));
                }
                j += 1;
            }
            proof {
                let own = self.children@[i as int].subchannels@;
                assert(own.take(m as int) == own);
                let grown = self.children@.take(i + 1);
                assert(grown.drop_last() == self.children@.take(i as int));
                assert(grown.last() == self.children@[i as int]);
            }
            i += 1;
        }
        proof {
            assert(self.children@.take(n as int) == self.children@);
        }
        plan
    }

    /// Passes a batch of subchannel states on: every child hears of each of
    /// its own subchannels that the batch reports on, child by child in the
    /// order of the children and subchannel by subchannel in the order in
    /// which the child created them. Which subchannels a child holds is
    /// settled before the first child is called. Each call is made through
    /// a controller of the child's own, and what the child does is taken in
    /// before the next call. A report on a subchannel that no child holds
    /// reaches nobody. No child is added or removed.
    pub fn subchannel_updates<C: ChannelController>(
        &mut self,
        update: &SubchannelUpdate,
        channel_controller: &mut C,
    )
        ensures
            final(self).sharder() == old(self).sharder(),
            final(self).work_scheduler() == old(self).work_scheduler(),
            old(self).wf() ==> final(self).wf(),
            final(self).children().len() == old(self).children().len(),
            forall|k: int|
                0 <= k < old(self).children().len()
                    ==> (#[trigger] final(self).children()[k]).identifier
                    == old(self).children()[k].identifier,
            exists|stages: Seq<Kept<T, B::Policy>>| #[trigger]
                is_batch(stages, update@, old(self).kept(), final(self).kept()),
    {
        let plan = self.plan_visits();
        let n: usize = plan.len();
        let mut k: usize = 0;
        let ghost mut stages: Seq<Kept<T, B::Policy>> = seq![self.kept()];
        while k < n
            invariant
                k <= n,
                n == plan@.len(),
                plan@ == visits(old(self).children()),
                self.children@.len() == old(self).children@.len(),
                forall|j: int|
                    0 <= j < plan@.len() ==> (#[trigger] plan@[j]).0 < self.children@.len(),
                self.shard_update == old(self).shard_update,
                self.work_scheduler == old(self).work_scheduler,
                old(self).wf() ==> self.wf(),
                forall|j: int|
                    0 <= j < self.children@.len() ==> (#[trigger] self.children@[j]).identifier
                        == old(self).children@[j].identifier,
                stages.len() == k + 1,
                stages[0] == old(self).kept(),
                stages.last() == self.kept(),
                forall|j: int|
                    0 <= j < k ==> #[trigger] is_batch_step(
                        stages,
                        plan@,
                        update@,
                        j,
                    ),
            decreases n - k,
        {
            let ghost before = self.kept();
            assert(plan@[k as int].0 < self.children@.len());
            let reported = update.get(&plan[k].1);
            match reported {
                Some(state) => {
                    self.with_child(
                        plan[k].0,
                        ChildEvent::SubchannelUpdate(&plan[k].1, state),
                        channel_controller,
                    );
                },
                None => {},
            }
            proof {
                let earlier = stages;
                stages = stages.push(self.kept());
                assert forall|j: int| 0 <= j < k + 1 implies #[trigger] is_batch_step(
                    stages,
                    plan@,
                    update@,
                    j,
                ) by {
                    if j < k {
                        assert(is_batch_step(earlier, plan@, update@, j));
                        assert(stages[j] == earlier[j]);
                        assert(stages[j + 1] == earlier[j + 1]);
                    } else {
                        assert(stages[j] == before);
                        assert(stages[j + 1] == self.kept());
                        if update@.contains_key(plan@[j].1.id()) {
                            assert(has_heard(
                                stages[j].children,
                                stages[j].ownership,
                                plan@[j].0,
                                plan@[j].1,
                                update@[plan@[j].1.id()],
                                stages[j + 1].children,
                                stages[j + 1].ownership,
                            ));
                        } else {
                            assert(self.kept() == before);
                        }
                    }
                }
            }
            k += 1;
        }
        proof {
            assert(is_batch(stages, update@, old(self).kept(), self.kept()));
        }
    }

    /// Gives the child at `child_idx` its turn in a round of work. If
    /// `requested` says that the child has asked for work, its `work` is
    /// called, through a controller of the child's own, and what the child
    /// does is taken in. If not, nothing happens.
    pub fn work_turn<C: ChannelController>(
        &mut self,
        child_idx: usize,
        requested: bool,
        channel_controller: &mut C,
    )
        requires
            child_idx < old(self).children().len(),
        ensures
            final(self).sharder() == old(self).sharder(),
            final(self).work_scheduler() == old(self).work_scheduler(),
            old(self).wf() ==> final(self).wf(),
            if requested {
                has_worked(
                    old(self).children(),
                    old(self).ownership(),
                    child_idx,
                    final(self).children(),
                    final(self).ownership(),
                )
            } else {
                *final(self) == *old(self) && *final(channel_controller) == *old(channel_controller)
            },
    {
        if requested {
            self.with_child(child_idx, ChildEvent::Work, channel_controller);
        }
    }

    /// Calls `work` on every child that has asked for it since it was last
    /// called, in the order of the children. A child that has not asked is
    /// not called. Each call is made through a controller of the child's
    /// own, and what the child does is taken in before the next child has
    /// its turn. No child is added or removed.
    pub fn work<C: ChannelController>(&mut self, channel_controller: &mut C)
        ensures
            final(self).sharder() == old(self).sharder(),
            final(self).work_scheduler() == old(self).work_scheduler(),
            old(self).wf() ==> final(self).wf(),
            final(self).children().len() == old(self).children().len(),
            forall|k: int|
                0 <= k < old(self).children().len()
                    ==> (#[trigger] final(self).children()[k]).identifier
                    == old(self).children()[k].identifier,
            exists|stages: Seq<Kept<T, B::Policy>>| #[trigger]
                is_work_round(stages, old(self).kept(), final(self).kept()),
    {
        let n: usize = self.children.len();
        let mut i: usize = 0;
        let ghost mut stages: Seq<Kept<T, B::Policy>> = seq![self.kept()];
        while i < n
            invariant
                i <= n,
                n == self.children@.len(),
                n == old(self).children@.len(),
                self.shard_update == old(self).shard_update,
                self.work_scheduler == old(self).work_scheduler,
                old(self).wf() ==> self.wf(),
                forall|k: int|
                    0 <= k < n ==> (#[trigger] self.children@[k]).identifier
                        == old(self).children@[k].identifier,
                stages.len() == i + 1,
                stages[0] == old(self).kept(),
                stages.last() == self.kept(),
                forall|k: int| 0 <= k < i ==> #[trigger] is_work_step(stages, k),
            decreases n - i,
        {
            let ghost before = self.kept();
            let asked = take_request(&self.children[i].wants_work);
            self.work_turn(i, asked, channel_controller);
            proof {
                let earlier = stages;
                stages = stages.push(self.kept());
                assert forall|k: int| 0 <= k < i + 1 implies #[trigger] is_work_step(stages, k) by {
                    if k < i {
                        assert(is_work_step(earlier, k));
                        assert(stages[k] == earlier[k]);
                        assert(stages[k + 1] == earlier[k + 1]);
                    } else {
                        assert(stages[k] == before);
                        assert(stages[k + 1] == self.kept());
                        if asked {
                            assert(has_worked(
                                stages[k].children,
                                stages[k].ownership,
                                k as usize,
                                stages[k + 1].children,
                                stages[k + 1].ownership,
                            ));
                        }
                    }
                }
            }
            i += 1;
        }
        proof {
            assert(is_work_round(stages, old(self).kept(), self.kept()));
        }
    }
}

/// What a child is called for.
enum ChildEvent<'a> {
    /// One of its subchannels changed state.
    SubchannelUpdate(&'a Subchannel, &'a SubchannelState),
    /// It asked for a call of `work`.
    Work,
}

/// The subchannels of an old child that a new child takes over follow it
/// to its new position.
pub proof fn lemma_subchannels_follow_their_child<T: PartialEq>(
    old_ids: Seq<T>,
    new_ids: Seq<T>,
    ownership: Map<u32, usize>,
    i: int,
    id: u32,
)
    requires
        0 <= i < new_ids.len() <= usize::MAX,
        ownership.contains_key(id),
        ownership[id] < old_ids.len(),
        reused(old_ids, new_ids, i) == Some(ownership[id] as int),
    ensures
        renumbered(ownership, successors(old_ids, new_ids)).contains_key(id),
        renumbered(ownership, successors(old_ids, new_ids))[id] == i,
{
    lemma_reused_is_successor(old_ids, new_ids, i, ownership[id] as int);
}

/// The subchannels of an old child whose identifier equals none of the new
/// ones are in the ownership map no more.
pub proof fn lemma_unmatched_child_is_dropped<T: PartialEq>(
    old_ids: Seq<T>,
    new_ids: Seq<T>,
    ownership: Map<u32, usize>,
    id: u32,
)
    requires
        ownership.contains_key(id),
        ownership[id] < old_ids.len(),
        forall|i: int|
            0 <= i < new_ids.len() ==> !old_ids[ownership[id] as int].eq_spec(
                &#[trigger] new_ids[i],
            ),
    ensures
        !renumbered(ownership, successors(old_ids, new_ids)).contains_key(id),
{
    let j = ownership[id] as int;
    let named = targets(old_ids, new_ids);
    lemma_first_index(named, j);
    if first_index(named, j) < named.len() {
        let i = first_index(named, j);
        lemma_last_match(old_ids, new_ids[i]);
        assert(old_ids[j].eq_spec(&new_ids[i]));
    }
}

/// Where the identifiers of the old children differ from one another, and
/// those of the new children too, a new child takes over an old one exactly
/// when their identifiers are equal. So with old children A, B, C and new
/// children B, C, D, the new B and C take over the old B and C, nobody takes
/// over A, and D is built anew.
pub proof fn lemma_reused_when_distinct<T: PartialEq>(
    old_ids: Seq<T>,
    new_ids: Seq<T>,
    i: int,
    j: int,
)
    requires
        vstd::laws_eq::obeys_eq_spec_properties::<T>(),
        0 <= i < new_ids.len(),
        0 <= j < old_ids.len(),
        forall|a: int, b: int|
            0 <= a < b < old_ids.len() ==> !(#[trigger] old_ids[a].eq_spec(&old_ids[b])),
        forall|a: int, b: int|
            0 <= a < b < new_ids.len() ==> !(#[trigger] new_ids[a].eq_spec(&new_ids[b])),
    ensures
        reused(old_ids, new_ids, i) == Some(j) <==> old_ids[j].eq_spec(&new_ids[i]),
{
    reveal(vstd::laws_eq::obeys_eq_spec_properties);
    let named = targets(old_ids, new_ids);
    lemma_last_match(old_ids, new_ids[i]);
    lemma_first_index(named, named[i]);
    if old_ids[j].eq_spec(&new_ids[i]) {
        let found = last_match(old_ids, new_ids[i]);
        assert(found >= 0);
        if found != j {
            assert(old_ids[found].eq_spec(&new_ids[i]));
            assert(new_ids[i].eq_spec(&old_ids[j]));
            assert(old_ids[found].eq_spec(&old_ids[j]));
            assert(old_ids[j].eq_spec(&old_ids[found]));
        }
        let first = first_index(named, j);
        if first != i {
            assert(named[first] == j);
            lemma_last_match(old_ids, new_ids[first]);
            assert(old_ids[j].eq_spec(&new_ids[first]));
            assert(new_ids[first].eq_spec(&old_ids[j]));
            assert(new_ids[first].eq_spec(&new_ids[i]));
        }
    }
}

/// Where each entry of an ownership map points after the children have
/// been renumbered: an entry whose child moved to a new position follows it
/// there, and an entry whose child is gone is dropped.
pub open spec fn renumbered(
    ownership: Map<u32, usize>,
    moved_to: Seq<Option<usize>>,
) -> Map<u32, usize> {
    Map::new(
        |id: u32|
            ownership.contains_key(id) && ownership[id] < moved_to.len()
                && moved_to[ownership[id] as int] is Some,
        |id: u32| moved_to[ownership[id] as int]->0,
    )
}

fn renumber(ownership: &HashMap<u32, usize>, moved_to: &Vec<Option<usize>>) -> (result: HashMap<
    u32,
    usize,
>)
    ensures
        result@ == renumbered(ownership@, moved_to@),
{
    broadcast use vstd::std_specs::hash::group_hash_axioms;

    let mut result: HashMap<u32, usize> = HashMap::new();
    let ghost target = renumbered(ownership@, moved_to@);
    let ghost keys: Seq<u32> = ownership.keys().remaining().unref();
    let ghost mut visited: int = 0;
    for key in it: ownership.keys()
        invariant
            target == renumbered(ownership@, moved_to@),
            it.seq().unref() == keys,
            keys.to_set() == ownership@.dom(),
            visited == it.index(),
            forall|id: u32| #[trigger]
                result@.contains_key(id) ==> target.contains_key(id) && result@[id] == target[id],
            forall|k: int|
                0 <= k < visited ==> (#[trigger] target.contains_key(keys[k])
                    ==> result@.contains_key(keys[k])),
    {
        let id: u32 = *key;
        proof {
            assert(keys[visited] == id);
            assert(keys.contains(id));
            assert(keys.to_set().contains(id));
            assert(ownership@.dom().contains(id));
        }
        let old_index = match ownership.get(key) {
            Some(index) => *index,
            None => {
                proof {
                    assert(false);
                }
                0
            },
        };
        if old_index < moved_to.len() {
            match moved_to[old_index] {
                Some(new_index) => {
                    result.insert(id, new_index);
                },
                None => {},
            }
        }
        proof {
            visited = visited + 1;
        }
    }
    proof {
        assert(visited == keys.len());
        assert forall|id: u32| target.contains_key(id) implies result@.contains_key(id) by {
            assert(ownership@.dom().contains(id));
            assert(keys.to_set().contains(id));
            let k = choose|k: int| 0 <= k < keys.len() && keys[k] == id;
            assert(target.contains_key(keys[k]));
        }
        assert(result@ =~= target);
    }
    result
}


} // verus!
