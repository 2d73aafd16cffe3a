//! A channel controller that records what is asked of it.
//!
//! Policies run against the recorder. Whoever drives them takes the
//! recorded requests out afterwards and carries them out: hands the new
//! subchannels to the pool, installs the picker, wakes the resolver.

use crate::attributes::Attributes;
use crate::client::load_balancing::{
    lemma_restored_push, restored, ChannelController, ChannelOperations, LbState, Picker,
    Subchannel, SubchannelIds,
};
use crate::client::name_resolution::Address;
use std::sync::Arc;
use tokio::sync::Notify;
use vstd::prelude::*;

verus! {

/// A fresh wake-up primitive without a stored permit: a call of
/// `tokio::sync::Notify::new`.
#[verifier::external_body]
fn new_notify() -> Notify {
    Notify::new()
}

/// Whether `recorded` is the request `made`, up to the attributes of the
/// address in it.
pub open spec fn records<P>(recorded: ChannelOperations<P>, made: ChannelOperations<P>) -> bool {
    match made {
        ChannelOperations::CreateSubchannel(address, subchannel) => recorded
            matches ChannelOperations::CreateSubchannel(kept, handle) && kept.key() == address.key()
            && handle == subchannel,
        _ => recorded == made,
    }
}

/// Whether `kept` holds the requests `made`, one for one, each up to the
/// attributes of the address in it.
pub open spec fn is_copy_of<P>(
    kept: Seq<ChannelOperations<P>>,
    made: Seq<ChannelOperations<P>>,
) -> bool {
    kept.len() == made.len() && forall|i: int|
        0 <= i < kept.len() ==> records(#[trigger] kept[i], made[i])
}

/// A channel controller that keeps every request for later.
///
/// It keeps a copy of each request until the requests are taken out. Its
/// record is made of these copies: the requests that have not been taken
/// out yet, as they were made.
pub struct RecordingController<P> {
    ids: SubchannelIds,
    operations: Vec<ChannelOperations<P>>,
    attributes: Ghost<Map<nat, Attributes>>,
}

impl<P: Picker> RecordingController<P> {
    /// The requests recorded and not taken out yet, oldest first.
    pub closed spec fn pending(&self) -> Seq<ChannelOperations<P>> {
        self.operations@
    }

    /// The id that the next subchannel gets.
    pub closed spec fn next_id(&self) -> u32 {
        self.ids.upcoming()
    }

    /// A controller that has recorded nothing and numbers its subchannels
    /// from zero.
    pub fn new() -> (controller: RecordingController<P>)
        ensures
            controller.pending().len() == 0,
            controller.log().len() == 0,
            controller.next_id() == 0,
    {
        RecordingController {
            ids: SubchannelIds::new(),
            operations: Vec::new(),
            attributes: Ghost(Map::empty()),
        }
    }

    /// What is kept of the requests is a copy of the record.
    pub proof fn lemma_pending_is_copy(&self)
        ensures
            is_copy_of(self.pending(), self.log()),
    {
    }

    /// The number of requests recorded and not taken out yet.
    pub fn pending_count(&self) -> (count: usize)
        ensures
            count == self.pending().len(),
    {
        self.operations.len()
    }

    /// Takes out the requests recorded since the last call, oldest first.
    /// The record starts anew.
    pub fn take_operations(&mut self) -> (operations: Vec<ChannelOperations<P>>)
        ensures
            operations@ == old(self).pending(),
            final(self).pending().len() == 0,
            final(self).log().len() == 0,
            final(self).next_id() == old(self).next_id(),
    {
        let mut operations: Vec<ChannelOperations<P>> = Vec::new();
        std::mem::swap(&mut self.operations, &mut operations);
        operations
    }
}

impl<P: Picker> ChannelController for RecordingController<P> {
    type Picker = P;

    open spec fn keeps_record() -> bool {
        true
    }

    closed spec fn log(&self) -> Seq<ChannelOperations<P>> {
        restored(self.operations@, self.attributes@)
    }

    /// Makes a handle with the next id and records the request. The id is
    /// one that none of the last 2^32 - 1 subchannels of this controller
    /// has.
    fn new_subchannel(&mut self, address: &Address) -> (subchannel: Subchannel)
        ensures
            subchannel.id() == old(self).next_id(),
            final(self).next_id() == crate::client::load_balancing::nth_id(old(self).next_id(), 1),
            final(self).pending().len() == old(self).pending().len() + 1,
            final(self).pending().drop_last() == old(self).pending(),
            records(
                final(self).pending().last(),
                ChannelOperations::CreateSubchannel(*address, subchannel),
            ),
    {
        let id = self.ids.allocate();
        let subchannel = Subchannel::new(id, Arc::new(new_notify()));
        let copy = address.clone();
        proof {
            lemma_restored_push(
                self.operations@,
                self.attributes@,
                ChannelOperations::CreateSubchannel(copy, subchannel),
                address.attributes,
            );
            self.attributes@ = self.attributes@.insert(self.operations@.len(), address.attributes);
        }
        self.operations.push(ChannelOperations::CreateSubchannel(copy, subchannel.clone()));
        proof {
            assert(self.operations@.drop_last() == old(self).operations@);
        }
        subchannel
    }

    /// Records the update.
    fn update_picker(&mut self, update: LbState<P>)
        ensures
            final(self).next_id() == old(self).next_id(),
            final(self).pending() == old(self).pending().push(
                ChannelOperations::UpdatePicker(update),
            ),
    {
        proof {
            lemma_restored_push(
                self.operations@,
                self.attributes@,
                ChannelOperations::UpdatePicker(update),
                Attributes::nothing(),
            );
            self.attributes@ = self.attributes@.insert(
                self.operations@.len(),
                Attributes::nothing(),
            );
        }
        self.operations.push(ChannelOperations::UpdatePicker(update));
    }

    /// Records the request.
    fn remove_subchannel(&mut self, subchannel: &Subchannel)
        ensures
            final(self).next_id() == old(self).next_id(),
            final(self).pending() == old(self).pending().push(
                ChannelOperations::RemoveSubchannel(*subchannel),
            ),
    {
        proof {
            lemma_restored_push(
                self.operations@,
                self.attributes@,
                ChannelOperations::RemoveSubchannel(*subchannel),
                Attributes::nothing(),
            );
            self.attributes@ = self.attributes@.insert(
                self.operations@.len(),
                Attributes::nothing(),
            );
        }
        self.operations.push(ChannelOperations::RemoveSubchannel(subchannel.clone()));
    }

    /// Records the request.
    fn request_resolution(&mut self)
        ensures
            final(self).next_id() == old(self).next_id(),
            final(self).pending() == old(self).pending().push(ChannelOperations::RequestResolution),
    {
        proof {
            lemma_restored_push(
                self.operations@,
                self.attributes@,
                ChannelOperations::RequestResolution,
                Attributes::nothing(),
            );
            self.attributes@ = self.attributes@.insert(
                self.operations@.len(),
                Attributes::nothing(),
            );
        }
        self.operations.push(ChannelOperations::RequestResolution);
    }
}

} // verus!
