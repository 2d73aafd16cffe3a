//! The in-memory transport and its name resolver, as far as they decide
//! anything: how listeners are named, which target reaches a listener, and
//! what the resolver reports for a target.

use crate::client::load_balancing::nth_id;
use crate::client::name_resolution::{
    strip_leading_slash, without_leading_slash, Address, Endpoint, ResolverBuilder,
    ResolverData, ResolverOptions, ResolverRegistry, ResolverUpdate, SharedResolverBuilder,
    Target,
};
use std::sync::Arc;
use tokio::sync::Notify;
use vstd::prelude::*;
use vstd::string::StringExecFns;

verus! {

/// The address type of in-memory listeners, and the URL scheme of their
/// targets.
pub const INMEMORY_ADDRESS_TYPE: &'static str = "inmemory";

/// What every target of an in-memory listener starts with.
pub const INMEMORY_TARGET_PREFIX: &'static str = "inmemory:///";

/// Numbers the listeners of a process: each listener gets the number after
/// the one before, and after `u32::MAX` the count starts again at zero.
#[derive(Debug)]
pub struct ListenerIds {
    next: u32,
}

impl ListenerIds {
    /// The number that the next listener gets.
    pub closed spec fn upcoming(&self) -> u32 {
        self.next
    }

    /// A source whose first number is zero.
    pub fn new() -> (ids: ListenerIds)
        ensures
            ids.upcoming() == 0,
    {
        ListenerIds { next: 0 }
    }

    /// The id of the next listener: its number as text.
    pub fn allocate(&mut self) -> (id: String)
        ensures
            vstd::string::to_string_from_display_ensures::<u32>(&old(self).upcoming(), id),
            final(self).upcoming() == nth_id(old(self).upcoming(), 1),
    {
        let number = self.next;
        self.next = if number == u32::MAX {
            0
        } else {
            number + 1
        };
        number.to_string()
    }
}

/// The target under which a channel reaches the listener with the given
/// id.
pub fn listener_target(id: &str) -> (target: String)
    ensures
        target@ == INMEMORY_TARGET_PREFIX@ + id@,
{
    String::from_str(INMEMORY_TARGET_PREFIX).concat(id)
}

/// What the in-memory resolver reports for `target`: one endpoint with one
/// address, of the in-memory address type, whose text is the id of the
/// listener, which is the path of the target without its leading slash.
pub fn resolve(target: &Target) -> (update: ResolverUpdate)
    ensures
        update matches ResolverUpdate::Data(data) && {
            &&& data.service_config is None
            &&& data.endpoints@.len() == 1
            &&& data.endpoints@[0].addresses@.len() == 1
            &&& data.endpoints@[0].addresses@[0].address_type@ == INMEMORY_ADDRESS_TYPE@
            &&& data.endpoints@[0].addresses@[0].address@ == without_leading_slash(target.path@)
        },
{
    let id = strip_leading_slash(target.path.as_str());
    let address = Address::new(String::from_str(INMEMORY_ADDRESS_TYPE), id);
    ResolverUpdate::Data(ResolverData::new(vec![Endpoint::new(vec![address])]))
}

/// A resolver that has nothing to resolve again: an in-memory target names
/// its listener outright.
#[derive(Debug)]
pub struct NopResolver {}

impl NopResolver {
    /// Does nothing.
    pub fn resolve_now(&self) {
    }
}

/// Builds the resolvers of in-memory targets.
#[derive(Debug)]
pub struct InMemoryResolverBuilder {}

impl ResolverBuilder for InMemoryResolverBuilder {
    type Resolver = NopResolver;

    fn build(
        &self,
        target: Target,
        resolve_now: Arc<Notify>,
        options: ResolverOptions,
    ) -> NopResolver {
        NopResolver {  }
    }

    fn scheme(&self) -> (scheme: &'static str)
        ensures
            scheme@ == INMEMORY_ADDRESS_TYPE@,
    {
        INMEMORY_ADDRESS_TYPE
    }
}

/// The transport that connects to in-memory listeners.
#[derive(Debug)]
pub struct ClientTransport {}

impl ClientTransport {
    /// The transport. It holds nothing: listeners are found by their id.
    pub fn new() -> ClientTransport {
        ClientTransport {  }
    }
}

/// Registers the in-memory name resolver for its scheme.
pub fn reg(registry: &mut ResolverRegistry<InMemoryResolverBuilder>)
    ensures
        final(registry)@.dom() == old(registry)@.dom().insert(INMEMORY_ADDRESS_TYPE@),
        *final(registry)@[INMEMORY_ADDRESS_TYPE@].inner() == (InMemoryResolverBuilder {  }),
        forall|scheme: Seq<char>|
            scheme != INMEMORY_ADDRESS_TYPE@ && old(registry)@.contains_key(scheme)
                ==> #[trigger] final(registry)@[scheme] == old(registry)@[scheme],
{
    registry.add_builder(SharedResolverBuilder::new(InMemoryResolverBuilder {  }));
}

} // verus!
