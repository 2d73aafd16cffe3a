//! Resolver builders by URL scheme.

use crate::client::load_balancing::registry::{entry_map, find_name, put_entry};
use crate::client::name_resolution::{ResolverBuilder, ResolverOptions, Target};
use std::sync::Arc;
use tokio::sync::Notify;
use vstd::prelude::*;

verus! {

/// A resolver builder that can be handed around: every copy builds with the
/// same builder.
pub struct SharedResolverBuilder<B> {
    rb: Arc<B>,
}

impl<B: ResolverBuilder> SharedResolverBuilder<B> {
    /// The builder that does the building.
    pub closed spec fn inner(&self) -> Arc<B> {
        self.rb
    }

    /// Makes `rb` shareable.
    pub fn new(rb: B) -> (shared: SharedResolverBuilder<B>)
        ensures
            *shared.inner() == rb,
    {
        SharedResolverBuilder { rb: Arc::new(rb) }
    }
}

impl<B> Clone for SharedResolverBuilder<B> {
    fn clone(&self) -> (copy: SharedResolverBuilder<B>)
        ensures
            copy == *self,
    {
        SharedResolverBuilder { rb: self.rb.clone() }
    }
}

impl<B: ResolverBuilder> ResolverBuilder for SharedResolverBuilder<B> {
    type Resolver = B::Resolver;

    /// What the builder inside builds.
    fn build(
        &self,
        target: Target,
        resolve_now: Arc<Notify>,
        options: ResolverOptions,
    ) -> (resolver: B::Resolver)
        ensures
            call_ensures(B::build, (&*self.inner(), target, resolve_now, options), resolver),
    {
        self.rb.build(target, resolve_now, options)
    }

    /// The scheme that the builder inside reports.
    fn scheme(&self) -> (scheme: &'static str)
        ensures
            call_ensures(B::scheme, (&*self.inner(),), scheme),
    {
        self.rb.scheme()
    }

    /// The default authority that the builder inside reports.
    fn default_authority(&self, target: &Target) -> (authority: String)
        ensures
            call_ensures(B::default_authority, (&*self.inner(), target), authority),
    {
        self.rb.default_authority(target)
    }
}

/// A registry to store and retrieve name resolvers. Resolvers are indexed
/// by the URL scheme they are intended to handle; a scheme holds one
/// builder at a time.
pub struct ResolverRegistry<B> {
    m: Vec<(String, SharedResolverBuilder<B>)>,
}

impl<B> View for ResolverRegistry<B> {
    type V = Map<Seq<char>, SharedResolverBuilder<B>>;

    /// The builder registered for each scheme.
    closed spec fn view(&self) -> Map<Seq<char>, SharedResolverBuilder<B>> {
        entry_map(self.m@)
    }
}

impl<B: ResolverBuilder> ResolverRegistry<B> {
    /// Construct an empty name resolver registry.
    pub fn new() -> (registry: ResolverRegistry<B>)
        ensures
            registry@ == Map::<Seq<char>, SharedResolverBuilder<B>>::empty(),
    {
        let registry = ResolverRegistry { m: Vec::new() };
        proof {
            assert(registry@ =~= Map::<Seq<char>, SharedResolverBuilder<B>>::empty());
        }
        registry
    }

    /// Add a name resolver into the registry, under the scheme that it
    /// reports and in place of any builder registered for that scheme
    /// before.
    pub fn add_builder(&mut self, builder: SharedResolverBuilder<B>)
        ensures
            exists|scheme: &'static str|
                {
                    &&& #[trigger] call_ensures(
                        SharedResolverBuilder::<B>::scheme,
                        (&builder,),
                        scheme,
                    )
                    &&& final(self)@ == old(self)@.insert(scheme@, builder)
                },
    {
        let scheme = builder.scheme();
        put_entry(&mut self.m, scheme, builder);
    }

    /// Retrieve a name resolver from the registry, or None if not found.
    pub fn get_scheme(&self, name: &str) -> (builder: Option<SharedResolverBuilder<B>>)
        ensures
            builder == (if self@.contains_key(name@) {
                Some(self@[name@])
            } else {
                None
            }),
    {
        let index = find_name(&self.m, name);
        if index < self.m.len() {
            Some(self.m[index].1.clone())
        } else {
            None
        }
    }
}

} // verus!
