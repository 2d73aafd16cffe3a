//! Publication of the newest value to consumers that may look at any time.
//!
//! A producer replaces the value; each consumer remembers which version it
//! saw last. A consumer that asks for something newer than what it saw gets
//! the newest value or nothing, never an older one: values published in
//! between may be skipped, the last one is not.

use std::sync::Arc;
use vstd::prelude::*;

verus! {

/// The version that follows `version`. After `u64::MAX` the count starts
/// again at zero.
pub open spec fn next_version(version: u64) -> u64 {
    if version == u64::MAX {
        0
    } else {
        (version + 1) as u64
    }
}

/// The version reached from `version` by `updates` updates.
pub open spec fn nth_version(version: u64, updates: nat) -> u64 {
    ((version + updates) % 0x1_0000_0000_0000_0000) as u64
}

/// No update leaves the version as it is.
pub proof fn lemma_nth_version_zero(version: u64)
    ensures
        nth_version(version, 0) == version,
{
}

/// Updates add up.
pub proof fn lemma_nth_version_step(version: u64, updates: nat)
    ensures
        nth_version(version, updates + 1) == next_version(nth_version(version, updates)),
{
    let m = 0x1_0000_0000_0000_0000int;
    let a = version + updates;
    vstd::arithmetic::div_mod::lemma_fundamental_div_mod(a, m);
    let q = a / m;
    let r = a % m;
    if r == m - 1 {
        assert(a + 1 == m * (q + 1) + 0) by (nonlinear_arith)
            requires
                a == m * q + r,
                r == m - 1,
        ;
        vstd::arithmetic::div_mod::lemma_fundamental_div_mod_converse(a + 1, m, q + 1, 0);
    } else {
        vstd::arithmetic::div_mod::lemma_fundamental_div_mod_converse(a + 1, m, q, r + 1);
    }
}

/// A consumer never mistakes news for something it has seen: after at least
/// one update, and fewer than 2^64 of them, the version differs from the
/// one that the consumer saw, so the next look yields the newest value.
pub proof fn lemma_news_is_noticed(seen: u64, updates: nat)
    requires
        0 < updates < 0x1_0000_0000_0000_0000,
    ensures
        nth_version(seen, updates) != seen,
{
    let m = 0x1_0000_0000_0000_0000int;
    let a = seen + updates;
    if a % m == seen {
        vstd::arithmetic::div_mod::lemma_fundamental_div_mod(a, m);
        let q = a / m;
        assert(updates == m * q) by (nonlinear_arith)
            requires
                a == m * q + seen,
                a == seen + updates,
        ;
        assert(false) by (nonlinear_arith)
            requires
                updates == m * q,
                0 < updates < m,
        ;
    }
}

/// The newest value of something that is published again and again.
pub struct Watcher<T> {
    value: Option<Arc<T>>,
    version: u64,
}

impl<T> Watcher<T> {
    /// The newest value, if any was published.
    pub closed spec fn latest(&self) -> Option<Arc<T>> {
        self.value
    }

    /// The version of the newest value: the number of updates so far,
    /// counted modulo 2^64.
    pub closed spec fn version(&self) -> u64 {
        self.version
    }

    /// A watcher in which nothing has been published.
    pub fn new() -> (watcher: Watcher<T>)
        ensures
            watcher.latest() is None,
            watcher.version() == 0,
    {
        Watcher { value: None, version: 0 }
    }

    /// Publishes `item` in place of the value published before.
    pub fn update(&mut self, item: T)
        ensures
            final(self).latest() matches Some(value) && *value == item,
            final(self).version() == next_version(old(self).version()),
    {
        self.value = Some(Arc::new(item));
        self.version = if self.version == u64::MAX {
            0
        } else {
            self.version + 1
        };
    }

    /// The newest value, if any was published.
    pub fn cur(&self) -> (value: Option<Arc<T>>)
        ensures
            value == self.latest(),
    {
        match &self.value {
            Some(value) => Some(value.clone()),
            None => None,
        }
    }

    /// A consumer that has seen nothing yet: its first look yields the
    /// newest value if there is one.
    pub fn iter(&self) -> (consumer: WatcherIter)
        ensures
            consumer.seen() is None,
    {
        WatcherIter { seen: None }
    }
}

/// One consumer of a watcher.
pub struct WatcherIter {
    seen: Option<u64>,
}

impl WatcherIter {
    /// The version that the consumer saw last, if it has seen one.
    pub closed spec fn seen(&self) -> Option<u64> {
        self.seen
    }

    /// Whether `watcher` holds a value that this consumer has not seen.
    pub open spec fn has_news<T>(&self, watcher: &Watcher<T>) -> bool {
        watcher.latest() is Some && self.seen() != Some(watcher.version())
    }

    /// Looks for a value that the consumer has not seen. If there is one,
    /// the newest value is returned and counts as seen. If there is none,
    /// `None` is returned and the consumer has to wait for the next update.
    pub fn next<T>(&mut self, watcher: &Watcher<T>) -> (item: Option<Arc<T>>)
        ensures
            old(self).has_news(watcher) ==> {
                &&& item == watcher.latest()
                &&& final(self).seen() == Some(watcher.version())
                &&& !final(self).has_news(watcher)
            },
            !old(self).has_news(watcher) ==> {
                &&& item is None
                &&& final(self).seen() == old(self).seen()
            },
    {
        let value = match &watcher.value {
            Some(value) => value,
            None => {
                return None;
            },
        };
        let fresh = match self.seen {
            Some(version) => version != watcher.version,
            None => true,
        };
        if fresh {
            self.seen = Some(watcher.version);
            Some(value.clone())
        } else {
            None
        }
    }
}

/// One step in the life of a watcher and one of its consumers.
pub enum WatchStep<T> {
    /// The producer publishes the value.
    Publish(T),
    /// The consumer looks for a value that it has not seen.
    Look,
}

/// What a watcher and one of its consumers have come to.
pub struct Watched<T> {
    /// Every value published, oldest first.
    pub published: Seq<T>,
    /// For each value that the consumer got, its position in `published`,
    /// in the order in which the consumer got them.
    pub caught: Seq<int>,
    /// The version that the consumer saw last, if it has seen one.
    pub seen: Option<u64>,
}

/// A watcher in which nothing has been published, with a consumer that
/// has seen nothing.
pub open spec fn unwatched<T>() -> Watched<T> {
    Watched { published: Seq::empty(), caught: Seq::empty(), seen: None }
}

/// What `before` becomes by one step. A publication moves the version on
/// as `update` does. A look yields the newest value if there is one and
/// its version is not the one that the consumer saw last, as `next` does.
pub open spec fn watch_step<T>(before: Watched<T>, step: WatchStep<T>) -> Watched<T> {
    match step {
        WatchStep::Publish(value) => Watched { published: before.published.push(value), ..before },
        WatchStep::Look => {
            let version = nth_version(0, before.published.len());
            if before.published.len() > 0 && before.seen != Some(version) {
                Watched {
                    published: before.published,
                    caught: before.caught.push(before.published.len() - 1),
                    seen: Some(version),
                }
            } else {
                before
            }
        },
    }
}

/// What a watcher and a consumer that start with nothing come to by the
/// given steps.
pub open spec fn watch_run<T>(steps: Seq<WatchStep<T>>) -> Watched<T>
    decreases steps.len(),
{
    if steps.len() == 0 {
        unwatched()
    } else {
        watch_step(watch_run(steps.drop_last()), steps.last())
    }
}

/// How many of the values published the consumer has neither got nor
/// skipped: those that came after the last one that it got.
pub open spec fn unseen<T>(state: Watched<T>) -> int {
    if state.caught.len() == 0 {
        state.published.len() as int
    } else {
        state.published.len() - 1 - state.caught.last()
    }
}

/// Whether at no point of the run 2^64 values or more had piled up that
/// the consumer had not looked at.
pub open spec fn looks_in_time<T>(steps: Seq<WatchStep<T>>) -> bool {
    forall|k: int|
        0 <= k <= steps.len() ==> unseen(#[trigger] watch_run(steps.take(k)))
            < 0x1_0000_0000_0000_0000
}

/// Versions that are fewer than 2^64 updates apart differ.
pub proof fn lemma_versions_differ(earlier: nat, later: nat)
    requires
        earlier < later,
        later - earlier < 0x1_0000_0000_0000_0000,
    ensures
        nth_version(0, earlier) != nth_version(0, later),
{
    let m = 0x1_0000_0000_0000_0000int;
    let gap = (later - earlier) as nat;
    lemma_news_is_noticed(nth_version(0, earlier), gap);
    vstd::arithmetic::div_mod::lemma_add_mod_noop(earlier as int, gap as int, m);
    vstd::arithmetic::div_mod::lemma_small_mod(gap, m as nat);
}

/// A consumer gets the values in the order in which they were published,
/// each at most once, and may skip values only for newer ones: the
/// positions of the values that it got go strictly up. A look that follows
/// a publication never comes back empty-handed and never yields an older
/// value than the newest: after a look, the consumer has got the value
/// published last. This holds of every run in which the consumer looks
/// before 2^64 values have piled up.
pub proof fn lemma_consumer_sees_the_newest<T>(steps: Seq<WatchStep<T>>)
    requires
        looks_in_time(steps),
    ensures
        ({
            let state = watch_run(steps);
            &&& forall|i: int|
                0 <= i < state.caught.len() ==> 0 <= #[trigger] state.caught[i]
                    < state.published.len()
            &&& forall|i: int, j: int|
                0 <= i < j < state.caught.len() ==> state.caught[i] < state.caught[j]
            &&& state.seen == (if state.caught.len() == 0 {
                None
            } else {
                Some(nth_version(0, (state.caught.last() + 1) as nat))
            })
            &&& steps.len() > 0 && steps.last() is Look && state.published.len() > 0
                ==> state.caught.len() > 0 && state.caught.last() == state.published.len() - 1
        }),
    decreases steps.len(),
{
    if steps.len() > 0 {
        let earlier = steps.drop_last();
        assert forall|k: int| 0 <= k <= earlier.len() implies unseen(
            #[trigger] watch_run(earlier.take(k)),
        ) < 0x1_0000_0000_0000_0000 by {
            assert(earlier.take(k) == steps.take(k));
        }
        lemma_consumer_sees_the_newest(earlier);
        let before = watch_run(earlier);
        let state = watch_run(steps);
        assert(earlier.take(earlier.len() as int) == earlier);
        assert(steps.take(earlier.len() as int) == earlier);
        assert(unseen(before) < 0x1_0000_0000_0000_0000);
        if steps.last() is Look && before.published.len() > 0 {
            if before.caught.len() > 0 && unseen(before) > 0 {
                lemma_versions_differ(
                    (before.caught.last() + 1) as nat,
                    before.published.len(),
                );
            }
        }
    }
}

/// Whether `state` describes `watcher` and `consumer`: the watcher holds
/// the value published last at the version that the publications have
/// led to, and the consumer has seen what `state` says.
pub open spec fn describes<T>(
    state: Watched<T>,
    watcher: Watcher<T>,
    consumer: WatcherIter,
) -> bool {
    &&& watcher.version() == nth_version(0, state.published.len())
    &&& consumer.seen() == state.seen
    &&& if state.published.len() == 0 {
        watcher.latest() is None
    } else {
        watcher.latest() matches Some(value) && *value == state.published.last()
    }
}

/// A call of `update` is a publication in the run.
pub proof fn lemma_update_is_a_step<T>(
    state: Watched<T>,
    watcher: Watcher<T>,
    consumer: WatcherIter,
    item: T,
    updated: Watcher<T>,
)
    requires
        describes(state, watcher, consumer),
        updated.latest() matches Some(value) && *value == item,
        updated.version() == next_version(watcher.version()),
    ensures
        describes(watch_step(state, WatchStep::Publish(item)), updated, consumer),
{
    lemma_nth_version_step(0, state.published.len());
}

/// A call of `next` is a look in the run: it yields a value when the look
/// catches one, and then the value caught.
pub proof fn lemma_next_is_a_step<T>(
    state: Watched<T>,
    watcher: Watcher<T>,
    consumer: WatcherIter,
    item: Option<Arc<T>>,
    looked: WatcherIter,
)
    requires
        describes(state, watcher, consumer),
        consumer.has_news(&watcher) ==> item == watcher.latest() && looked.seen() == Some(
            watcher.version(),
        ),
        !consumer.has_news(&watcher) ==> item is None && looked.seen() == consumer.seen(),
    ensures
        describes(watch_step(state, WatchStep::Look), watcher, looked),
        match item {
            Some(value) => {
                let after = watch_step(state, WatchStep::<T>::Look);
                &&& after.caught.len() == state.caught.len() + 1
                &&& *value == after.published[after.caught.last()]
            },
            None => watch_step(state, WatchStep::<T>::Look).caught == state.caught,
        },
{
}

} // verus!
