//! Policy builders by name.

use crate::client::load_balancing::LbPolicyBuilder;
use crate::sequence::{first_index, lemma_first_index, lemma_first_index_unique};
use std::sync::Arc;
use vstd::prelude::*;

verus! {

/// The position of `name` among `names`: the first entry that equals it, or
/// the number of entries if none does.
pub fn find_name<V>(entries: &Vec<(String, V)>, name: &str) -> (index: usize)
    ensures
        index == first_index(entry_names(entries@), name@),
        index <= entries@.len(),
{
    let wanted = name.to_owned();
    let n: usize = entries.len();
    let mut i: usize = 0;
    while i < n
        invariant
            n == entries@.len(),
            i <= n,
            wanted@ == name@,
            forall|j: int| 0 <= j < i ==> entry_names(entries@)[j] != name@,
        decreases n - i,
    {
        if entries[i].0 == wanted {
            proof {
                assert(entry_names(entries@)[i as int] == name@);
                lemma_first_index_unique(entry_names(entries@), name@, i as int);
            }
            return i;
        }
        assert(entry_names(entries@)[i as int] != name@);
        i += 1;
    }
    proof {
        lemma_first_index_unique(entry_names(entries@), name@, n as int);
    }
    i
}

/// The names of the given entries, in order.
pub open spec fn entry_names<V>(entries: Seq<(String, V)>) -> Seq<Seq<char>> {
    Seq::new(entries.len(), |i: int| entries[i].0@)
}

/// What a list of named entries holds: for each name, the value of the first
/// entry with that name.
pub open spec fn entry_map<V>(entries: Seq<(String, V)>) -> Map<Seq<char>, V> {
    Map::new(
        |name: Seq<char>| first_index(entry_names(entries), name) < entries.len(),
        |name: Seq<char>| entries[first_index(entry_names(entries), name)].1,
    )
}

/// Puts `value` under `name`, in place of the entry of that name if there is
/// one and at the end otherwise.
pub fn put_entry<V>(entries: &mut Vec<(String, V)>, name: &str, value: V)
    ensures
        entry_map(final(entries)@) == entry_map(old(entries)@).insert(name@, value),
{
    let index = find_name(entries, name);
    let ghost before = entry_names(entries@);
    let ghost name_chars = name@;
    let key = name.to_owned();
    proof {
        lemma_first_index(before, name_chars);
    }
    if index < entries.len() {
        entries.set(index, (key, value));
        proof {
            assert(entry_names(entries@) =~= before);
        }
    } else {
        entries.push((key, value));
        proof {
            assert(entry_names(entries@) =~= before.push(name_chars));
        }
    }
    proof {
        let after = entry_names(entries@);
        assert forall|other: Seq<char>| #[trigger] first_index(after, other) == (if other
            == name_chars {
            index as int
        } else if first_index(before, other) < before.len() {
            first_index(before, other)
        } else {
            after.len() as int
        }) by {
            lemma_first_index(before, other);
            let k = if other == name_chars {
                index as int
            } else if first_index(before, other) < before.len() {
                first_index(before, other)
            } else {
                after.len() as int
            };
            assert forall|i: int| 0 <= i < k implies after[i] != other by {
                if i < before.len() {
                    assert(after[i] == before[i]);
                }
            }
            lemma_first_index_unique(after, other, k);
        }
        let updated = entry_map(old(entries)@).insert(name_chars, value);
        assert forall|other: Seq<char>| entry_map(entries@).contains_key(other)
            == updated.contains_key(other) by {
            lemma_first_index(before, other);
        }
        assert forall|other: Seq<char>| entry_map(entries@).contains_key(other) implies entry_map(
            entries@,
        )[other] == updated[other] by {
            lemma_first_index(before, other);
        }
        assert(entry_map(entries@) =~= updated);
    }
}

/// A registry to store and retrieve policy builders. Builders are found by
/// the name of the policy they build; a name holds one builder at a time.
pub struct LbPolicyRegistry<B> {
    entries: Vec<(String, Arc<B>)>,
}

impl<B> View for LbPolicyRegistry<B> {
    type V = Map<Seq<char>, Arc<B>>;

    /// The builder registered under each name.
    closed spec fn view(&self) -> Map<Seq<char>, Arc<B>> {
        entry_map(self.entries@)
    }
}

impl<B: LbPolicyBuilder> LbPolicyRegistry<B> {
    /// An empty registry.
    pub fn new() -> (registry: LbPolicyRegistry<B>)
        ensures
            registry@ == Map::<Seq<char>, Arc<B>>::empty(),
    {
        let registry = LbPolicyRegistry { entries: Vec::new() };
        proof {
            assert(registry@ =~= Map::<Seq<char>, Arc<B>>::empty());
        }
        registry
    }

    /// Registers `builder` under the name that it reports, in place of any
    /// builder registered under that name before.
    pub fn add_builder(&mut self, builder: B)
        ensures
            exists|name: &'static str|
                {
                    &&& #[trigger] call_ensures(B::name, (&builder,), name)
                    &&& final(self)@ == old(self)@.insert(name@, Arc::new(builder))
                },
    {
        let name = builder.name();
        put_entry(&mut self.entries, name, Arc::new(builder));
    }

    /// The builder registered under `name`, if there is one.
    pub fn get_policy(&self, name: &str) -> (builder: Option<Arc<B>>)
        ensures
            builder == (if self@.contains_key(name@) {
                Some(self@[name@])
            } else {
                None
            }),
    {
        let index = find_name(&self.entries, name);
        if index < self.entries.len() {
            Some(self.entries[index].1.clone())
        } else {
            None
        }
    }
}

} // verus!
