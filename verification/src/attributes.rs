//! Free-form key/value payload attached to addresses, endpoints and updates.

use vstd::prelude::*;

verus! {

/// An open bag of key/value pairs.
///
/// Attributes are payload: they never take part in the identity of the value
/// they are attached to.
#[derive(Debug)]
pub struct Attributes {
    /// The pairs, in insertion order.
    pub entries: Vec<(String, String)>,
}

impl Attributes {
    /// The empty bag.
    pub fn new() -> (attributes: Attributes)
        ensures
            attributes.entries@.len() == 0,
    {
        Attributes { entries: Vec::new() }
    }

    /// Some bag of attributes, always the same one: what stands for the
    /// attributes of a request that names no address.
    pub open spec fn nothing() -> Attributes {
        arbitrary()
    }
}

impl Clone for Attributes {
    /// A copy of the bag, with the same pairs in the same order.
    fn clone(&self) -> (copy: Attributes)
        ensures
            copy.entries@ == self.entries@,
    {
        let mut entries: Vec<(String, String)> = Vec::new();
        let n: usize = self.entries.len();
        for i in 0..n
            invariant
                n == self.entries@.len(),
                entries@.len() == i,
                forall|j: int| 0 <= j < i ==> #[trigger] entries@[j] == self.entries@[j],
        {
            let pair = &self.entries[i];
            entries.push((pair.0.clone(), pair.1.clone()));
        }
        proof {
            assert(entries@ =~= self.entries@);
        }
        Attributes { entries }
    }
}

} // verus!
