//! Allocation of term ids.
//!
//! Every term carries an id drawn from a monotonically increasing counter.
//! The counter is an explicit allocator service handed to each constructor
//! that makes a term; ids are never reused or mutated afterwards, so any two
//! allocations from the same counter yield distinct ids.

use vstd::prelude::*;

verus! {

/// Allocator for term ids.
///
/// Each allocation returns the current `next_id` and advances it by one, so
/// ids handed out by one counter are strictly increasing and never reused.
pub struct IdCounter {
    next: u64,
}

impl IdCounter {
    /// The id the next allocation will return.
    pub closed spec fn next_id(self) -> u64 {
        self.next
    }

    /// A fresh counter, whose first allocated id is 0.
    pub fn new() -> (c: Self)
        ensures
            c.next_id() == 0,
    {
        IdCounter { next: 0 }
    }

    /// Allocate one id: the counter's current `next_id`, which is never
    /// handed out again by this counter.
    pub fn fresh_id(&mut self) -> (id: u64)
        requires
            old(self).next_id() < u64::MAX,
        ensures
            id == old(self).next_id(),
            final(self).next_id() == old(self).next_id() + 1,
    {
        let id = self.next;
        self.next = self.next + 1;
        id
    }
}

/// Successive allocations yield pairwise distinct ids: if `ids` lists, in
/// order, the ids returned by consecutive `fresh_id` calls starting from a
/// counter whose `next_id` was `start`, no id occurs twice.
pub proof fn lemma_successive_ids_distinct(ids: Seq<u64>, start: int)
    requires
        forall|i: int| 0 <= i < ids.len() ==> #[trigger] ids[i] as int == start + i,
    ensures
        forall|i: int, j: int| 0 <= i < ids.len() && 0 <= j < ids.len() && i != j ==> ids[i] != ids[j],
{
    assert forall|i: int, j: int|
        0 <= i < ids.len() && 0 <= j < ids.len() && i != j implies ids[i] != ids[j] by {
        assert(ids[i] as int == start + i);
        assert(ids[j] as int == start + j);
    }
}

} // verus!
