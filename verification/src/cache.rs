//! The shared launch cache: an ordered collection of launch records that an
//! external poller replaces wholesale and the scheduler reads as snapshots.
//!
//! `replace` publishes a whole new generation; `snapshot` hands back exactly
//! the records of the current generation, never a mix of two generations.
//! A caller that shares the cache between threads wraps it in an exclusive
//! lock; the contracts here state the all-or-nothing publication order that
//! such a wrapper preserves.

use vstd::prelude::*;

use crate::launches::{distinct_ids, LaunchData};

verus! {

/// The launch cache. Each `replace` call publishes one numbered generation;
/// the ghost history records every generation ever published, so a snapshot
/// can be pinned to exactly one of them.
pub struct LaunchCache {
    records: Vec<LaunchData>,
    generation: u64,
    history: Ghost<Map<int, Seq<LaunchData>>>,
}

impl LaunchCache {
    /// The number of the currently published generation.
    pub closed spec fn spec_generation(&self) -> int {
        self.generation as int
    }

    /// Whether generation `g` has been published.
    pub closed spec fn is_published(&self, g: int) -> bool {
        self.history@.contains_key(g)
    }

    /// The records of published generation `g`.
    pub closed spec fn published_at(&self, g: int) -> Seq<LaunchData> {
        self.history@[g]
    }

    /// Cache invariant: the current generation is published, its records are
    /// the stored ones, and every published generation has distinct ids.
    pub closed spec fn wf(&self) -> bool {
        &&& self.is_published(self.spec_generation())
        &&& self.published_at(self.spec_generation()) == self.records@
        &&& distinct_ids(self.records@)
    }

    /// A fresh cache: generation zero, no records.
    pub fn new() -> (c: Self)
        ensures
            c.wf(),
            c.spec_generation() == 0,
            c.published_at(0) == Seq::<LaunchData>::empty(),
    {
        let records: Vec<LaunchData> = Vec::new();
        LaunchCache {
            records,
            generation: 0,
            history: Ghost(Map::empty().insert(0, Seq::<LaunchData>::empty())),
        }
    }

    /// Atomically publishes a whole new generation of records. Earlier
    /// generations stay as they were published: no snapshot can observe a
    /// mix of records from two generations.
    pub fn replace(&mut self, new_records: Vec<LaunchData>)
        requires
            old(self).wf(),
            distinct_ids(new_records@),
            old(self).spec_generation() < u64::MAX,
        ensures
            final(self).wf(),
            final(self).spec_generation() == old(self).spec_generation() + 1,
            final(self).is_published(final(self).spec_generation()),
            final(self).published_at(final(self).spec_generation()) == new_records@,
            forall|g: int|
                old(self).is_published(g) && g != final(self).spec_generation()
                    ==> final(self).is_published(g) && final(self).published_at(g) == old(
                    self,
                ).published_at(g),
    {
        let ghost next = self.generation as int + 1;
        self.records = new_records;
        self.generation = self.generation + 1;
        proof {
            self.history@ = self.history@.insert(next, self.records@);
        }
    }

    /// A point-in-time view of the cache: exactly the records of the current
    /// generation, in order.
    pub fn snapshot(&self) -> (r: &Vec<LaunchData>)
        requires
            self.wf(),
        ensures
            r@ == self.published_at(self.spec_generation()),
            distinct_ids(r@),
    {
        &self.records
    }

    /// The current generation number, for callers that tag snapshots.
    pub fn generation(&self) -> (g: u64)
        ensures
            g as int == self.spec_generation(),
    {
        self.generation
    }
}

} // verus!
