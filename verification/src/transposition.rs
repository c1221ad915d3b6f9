//! The transposition table: a fixed-size cache of search results keyed
//! by position hash, with four entries per bucket and a replacement rule
//! preferring empty, older-generation, then shallower entries.

use vstd::prelude::*;

use crate::movement::{Move, NO_MOVE};

verus! {

/// One stored search result. `score_type` is 0 for an empty slot.
#[derive(Clone, Copy)]
pub struct Entry {
    pub verifier: u16,
    pub m: Move,
    pub depth: i16,
    pub score: i16,
    pub score_type: u8,
    pub generation: u8,
}

pub struct Table {
    pub entries: Vec<Entry>,
    pub generation: u8,
}

pub open spec fn spec_verifier(hash: u64) -> u16 {
    (hash >> 48) as u16
}

/// The first slot of the bucket a hash maps to.
pub open spec fn spec_bucket(t: Table, hash: u64) -> int {
    (hash % ((t.entries.len() / 4) as u64)) as int * 4
}

/// A slot holds a live entry for this hash.
pub open spec fn slot_matches(t: Table, i: int, hash: u64) -> bool {
    t.entries[i].score_type != 0 && t.entries[i].verifier == spec_verifier(hash)
}

/// A slot that replacement prefers outright: empty, or already holding
/// this hash.
pub open spec fn slot_reusable(t: Table, i: int, hash: u64) -> bool {
    t.entries[i].score_type == 0 || t.entries[i].verifier == spec_verifier(hash)
}

impl Table {
    pub open spec fn wf(self) -> bool {
        self.entries.len() >= 4 && self.entries.len() % 4 == 0
    }

    /// A table of roughly the given byte budget, all slots empty.
    pub fn new(bytes: usize) -> (t: Table)
        ensures
            t.wf(),
    {
        let mut n = bytes / 16;
        n = n - n % 4;
        if n < 4 {
            n = 4;
        }
        let empty = Entry { verifier: 0, m: NO_MOVE, depth: 0, score: 0, score_type: 0, generation: 0 };
        Table { entries: vec![empty; n], generation: 0 }
    }

    /// Starts a new search: entries stored from now on outrank the old.
    pub fn new_generation(&mut self)
        requires
            old(self).wf(),
        ensures
            final(self).wf(),
            final(self).entries@ == old(self).entries@,
    {
        self.generation = self.generation.wrapping_add(1);
    }

    /// Empties the whole table.
    pub fn clear(&mut self)
        requires
            old(self).wf(),
        ensures
            final(self).wf(),
    {
        let n = self.entries.len();
        let empty = Entry { verifier: 0, m: NO_MOVE, depth: 0, score: 0, score_type: 0, generation: 0 };
        let mut i: usize = 0;
        while i < n
            invariant
                self.entries.len() == n,
                n >= 4,
                n % 4 == 0,
                i <= n,
            decreases n - i,
        {
            self.entries.set(i, empty);
            i = i + 1;
        }
    }

    fn bucket_of(&self, hash: u64) -> (b: usize)
        requires
            self.wf(),
        ensures
            b + 4 <= self.entries.len(),
            b % 4 == 0,
            b == spec_bucket(*self, hash),
    {
        let buckets = self.entries.len() / 4;
        let idx = (hash % (buckets as u64)) as usize;
        proof {
            assert(idx < buckets);
            assert(buckets * 4 == self.entries.len());
        }
        idx * 4
    }

    /// Looks the position up: the first entry of the hash's bucket
    /// whose verifier matches, or nothing when the bucket holds none.
    /// A colliding entry with a different verifier is treated as
    /// absent.
    pub fn get(&self, hash: u64) -> (r: Option<Entry>)
        requires
            self.wf(),
        ensures
            r matches Some(e) ==> e.verifier == spec_verifier(hash) && e.score_type != 0 && (
            exists|i: int|
                spec_bucket(*self, hash) <= i < spec_bucket(*self, hash) + 4
                    && #[trigger] self.entries[i] == e),
            r is None ==> forall|i: int|
                spec_bucket(*self, hash) <= i < spec_bucket(*self, hash) + 4 ==> !slot_matches(
                    *self,
                    i,
                    hash,
                ),
    {
        let b = self.bucket_of(hash);
        let v = (hash >> 48) as u16;
        let mut i: usize = 0;
        while i < 4
            invariant
                self.wf(),
                b + 4 <= self.entries.len(),
                b == spec_bucket(*self, hash),
                v == spec_verifier(hash),
                i <= 4,
                forall|j: int| b <= j < b + i ==> !slot_matches(*self, j, hash),
            decreases 4 - i,
        {
            let e = self.entries[b + i];
            if e.score_type != 0 && e.verifier == v {
                return Some(e);
            }
            i = i + 1;
        }
        None
    }

    /// Stores a result, evicting by priority: a slot for the same
    /// position, an empty slot, an older generation, then the
    /// shallowest depth. Exactly one slot of the hash's bucket is
    /// overwritten with the given entry, so a following probe of the
    /// same hash finds it.
    pub fn put(&mut self, hash: u64, m: Move, depth: i16, score: i16, score_type: u8)
        requires
            old(self).wf(),
            score_type != 0,
        ensures
            final(self).wf(),
            final(self).generation == old(self).generation,
            exists|i: int|
                spec_bucket(*old(self), hash) <= i < spec_bucket(*old(self), hash) + 4
                    && final(self).entries@ == old(self).entries@.update(
                    i,
                    Entry {
                        verifier: spec_verifier(hash),
                        m,
                        depth,
                        score,
                        score_type,
                        generation: old(self).generation,
                    },
                ) && ((exists|j: int|
                    spec_bucket(*old(self), hash) <= j < spec_bucket(*old(self), hash) + 4
                        && slot_reusable(*old(self), j, hash)) ==> slot_reusable(
                    *old(self),
                    i,
                    hash,
                )),
    {
        let b = self.bucket_of(hash);
        let v = (hash >> 48) as u16;
        let mut victim: usize = 0;
        let mut i: usize = 0;
        let mut found = false;
        while i < 4
            invariant
                self.wf(),
                b + 4 <= self.entries.len(),
                b == spec_bucket(*self, hash),
                v == spec_verifier(hash),
                victim < 4,
                i <= 4,
                found == (exists|j: int| b <= j < b + i && slot_reusable(*self, j, hash)),
                found ==> slot_reusable(*self, b + victim as int, hash),
            decreases 4 - i,
        {
            let e = self.entries[b + i];
            if !found {
                if e.score_type == 0 || e.verifier == v {
                    victim = i;
                    found = true;
                    proof {
                        assert(slot_reusable(*self, b + i as int, hash));
                    }
                } else {
                    proof {
                        assert(!slot_reusable(*self, b + i as int, hash));
                    }
                    let cur = self.entries[b + victim];
                    if cur.score_type != 0 && cur.verifier != v {
                        let e_rank = if e.generation == self.generation {
                            1u8
                        } else {
                            0u8
                        };
                        let c_rank = if cur.generation == self.generation {
                            1u8
                        } else {
                            0u8
                        };
                        if e_rank < c_rank || (e_rank == c_rank && e.depth < cur.depth) {
                            victim = i;
                        }
                    }
                }
            }
            i = i + 1;
        }
        let gen = self.generation;
        proof {
            assert(*self == *old(self));
            if found {
                assert(slot_reusable(*old(self), b + victim as int, hash));
            }
        }
        self.entries.set(
            b + victim,
            Entry { verifier: v, m, depth, score, score_type, generation: gen },
        );
        proof {
            let wi = b + victim as int;
            assert(spec_bucket(*old(self), hash) <= wi < spec_bucket(*old(self), hash) + 4
                && self.entries@ == old(self).entries@.update(
                wi,
                Entry {
                    verifier: spec_verifier(hash),
                    m,
                    depth,
                    score,
                    score_type,
                    generation: old(self).generation,
                },
            ) && ((exists|j: int|
                spec_bucket(*old(self), hash) <= j < spec_bucket(*old(self), hash) + 4
                    && slot_reusable(*old(self), j, hash)) ==> slot_reusable(
                *old(self),
                wi,
                hash,
            )));
        }
    }
}

} // verus!
