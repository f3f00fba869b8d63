//! A small cache with stale-entry eviction.
//!
//! Entries are stamped with an insertion counter.  When the cache grows
//! past twice its nominal capacity, maintenance drops every entry whose
//! stamp lies a full capacity behind the counter, so roughly the most
//! recently inserted entries survive.  Keys are cell indexes or other
//! plain 64-bit names.

use vstd::prelude::*;
use crate::assoc::{
    assoc_find, assoc_get, assoc_wf, lemma_assoc_get_at, lemma_assoc_get_none, lemma_assoc_push,
};

verus! {

/// Growth factor past which maintenance evicts stale entries.
pub const CACHE_BLOAT_RATE: usize = 2;

/// A capacity-bounded cache from 64-bit keys to values, with an
/// insertion-stamp per entry.
pub struct HashCache<V> {
    capacity: usize,
    entries: Vec<(u64, (usize, V))>,
    counter: usize,
}

/// The entries whose stamp is less than a capacity behind the counter,
/// among the first `k`, in order.
pub open spec fn spec_retained<V>(
    rows: Seq<(u64, (usize, V))>,
    capacity: int,
    counter: int,
    k: int,
) -> Seq<(u64, (usize, V))>
    decreases k,
{
    if k <= 0 {
        Seq::empty()
    } else {
        spec_retained(rows, capacity, counter, k - 1) + (if rows[k - 1].1.0 + capacity > counter {
            seq![rows[k - 1]]
        } else {
            Seq::empty()
        })
    }
}

impl<V> HashCache<V> {
    /// The cached entries: key, stamp and value, oldest first.
    pub closed spec fn rows(self) -> Seq<(u64, (usize, V))> {
        self.entries@
    }

    /// The nominal capacity.
    pub closed spec fn spec_capacity(self) -> usize {
        self.capacity
    }

    /// The insertion counter: how many inserts the cache has seen.
    pub closed spec fn spec_counter(self) -> usize {
        self.counter
    }

    /// The cached value under a key, if any.
    pub open spec fn cached(self, k: u64) -> Option<V> {
        match assoc_get(self.rows(), k) {
            Some((_, v)) => Some(v),
            None => None,
        }
    }

    /// Keys are distinct.
    pub closed spec fn wf(self) -> bool {
        assoc_wf(self.rows())
    }

    /// An empty cache with the given nominal capacity.
    pub fn with_capacity(capacity: usize) -> (c: HashCache<V>)
        ensures
            c.wf(),
            c.rows() == Seq::<(u64, (usize, V))>::empty(),
            c.spec_capacity() == capacity,
            c.spec_counter() == 0,
    {
        HashCache { capacity, entries: Vec::new(), counter: 0 }
    }

    /// How many entries are cached.
    pub fn len(&self) -> (n: usize)
        ensures
            n == self.rows().len(),
    {
        self.entries.len()
    }

    /// Looks a key up without touching the cache.
    pub fn lookup(&self, key: u64) -> (r: Option<&V>)
        requires
            self.wf(),
        ensures
            match self.cached(key) {
                Some(v) => r matches Some(rv) && *rv == v,
                None => r is None,
            },
    {
        match assoc_find(&self.entries, key) {
            Some(i) => {
                proof {
                    lemma_assoc_get_at(self.entries@, i as int);
                }
                Some(&self.entries[i].1.1)
            },
            None => {
                proof {
                    lemma_assoc_get_none(self.entries@, key);
                }
                None
            },
        }
    }

    /// Caches a value under a key not yet cached, stamped with the next
    /// counter value.
    pub fn insert(&mut self, key: u64, v: V)
        requires
            old(self).wf(),
            old(self).cached(key) is None,
            old(self).spec_counter() < usize::MAX,
        ensures
            final(self).wf(),
            final(self).spec_counter() == old(self).spec_counter() + 1,
            final(self).spec_capacity() == old(self).spec_capacity(),
            final(self).cached(key) == Some(v),
            final(self).rows() == old(self).rows().push(
                (key, ((old(self).spec_counter() + 1) as usize, v)),
            ),
            forall|q: u64| q != key ==> final(self).cached(q) == old(self).cached(q),
    {
        let ghost rows0 = self.entries@;
        self.counter = self.counter + 1;
        self.entries.push((key, (self.counter, v)));
        proof {
            assert forall|q: u64| #[trigger]
                assoc_get(self.entries@, q) == (if q == key {
                    assoc_get(self.entries@, key)
                } else {
                    assoc_get(rows0, q)
                }) by {
                lemma_assoc_push(rows0, key, self.entries@[rows0.len() as int].1, q);
            }
            lemma_assoc_push(rows0, key, self.entries@[rows0.len() as int].1, key);
        }
    }

    /// Evicts stale entries once the cache has grown past twice its
    /// capacity: only entries stamped less than a capacity behind the
    /// counter survive, in order.
    pub fn maintain(&mut self)
        requires
            old(self).wf(),
        ensures
            final(self).wf(),
            final(self).spec_counter() == old(self).spec_counter(),
            final(self).spec_capacity() == old(self).spec_capacity(),
            old(self).rows().len() <= old(self).spec_capacity() * CACHE_BLOAT_RATE ==> final(self).rows() == old(self).rows(),
            old(self).rows().len() > old(self).spec_capacity() * CACHE_BLOAT_RATE ==> final(self).rows() == spec_retained(
                old(self).rows(),
                old(self).spec_capacity() as int,
                old(self).spec_counter() as int,
                old(self).rows().len() as int,
            ),
    {
        let n = self.entries.len();
        if self.capacity > usize::MAX / CACHE_BLOAT_RATE {
            // The threshold cannot be reached: the cache never holds
            // more entries than addresses exist.
            proof {
                assert(self.entries@.len() == n);
                assert(self.capacity * CACHE_BLOAT_RATE > usize::MAX) by (nonlinear_arith)
                    requires
                        self.capacity > usize::MAX / CACHE_BLOAT_RATE,
                        CACHE_BLOAT_RATE == 2,
                ;
            }
            return ;
        }
        if self.entries.len() <= self.capacity * CACHE_BLOAT_RATE {
            return ;
        }
        let ghost rows0 = self.entries@;
        let capacity = self.capacity;
        let counter = self.counter;
        let mut kept: Vec<(u64, (usize, V))> = Vec::new();
        let ghost i: int = 0;
        proof {
            assert(kept@ =~= spec_retained(rows0, capacity as int, counter as int, 0));
            assert(rows0.skip(0) =~= rows0);
        }
        loop
            invariant
                0 <= i <= rows0.len(),
                self.entries@ == rows0.skip(i),
                self.counter == counter,
                self.capacity == capacity,
                kept@ == spec_retained(rows0, capacity as int, counter as int, i),
            ensures
                self.counter == counter,
                self.capacity == capacity,
                kept@ == spec_retained(rows0, capacity as int, counter as int, rows0.len() as int),
            decreases rows0.len() - i,
        {
            if self.entries.len() == 0 {
                break;
            }
            proof {
                assert(rows0.skip(i)[0] == rows0[i]);
            }
            let e = self.entries.remove(0);
            // An entry stays while its stamp is within one capacity of
            // the counter; phrased without overflowing the sum.
            let stamp = e.1.0;
            let stays = counter < stamp || counter - stamp < capacity;
            proof {
                assert(stays == (rows0[i].1.0 + capacity as int > counter as int));
            }
            if stays {
                kept.push(e);
            }
            proof {
                assert(self.entries@ =~= rows0.skip(i).skip(1));
                assert(self.entries@ =~= rows0.skip(i + 1));
                assert(kept@ =~= spec_retained(rows0, capacity as int, counter as int, i + 1));
                i = i + 1;
            }
        }
        self.entries = kept;
        proof {
            lemma_retained_wf(rows0, capacity as int, counter as int, rows0.len() as int);
        }
    }
}

/// The retained entries keep distinct keys, each taken from the rows.
proof fn lemma_retained_wf<V>(rows: Seq<(u64, (usize, V))>, capacity: int, counter: int, k: int)
    requires
        assoc_wf(rows),
        k <= rows.len(),
    ensures
        assoc_wf(spec_retained(rows, capacity, counter, k)),
        forall|a: int|
            0 <= a < spec_retained(rows, capacity, counter, k).len() ==> exists|i: int|
                0 <= i < k && rows[i] == #[trigger] spec_retained(rows, capacity, counter, k)[a],
    decreases k,
{
    if k > 0 {
        lemma_retained_wf(rows, capacity, counter, k - 1);
        let prev = spec_retained(rows, capacity, counter, k - 1);
        let cur = spec_retained(rows, capacity, counter, k);
        if rows[k - 1].1.0 + capacity > counter {
            assert(cur == prev + seq![rows[k - 1]]);
            assert forall|a: int|
                0 <= a < cur.len() implies exists|i: int|
                0 <= i < k && rows[i] == #[trigger] cur[a] by {
                if a < prev.len() {
                    assert(cur[a] == prev[a]);
                    let i = choose|i: int| 0 <= i < k - 1 && rows[i] == prev[a];
                    assert(rows[i] == cur[a]);
                } else {
                    assert(cur[a] == rows[k - 1]);
                }
            }
            assert forall|a: int, b: int|
                0 <= a < b < cur.len() implies (#[trigger] cur[a]).0 != (#[trigger] cur[b]).0 by {
                if b < prev.len() {
                    assert(cur[a] == prev[a]);
                    assert(cur[b] == prev[b]);
                } else {
                    assert(cur[b] == rows[k - 1]);
                    assert(cur[a] == prev[a]);
                    let i = choose|i: int| 0 <= i < k - 1 && rows[i] == prev[a];
                    assert(rows[i].0 != rows[k - 1].0);
                }
            }
        } else {
            assert(cur =~= prev);
        }
    }
}

} // verus!
