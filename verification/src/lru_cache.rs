//! A bounded map that evicts the least recently used entry: every lookup or
//! insertion makes its key the most recent, and an insertion into a full
//! cache drops the entry that was touched longest ago.

use vstd::prelude::*;

verus! {

/// The keys are pairwise distinct.
pub open spec fn keys_distinct<V>(s: Seq<(u64, V)>) -> bool {
    forall|i: int, j: int| 0 <= i < j < s.len() ==> (#[trigger] s[i]).0 != (#[trigger] s[j]).0
}

/// The position of `key` in `s`: the index of its entry, or the length if
/// the key is absent.
pub open spec fn recency_index<V>(s: Seq<(u64, V)>, key: u64) -> int
    decreases s.len(),
{
    if s.len() == 0 {
        0
    } else if s[0].0 == key {
        0
    } else {
        1 + recency_index(s.drop_first(), key)
    }
}

proof fn lemma_recency_index_char<V>(s: Seq<(u64, V)>, key: u64, i: int)
    requires
        0 <= i <= s.len(),
        forall|t: int| 0 <= t < i ==> (#[trigger] s[t]).0 != key,
        i == s.len() || s[i].0 == key,
    ensures
        recency_index(s, key) == i,
    decreases s.len(),
{
    if s.len() > 0 && i > 0 {
        lemma_recency_index_char(s.drop_first(), key, i - 1);
    }
}

/// A least-recently-used cache from `u64` keys to values. Its view lists
/// the entries from least recently to most recently used.
pub struct LRUCache<V> {
    capacity: usize,
    entries: Vec<(u64, V)>,
}

impl<V> View for LRUCache<V> {
    type V = Seq<(u64, V)>;

    closed spec fn view(&self) -> Seq<(u64, V)> {
        self.entries@
    }
}

impl<V> LRUCache<V> {
    /// How many entries the cache may hold.
    pub closed spec fn spec_capacity(&self) -> int {
        self.capacity as int
    }

    /// Each key occurs once and the bound is respected.
    pub open spec fn wf(&self) -> bool {
        keys_distinct(self@) && self@.len() <= self.spec_capacity() && self.spec_capacity() > 0
    }

    /// An empty cache that will hold at most `capacity` entries.
    pub fn new(capacity: usize) -> (r: Self)
        requires
            capacity > 0,
        ensures
            r.wf(),
            r@ == Seq::<(u64, V)>::empty(),
            r.spec_capacity() == capacity,
    {
        let r = LRUCache { capacity, entries: Vec::new() };
        proof {
            assert(r@ =~= Seq::<(u64, V)>::empty());
        }
        r
    }

    /// The position of `key`, or the number of entries if it is absent.
    fn position_of(&self, key: u64) -> (i: usize)
        ensures
            i == recency_index(self@, key),
            i <= self@.len(),
            forall|t: int| 0 <= t < i ==> (#[trigger] self@[t]).0 != key,
            i == self@.len() || self@[i as int].0 == key,
    {
        let mut i: usize = 0;
        while i < self.entries.len() && self.entries[i].0 != key
            invariant
                i <= self@.len(),
                forall|t: int| 0 <= t < i ==> (#[trigger] self@[t]).0 != key,
            decreases self@.len() - i,
        {
            i += 1;
        }
        proof {
            lemma_recency_index_char(self@, key, i as int);
        }
        i
    }

    /// Looks `key` up; a hit returns its value and makes the entry the most
    /// recently used, a miss changes nothing.
    pub fn get(&mut self, key: u64) -> (r: Option<&V>)
        requires
            old(self).wf(),
        ensures
            final(self).wf(),
            final(self).spec_capacity() == old(self).spec_capacity(),
            ({
                let i = recency_index(old(self)@, key);
                if i < old(self)@.len() {
                    r matches Some(v) && *v == old(self)@[i].1 && final(self)@ == old(
                        self,
                    )@.remove(i).push(old(self)@[i])
                } else {
                    r is None && final(self)@ == old(self)@
                }
            }),
    {
        let i = self.position_of(key);
        if i < self.entries.len() {
            let e = self.entries.remove(i);
            proof {
                assert(keys_distinct(self@));
            }
            self.entries.push(e);
            proof {
                assert(keys_distinct(self@)) by {
                    let s = old(self)@.remove(i as int);
                    assert(forall|t: int| 0 <= t < s.len() ==> (#[trigger] s[t]).0 != key);
                }
            }
            let n = self.entries.len();
            Some(&self.entries[n - 1].1)
        } else {
            None
        }
    }

    /// Binds `key` to `value` as the most recently used entry. A key that
    /// was present has its old value returned and replaced; otherwise, if
    /// the cache is full, the least recently used entry is evicted first.
    pub fn insert(&mut self, key: u64, value: V) -> (r: Option<V>)
        requires
            old(self).wf(),
        ensures
            final(self).wf(),
            final(self).spec_capacity() == old(self).spec_capacity(),
            ({
                let i = recency_index(old(self)@, key);
                if i < old(self)@.len() {
                    r matches Some(v) && v == old(self)@[i].1 && final(self)@ == old(
                        self,
                    )@.remove(i).push((key, value))
                } else if old(self)@.len() == old(self).spec_capacity() {
                    r is None && final(self)@ == old(self)@.drop_first().push((key, value))
                } else {
                    r is None && final(self)@ == old(self)@.push((key, value))
                }
            }),
    {
        let i = self.position_of(key);
        let mut result: Option<V> = None;
        if i < self.entries.len() {
            let e = self.entries.remove(i);
            result = Some(e.1);
        } else if self.entries.len() == self.capacity {
            let _ = self.entries.remove(0);
        }
        proof {
            let mid = self@;
            let s0 = old(self)@;
            // nothing in the trimmed cache carries `key`, and keys stay
            // pairwise distinct
            assert forall|t: int| 0 <= t < mid.len() implies (#[trigger] mid[t]).0 != key by {
                if i < s0.len() {
                    assert(mid == s0.remove(i as int));
                    if t >= i {
                        assert(mid[t] == s0[t + 1]);
                    }
                }
            }
            assert(keys_distinct(mid)) by {
                assert forall|a: int, b: int| 0 <= a < b < mid.len() implies (#[trigger] mid[a]).0
                    != (#[trigger] mid[b]).0 by {
                    if i < s0.len() {
                        assert(mid == s0.remove(i as int));
                    }
                }
            }
        }
        let ghost mid = self@;
        self.entries.push((key, value));
        proof {
            let s = self@;
            assert forall|a: int, b: int| 0 <= a < b < s.len() implies (#[trigger] s[a]).0 != (
            #[trigger] s[b]).0 by {
                if b < s.len() - 1 {
                    assert(s[a] == mid[a] && s[b] == mid[b]);
                } else {
                    assert(s[a] == mid[a] && s[b].0 == key);
                }
            }
        }
        result
    }
}

} // verus!
