//! An associative array stored as one flat vector of entries, kept sorted by
//! key; lookups, insertions and removals locate a key's position and splice
//! the entry in or out of the vector.

use vstd::prelude::*;

verus! {

/// The entries are strictly sorted by key, so every key occurs at most once.
pub open spec fn entries_sorted<V>(s: Seq<(u64, V)>) -> bool {
    forall|i: int, j: int| 0 <= i < j < s.len() ==> (#[trigger] s[i]).0 < (#[trigger] s[j]).0
}

/// The position a key has, or would be inserted at: the index of the first
/// entry whose key is not smaller.
pub open spec fn key_index<V>(s: Seq<(u64, V)>, key: u64) -> int
    decreases s.len(),
{
    if s.len() == 0 {
        0
    } else if s[0].0 >= key {
        0
    } else {
        1 + key_index(s.drop_first(), key)
    }
}

/// `key_index` is exactly the split point between the smaller keys and the
/// rest.
proof fn lemma_key_index_char<V>(s: Seq<(u64, V)>, key: u64, i: int)
    requires
        0 <= i <= s.len(),
        forall|t: int| 0 <= t < i ==> (#[trigger] s[t]).0 < key,
        i == s.len() || s[i].0 >= key,
    ensures
        key_index(s, key) == i,
    decreases s.len(),
{
    if s.len() > 0 && i > 0 {
        lemma_key_index_char(s.drop_first(), key, i - 1);
    }
}

/// The map after `key` is bound to `value`: the entry at the key's position
/// is replaced if the key is present, and spliced in otherwise.
pub open spec fn insert_entry<V>(s: Seq<(u64, V)>, key: u64, value: V) -> Seq<(u64, V)> {
    let i = key_index(s, key);
    if i < s.len() && s[i].0 == key {
        s.update(i, (key, value))
    } else {
        s.insert(i, (key, value))
    }
}

/// The map after every entry of `items` is bound in order, later bindings
/// of a key winning.
pub open spec fn insert_all<V>(s: Seq<(u64, V)>, items: Seq<(u64, V)>) -> Seq<(u64, V)>
    decreases items.len(),
{
    if items.len() == 0 {
        s
    } else {
        insert_all(insert_entry(s, items[0].0, items[0].1), items.drop_first())
    }
}

/// A sorted flat map from `u64` keys to values.
pub struct FlatMap<V> {
    entries: Vec<(u64, V)>,
}

impl<V> View for FlatMap<V> {
    type V = Seq<(u64, V)>;

    closed spec fn view(&self) -> Seq<(u64, V)> {
        self.entries@
    }
}

impl<V> FlatMap<V> {
    /// An empty map.
    pub fn new() -> (r: Self)
        ensures
            r@ == Seq::<(u64, V)>::empty(),
            entries_sorted(r@),
    {
        let r = FlatMap { entries: Vec::new() };
        proof {
            assert(r@ =~= Seq::<(u64, V)>::empty());
        }
        r
    }

    /// The number of entries.
    pub fn len(&self) -> (n: usize)
        ensures
            n == self@.len(),
    {
        self.entries.len()
    }

    /// Whether the map has no entries.
    pub fn is_empty(&self) -> (r: bool)
        ensures
            r == (self@.len() == 0),
    {
        self.entries.len() == 0
    }

    /// Relies on Vec::capacity: a vector's capacity is at least its length.
    #[verifier::external_body]
    fn entries_capacity(&self) -> (r: usize)
        ensures
            r >= self@.len(),
    {
        self.entries.capacity()
    }

    /// How many entries the map can hold without reallocating: at least as
    /// many as it holds now.
    pub fn capacity(&self) -> (r: usize)
        ensures
            r >= self@.len(),
    {
        self.entries_capacity()
    }

    /// The entries, sorted by key.
    pub fn as_slice(&self) -> (r: &[(u64, V)])
        ensures
            r@ == self@,
    {
        self.entries.as_slice()
    }

    /// The position `key` has, or would be inserted at.
    fn lower_bound(&self, key: u64) -> (i: usize)
        requires
            entries_sorted(self@),
        ensures
            i == key_index(self@, key),
            i <= self@.len(),
            forall|t: int| 0 <= t < i ==> (#[trigger] self@[t]).0 < key,
            i == self@.len() || self@[i as int].0 >= key,
    {
        let mut i: usize = 0;
        while i < self.entries.len() && self.entries[i].0 < key
            invariant
                i <= self@.len(),
                forall|t: int| 0 <= t < i ==> (#[trigger] self@[t]).0 < key,
            decreases self@.len() - i,
        {
            i += 1;
        }
        proof {
            lemma_key_index_char(self@, key, i as int);
        }
        i
    }

    /// Binds `key` to `value`. Returns the value the key was bound to
    /// before, or `None` if the key is fresh; a fresh entry is spliced in at
    /// the key's sorted position.
    pub fn insert(&mut self, key: u64, value: V) -> (r: Option<V>)
        requires
            entries_sorted(old(self)@),
        ensures
            entries_sorted(final(self)@),
            final(self)@ == insert_entry(old(self)@, key, value),
            ({
                let i = key_index(old(self)@, key);
                if i < old(self)@.len() && old(self)@[i].0 == key {
                    r matches Some(v) && v == old(self)@[i].1
                } else {
                    r is None
                }
            }),
    {
        let i = self.lower_bound(key);
        if i < self.entries.len() && self.entries[i].0 == key {
            let mut entry = (key, value);
            std::mem::swap(&mut entry, &mut self.entries[i]);
            proof {
                assert(entries_sorted(self@));
            }
            Some(entry.1)
        } else {
            self.entries.insert(i, (key, value));
            proof {
                let s = old(self)@;
                let t = self@;
                assert forall|a: int, b: int| 0 <= a < b < t.len() implies (#[trigger] t[a]).0 < (
                #[trigger] t[b]).0 by {
                    if a < i {
                        assert(t[a] == s[a]);
                    }
                    if b > i {
                        assert(t[b] == s[b - 1]);
                        if b - 1 > i {
                            assert(s[i as int].0 < s[b - 1].0);
                        }
                    }
                }
            }
            None
        }
    }

    /// The value bound to `key`, if any.
    pub fn get(&self, key: u64) -> (r: Option<&V>)
        requires
            entries_sorted(self@),
        ensures
            ({
                let i = key_index(self@, key);
                if i < self@.len() && self@[i].0 == key {
                    r matches Some(v) && *v == self@[i].1
                } else {
                    r is None
                }
            }),
    {
        let i = self.lower_bound(key);
        if i < self.entries.len() && self.entries[i].0 == key {
            Some(&self.entries[i].1)
        } else {
            None
        }
    }

    /// Unbinds `key`, returning the value it was bound to, if any.
    pub fn remove(&mut self, key: u64) -> (r: Option<V>)
        requires
            entries_sorted(old(self)@),
        ensures
            entries_sorted(final(self)@),
            ({
                let i = key_index(old(self)@, key);
                if i < old(self)@.len() && old(self)@[i].0 == key {
                    r matches Some(v) && v == old(self)@[i].1 && final(self)@ == old(
                        self,
                    )@.remove(i)
                } else {
                    r is None && final(self)@ == old(self)@
                }
            }),
    {
        match self.remove_entry(key) {
            Some((_, v)) => Some(v),
            None => None,
        }
    }

    /// Binds every entry of `items` in order, as repeated `insert`s: a later
    /// binding of a key wins.
    pub fn extend_with(&mut self, items: Vec<(u64, V)>)
        requires
            entries_sorted(old(self)@),
        ensures
            entries_sorted(final(self)@),
            final(self)@ == insert_all(old(self)@, items@),
    {
        let ghost items_view = items@;
        let mut items = items;
        while items.len() > 0
            invariant
                entries_sorted(self@),
                insert_all(self@, items@) == insert_all(old(self)@, items_view),
            decreases items@.len(),
        {
            let ghost pending = items@;
            let (key, value) = items.remove(0);
            proof {
                assert(items@ =~= pending.drop_first());
                assert((key, value) == pending[0]);
            }
            let _ = self.insert(key, value);
        }
    }

    /// The map holding the entries of `vec`, bound in order: a later binding
    /// of a key wins.
    pub fn from_vec(vec: Vec<(u64, V)>) -> (r: Self)
        ensures
            entries_sorted(r@),
            r@ == insert_all(Seq::<(u64, V)>::empty(), vec@),
    {
        let mut map = FlatMap::new();
        map.extend_with(vec);
        map
    }

    /// Gives the entries up, sorted by key.
    pub fn into_vec(self) -> (r: Vec<(u64, V)>)
        ensures
            r@ == self@,
    {
        self.entries
    }

    /// Unbinds `key`, returning the whole entry, if any.
    pub fn remove_entry(&mut self, key: u64) -> (r: Option<(u64, V)>)
        requires
            entries_sorted(old(self)@),
        ensures
            entries_sorted(final(self)@),
            ({
                let i = key_index(old(self)@, key);
                if i < old(self)@.len() && old(self)@[i].0 == key {
                    r matches Some(e) && e == old(self)@[i] && final(self)@ == old(self)@.remove(i)
                } else {
                    r is None && final(self)@ == old(self)@
                }
            }),
    {
        let i = self.lower_bound(key);
        if i < self.entries.len() && self.entries[i].0 == key {
            let e = self.entries.remove(i);
            proof {
                assert(entries_sorted(self@));
            }
            Some(e)
        } else {
            None
        }
    }
}

} // verus!
