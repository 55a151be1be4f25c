//! Consecutive run grouping: the adaptor pulls values from a producer,
//! computes each value's key, and hands out maximal runs of consecutive
//! values whose keys are equal, as (key, values) pairs in source order. Keys
//! are compared by equality only, so two separated runs with the same key
//! are never merged. When the producer is exhausted mid-group, the pending
//! group is delivered exactly once and the adaptor is exhausted forever.

use crate::producer::Producer;
use vstd::prelude::*;

verus! {

/// A caller-supplied key function together with decidable equality on its
/// keys. `key_of` is the mathematical key of a value; the two methods
/// compute it and decide key equality.
pub trait KeyFn<T, V>: Sized {
    /// The key of a value.
    spec fn key_of(&self, value: T) -> V;

    /// Computes the key of a value.
    fn key(&self, value: &T) -> (k: V)
        ensures
            k == self.key_of(*value),
    ;

    /// Decides whether two keys are equal.
    fn key_eq(&self, a: &V, b: &V) -> (r: bool)
        ensures
            r == (a == b),
    ;
}

/// The key function that takes each value as its own key, so that grouping
/// collects runs of equal adjacent values.
pub struct IdentityKey;

impl KeyFn<u64, u64> for IdentityKey {
    open spec fn key_of(&self, value: u64) -> u64 {
        value
    }

    fn key(&self, value: &u64) -> u64 {
        *value
    }

    fn key_eq(&self, a: &u64, b: &u64) -> bool {
        *a == *b
    }
}

/// The groups a grouping adaptor will still deliver, given the values `src`
/// its producer will still emit and the group `cur` it is accumulating:
/// each value either extends the current group (equal key) or closes it and
/// seeds the next one, and the last group is delivered once `src` runs out.
pub open spec fn run_groups<T, V, F: KeyFn<T, V>>(
    kf: F,
    src: Seq<T>,
    cur: Option<(V, Seq<T>)>,
) -> Seq<(V, Seq<T>)>
    decreases src.len(),
{
    if src.len() == 0 {
        match cur {
            Some(p) => seq![p],
            None => Seq::<(V, Seq<T>)>::empty(),
        }
    } else {
        let v = src[0];
        let k = kf.key_of(v);
        match cur {
            Some(p) => {
                if p.0 == k {
                    run_groups(kf, src.drop_first(), Some((p.0, p.1.push(v))))
                } else {
                    seq![p] + run_groups(kf, src.drop_first(), Some((k, seq![v])))
                }
            },
            None => run_groups(kf, src.drop_first(), Some((k, seq![v]))),
        }
    }
}

/// The values of a sequence of groups, flattened back in order.
pub open spec fn flatten_groups<T, V>(gs: Seq<(V, Seq<T>)>) -> Seq<T>
    decreases gs.len(),
{
    if gs.len() == 0 {
        Seq::<T>::empty()
    } else {
        gs[0].1 + flatten_groups(gs.drop_first())
    }
}

/// No two adjacent groups share a key.
pub open spec fn adjacent_keys_distinct<T, V>(gs: Seq<(V, Seq<T>)>) -> bool {
    forall|i: int| 0 <= i && i + 1 < gs.len() ==> #[trigger] gs[i].0 != gs[i + 1].0
}

/// Every value within each group maps to that group's key under `kf`.
pub open spec fn groups_keyed<T, V, F: KeyFn<T, V>>(kf: F, gs: Seq<(V, Seq<T>)>) -> bool {
    forall|i: int, j: int|
        0 <= i < gs.len() && 0 <= j < gs[i].1.len() ==> kf.key_of(#[trigger] gs[i].1[j]) == gs[i].0
}

/// A grouping that is accumulating a group delivers at least that group,
/// and delivers its key first.
proof fn lemma_run_groups_head<T, V, F: KeyFn<T, V>>(kf: F, src: Seq<T>, k: V, g: Seq<T>)
    ensures
        run_groups(kf, src, Some((k, g))).len() >= 1,
        run_groups(kf, src, Some((k, g)))[0].0 == k,
    decreases src.len(),
{
    if src.len() > 0 && kf.key_of(src[0]) == k {
        lemma_run_groups_head(kf, src.drop_first(), k, g.push(src[0]));
    }
}

proof fn lemma_run_groups_flatten<T, V, F: KeyFn<T, V>>(
    kf: F,
    src: Seq<T>,
    cur: Option<(V, Seq<T>)>,
)
    ensures
        flatten_groups(run_groups(kf, src, cur)) == (match cur {
            Some(p) => p.1,
            None => Seq::<T>::empty(),
        }) + src,
    decreases src.len(),
{
    let gs = run_groups(kf, src, cur);
    if src.len() == 0 {
        match cur {
            Some(p) => {
                assert(flatten_groups(gs.drop_first()) =~= Seq::<T>::empty());
                assert(flatten_groups(gs) =~= p.1 + src);
            },
            None => {
                assert(flatten_groups(gs) =~= src);
            },
        }
    } else {
        let v = src[0];
        let k = kf.key_of(v);
        match cur {
            Some(p) => {
                if p.0 == k {
                    lemma_run_groups_flatten(kf, src.drop_first(), Some((p.0, p.1.push(v))));
                    assert(p.1.push(v) + src.drop_first() =~= p.1 + src);
                } else {
                    lemma_run_groups_flatten(kf, src.drop_first(), Some((k, seq![v])));
                    let rest = run_groups(kf, src.drop_first(), Some((k, seq![v])));
                    assert((seq![p] + rest).drop_first() =~= rest);
                    assert(flatten_groups(seq![p] + rest) == p.1 + flatten_groups(rest));
                    assert(seq![v] + src.drop_first() =~= src);
                    assert(p.1 + (seq![v] + src.drop_first()) =~= p.1 + src);
                }
            },
            None => {
                lemma_run_groups_flatten(kf, src.drop_first(), Some((k, seq![v])));
                assert(seq![v] + src.drop_first() =~= src);
            },
        }
    }
}

proof fn lemma_run_groups_adjacent<T, V, F: KeyFn<T, V>>(
    kf: F,
    src: Seq<T>,
    cur: Option<(V, Seq<T>)>,
)
    ensures
        adjacent_keys_distinct(run_groups(kf, src, cur)),
    decreases src.len(),
{
    let gs = run_groups(kf, src, cur);
    if src.len() > 0 {
        let v = src[0];
        let k = kf.key_of(v);
        match cur {
            Some(p) => {
                if p.0 == k {
                    lemma_run_groups_adjacent(kf, src.drop_first(), Some((p.0, p.1.push(v))));
                } else {
                    let rest = run_groups(kf, src.drop_first(), Some((k, seq![v])));
                    lemma_run_groups_adjacent(kf, src.drop_first(), Some((k, seq![v])));
                    lemma_run_groups_head(kf, src.drop_first(), k, seq![v]);
                    assert forall|i: int| 0 <= i && i + 1 < gs.len() implies #[trigger] gs[i].0
                        != gs[i + 1].0 by {
                        if i > 0 {
                            assert(gs[i] == rest[i - 1]);
                            assert(gs[i + 1] == rest[i]);
                        }
                    }
                }
            },
            None => {
                lemma_run_groups_adjacent(kf, src.drop_first(), Some((k, seq![v])));
            },
        }
    }
}

proof fn lemma_run_groups_keyed<T, V, F: KeyFn<T, V>>(
    kf: F,
    src: Seq<T>,
    cur: Option<(V, Seq<T>)>,
)
    requires
        match cur {
            Some(p) => forall|j: int| 0 <= j < p.1.len() ==> kf.key_of(#[trigger] p.1[j]) == p.0,
            None => true,
        },
    ensures
        groups_keyed(kf, run_groups(kf, src, cur)),
    decreases src.len(),
{
    let gs = run_groups(kf, src, cur);
    if src.len() == 0 {
    } else {
        let v = src[0];
        let k = kf.key_of(v);
        match cur {
            Some(p) => {
                if p.0 == k {
                    assert(forall|j: int|
                        0 <= j < p.1.push(v).len() ==> kf.key_of(#[trigger] p.1.push(v)[j])
                            == p.0);
                    lemma_run_groups_keyed(kf, src.drop_first(), Some((p.0, p.1.push(v))));
                } else {
                    let rest = run_groups(kf, src.drop_first(), Some((k, seq![v])));
                    lemma_run_groups_keyed(kf, src.drop_first(), Some((k, seq![v])));
                    assert forall|i: int, j: int|
                        0 <= i < gs.len() && 0 <= j < gs[i].1.len() implies kf.key_of(
                        #[trigger] gs[i].1[j],
                    ) == gs[i].0 by {
                        if i > 0 {
                            assert(gs[i] == rest[i - 1]);
                        }
                    }
                }
            },
            None => {
                lemma_run_groups_keyed(kf, src.drop_first(), Some((k, seq![v])));
            },
        }
    }
}

/// The grouping laws, for the groups a fresh adaptor over source `src`
/// delivers: flattening every group in order reconstructs `src` exactly; no
/// two adjacent groups share a key; and every value within one group maps to
/// that group's key under the key function.
pub proof fn lemma_group_by_law<T, V, F: KeyFn<T, V>>(kf: F, src: Seq<T>)
    ensures
        flatten_groups(run_groups(kf, src, Option::<(V, Seq<T>)>::None)) == src,
        adjacent_keys_distinct(run_groups(kf, src, Option::<(V, Seq<T>)>::None)),
        groups_keyed(kf, run_groups(kf, src, Option::<(V, Seq<T>)>::None)),
{
    let cur = Option::<(V, Seq<T>)>::None;
    lemma_run_groups_flatten(kf, src, cur);
    assert(Seq::<T>::empty() + src =~= src);
    lemma_run_groups_adjacent(kf, src, cur);
    lemma_run_groups_keyed(kf, src, cur);
}

/// Wraps a producer and a key function and delivers (key, group) pairs
/// (see the module text).
pub struct GroupBy<T, V, P: Producer<T>, F: KeyFn<T, V>> {
    iter: P,
    key_func: F,
    current_key: Option<V>,
    current_group: Vec<T>,
    finished: bool,
}

impl<T, V, P: Producer<T>, F: KeyFn<T, V>> GroupBy<T, V, P, F> {
    /// The group being accumulated, if any.
    closed spec fn cur(&self) -> Option<(V, Seq<T>)> {
        match self.current_key {
            Some(k) => Some((k, self.current_group@)),
            None => None,
        }
    }

    /// The (key, group) pairs this adaptor will still deliver, in order.
    pub closed spec fn pending(&self) -> Seq<(V, Seq<T>)> {
        if self.finished {
            Seq::<(V, Seq<T>)>::empty()
        } else {
            run_groups(self.key_func, self.iter.remaining(), self.cur())
        }
    }

    /// An accumulating group is never empty, so no empty group is ever
    /// delivered.
    pub closed spec fn wf(&self) -> bool {
        self.current_key is None ==> self.current_group@.len() == 0
    }

    /// Wraps `iter`; nothing is accumulated yet, so the groups to be
    /// delivered are exactly the runs of `iter`'s whole remaining emission.
    pub fn new(iter: P, key_func: F) -> (r: Self)
        ensures
            r.wf(),
            r.pending() == run_groups(key_func, iter.remaining(), Option::<(V, Seq<T>)>::None),
    {
        GroupBy { iter, key_func, current_key: None, current_group: Vec::new(), finished: false }
    }

    /// Delivers the next completed (key, group) pair, or reports that the
    /// producer is exhausted and every group has been delivered. The pair is
    /// the head of `pending()`, and the values of the group keep their
    /// source order.
    pub fn next(&mut self) -> (r: Option<(V, Vec<T>)>)
        requires
            old(self).wf(),
        ensures
            final(self).wf(),
            old(self).pending().len() == 0 ==> r is None && final(self).pending() == Seq::<(
                V,
                Seq<T>,
            )>::empty(),
            old(self).pending().len() > 0 ==> (r matches Some(p) && p.0 == old(self).pending()[0].0
                && p.1@ == old(self).pending()[0].1 && final(self).pending() == old(
                self,
            ).pending().drop_first()),
    {
        if self.finished {
            return None;
        }
        loop
            invariant
                !self.finished,
                self.wf(),
                self.key_func == old(self).key_func,
                run_groups(self.key_func, self.iter.remaining(), self.cur()) == old(self).pending(),
            decreases self.iter.remaining().len(),
        {
            match self.iter.next() {
                Some(item) => {
                    let key = self.key_func.key(&item);
                    let has_key = self.current_key.is_some();
                    let same = match &self.current_key {
                        Some(k0) => self.key_func.key_eq(k0, &key),
                        None => false,
                    };
                    if same {
                        self.current_group.push(item);
                    } else if has_key {
                        // a run ends: deliver it and seed the next group
                        let finished_key = self.current_key.take().unwrap();
                        let mut group: Vec<T> = Vec::new();
                        std::mem::swap(&mut group, &mut self.current_group);
                        self.current_key = Some(key);
                        self.current_group.push(item);
                        proof {
                            assert(self.current_group@ =~= seq![item]);
                            assert(old(self).pending()[0] == (finished_key, group@));
                            assert(old(self).pending().drop_first() =~= run_groups(
                                self.key_func,
                                self.iter.remaining(),
                                self.cur(),
                            ));
                        }
                        return Some((finished_key, group));
                    } else {
                        self.current_key = Some(key);
                        self.current_group.push(item);
                        proof {
                            assert(self.current_group@ =~= seq![item]);
                        }
                    }
                },
                None => {
                    self.finished = true;
                    match self.current_key.take() {
                        Some(finished_key) => {
                            let mut group: Vec<T> = Vec::new();
                            std::mem::swap(&mut group, &mut self.current_group);
                            proof {
                                assert(old(self).pending() =~= seq![(finished_key, group@)]);
                            }
                            return Some((finished_key, group));
                        },
                        None => {
                            return None;
                        },
                    }
                },
            }
        }
    }
}

} // verus!
