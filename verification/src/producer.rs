//! The pull contract that every sequence adaptor is built on: a forward-only
//! source of values, consumed irreversibly, that hands out one value per call
//! until it is exhausted.

use vstd::prelude::*;

verus! {

/// A producer of values. `remaining()` is the sequence of values the
/// producer will still emit, in emission order; each `next` call pops its
/// head, or reports exhaustion once it is empty. Exhaustion is permanent:
/// an exhausted producer keeps returning `None` and never changes again.
///
/// Adaptors whose own output is finite satisfy this contract themselves,
/// so they compose: an adaptor's output can feed another adaptor's input.
pub trait Producer<T>: Sized {
    /// The values this producer will still emit, in emission order.
    spec fn remaining(&self) -> Seq<T>;

    /// Pulls the next value, or reports that the producer is exhausted.
    fn next(&mut self) -> (r: Option<T>)
        ensures
            old(self).remaining().len() == 0 ==> r is None && final(self).remaining()
                == old(self).remaining(),
            old(self).remaining().len() > 0 ==> r == Some(old(self).remaining()[0])
                && final(self).remaining() == old(self).remaining().drop_first(),
    ;
}

/// One pull, on the abstract state the `next` contract describes: the head
/// of the remaining sequence comes out, or `None` once it is empty.
pub open spec fn pull_once<T>(rem: Seq<T>) -> (Seq<T>, Option<T>) {
    if rem.len() == 0 {
        (rem, None)
    } else {
        (rem.drop_first(), Some(rem[0]))
    }
}

/// `n` pulls in a row: the remaining sequence afterwards, and the values
/// that came out, in order.
pub open spec fn pull_run<T>(rem: Seq<T>, n: nat) -> (Seq<T>, Seq<T>)
    decreases n,
{
    if n == 0 {
        (rem, Seq::<T>::empty())
    } else {
        let (rem2, r) = pull_once(rem);
        let (rem3, out) = pull_run(rem2, (n - 1) as nat);
        (
            rem3,
            (match r {
                Some(v) => seq![v],
                None => Seq::<T>::empty(),
            }) + out,
        )
    }
}

/// Draining a producer yields exactly its remaining sequence: `n` pulls
/// emit the first `n` remaining values (all of them, once `n` reaches their
/// number), in order. Every adaptor law reads a drain this way.
pub proof fn lemma_pull_run<T>(rem: Seq<T>, n: nat)
    ensures
        pull_run(rem, n).1 == rem.take(vstd::math::min(n as int, rem.len() as int)),
        pull_run(rem, n).0 == rem.skip(vstd::math::min(n as int, rem.len() as int)),
    decreases n,
{
    let stop = vstd::math::min(n as int, rem.len() as int);
    if n == 0 {
        assert(rem.take(stop) =~= Seq::<T>::empty());
        assert(rem.skip(stop) =~= rem);
    } else if rem.len() == 0 {
        lemma_pull_run(rem, (n - 1) as nat);
        assert(rem.take(stop) =~= Seq::<T>::empty());
        assert(rem.skip(stop) =~= rem);
    } else {
        lemma_pull_run(rem.drop_first(), (n - 1) as nat);
        let stop2 = vstd::math::min(n - 1, rem.drop_first().len() as int);
        assert(seq![rem[0]] + rem.drop_first().take(stop2) =~= rem.take(stop));
        assert(rem.drop_first().skip(stop2) =~= rem.skip(stop));
    }
}

/// A producer that emits the elements of a vector, front to back.
pub struct VecProducer<T> {
    items: Vec<T>,
    pos: usize,
}

impl<T: Copy> VecProducer<T> {
    /// Wraps a vector as a producer of its elements.
    pub fn new(items: Vec<T>) -> (r: Self)
        ensures
            r.remaining() == items@,
    {
        let r = VecProducer { items, pos: 0 };
        proof {
            assert(r.items@.skip(0) =~= r.items@);
        }
        r
    }
}

impl<T: Copy> Producer<T> for VecProducer<T> {
    closed spec fn remaining(&self) -> Seq<T> {
        if self.pos <= self.items@.len() {
            self.items@.skip(self.pos as int)
        } else {
            Seq::<T>::empty()
        }
    }

    fn next(&mut self) -> (r: Option<T>) {
        if self.pos < self.items.len() {
            let v = self.items[self.pos];
            self.pos = self.pos + 1;
            proof {
                assert(old(self).items@.skip(old(self).pos as int).drop_first() =~= self.items@.skip(
                    self.pos as int,
                ));
            }
            Some(v)
        } else {
            None
        }
    }
}

} // verus!
