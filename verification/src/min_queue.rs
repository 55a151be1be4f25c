//! A first-in-first-out queue of numbers that can also report the minimum
//! of everything it currently holds.

use std::collections::VecDeque;
use vstd::prelude::*;

verus! {

/// A queue of numbers with a minimum query.
pub struct MinQueue {
    data: VecDeque<u64>,
}

impl View for MinQueue {
    type V = Seq<u64>;

    closed spec fn view(&self) -> Seq<u64> {
        self.data@
    }
}

impl MinQueue {
    /// An empty queue.
    pub fn new() -> (r: Self)
        ensures
            r@ == Seq::<u64>::empty(),
    {
        let r = MinQueue { data: VecDeque::new() };
        proof {
            assert(r@ =~= Seq::<u64>::empty());
        }
        r
    }

    /// Appends `val` at the back.
    pub fn push(&mut self, val: u64)
        ensures
            final(self)@ == old(self)@.push(val),
    {
        self.data.push_back(val);
    }

    /// Removes and returns the front value, or `None` if the queue is empty.
    pub fn pop(&mut self) -> (r: Option<u64>)
        ensures
            old(self)@.len() == 0 ==> r is None && final(self)@ == old(self)@,
            old(self)@.len() > 0 ==> r == Some(old(self)@[0]) && final(self)@ == old(
                self,
            )@.drop_first(),
    {
        self.data.pop_front()
    }

    /// The front value, or `None` if the queue is empty.
    pub fn front(&self) -> (r: Option<u64>)
        ensures
            self@.len() == 0 ==> r is None,
            self@.len() > 0 ==> r == Some(self@[0]),
    {
        if self.data.len() == 0 {
            None
        } else {
            Some(self.data[0])
        }
    }

    /// The smallest value the queue holds, or `None` if it is empty: a value
    /// of the queue that no other value is below.
    pub fn min(&self) -> (r: Option<u64>)
        ensures
            self@.len() == 0 ==> r is None,
            self@.len() > 0 ==> (r matches Some(m) && self@.contains(m) && forall|t: int|
                0 <= t < self@.len() ==> m <= #[trigger] self@[t]),
    {
        if self.data.len() == 0 {
            return None;
        }
        let mut m = self.data[0];
        let mut i: usize = 1;
        proof {
            assert(self@.contains(m)) by {
                assert(self@[0] == m);
            }
        }
        while i < self.data.len()
            invariant
                1 <= i <= self@.len(),
                self@.contains(m),
                forall|t: int| 0 <= t < i ==> m <= #[trigger] self@[t],
            decreases self@.len() - i,
        {
            let v = self.data[i];
            if v < m {
                m = v;
                proof {
                    assert(self@[i as int] == v);
                }
            }
            i += 1;
        }
        Some(m)
    }

    /// The number of values held.
    pub fn len(&self) -> (n: usize)
        ensures
            n == self@.len(),
    {
        self.data.len()
    }

    /// Whether the queue holds nothing.
    pub fn is_empty(&self) -> (r: bool)
        ensures
            r == (self@.len() == 0),
    {
        self.data.len() == 0
    }
}

} // verus!
