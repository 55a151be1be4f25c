//! Single-element lookahead with an order-preserving remainder: pulling the
//! value at a future position out of a producer's emission order, while every
//! other value is still delivered later, in its original relative order.

use crate::producer::Producer;
use std::collections::VecDeque;
use vstd::prelude::*;

verus! {

/// The remainder adaptor: holds values already pulled from the wrapped
/// producer but not yet handed out, and drains that buffer before pulling
/// fresh values, so delivery order is the producer's emission order.
pub struct Extract<T, P: Producer<T>> {
    iter: P,
    buf: VecDeque<T>,
}

impl<T, P: Producer<T>> Producer<T> for Extract<T, P> {
    /// Everything still to be delivered: the buffered values, then whatever
    /// the wrapped producer will still emit.
    closed spec fn remaining(&self) -> Seq<T> {
        self.buf@ + self.iter.remaining()
    }

    fn next(&mut self) -> (r: Option<T>) {
        if self.buf.len() == 0 {
            let r = self.iter.next();
            proof {
                assert(old(self).remaining() =~= old(self).iter.remaining());
                assert(self.remaining() =~= self.iter.remaining());
                if old(self).iter.remaining().len() > 0 {
                    assert(self.remaining() =~= old(self).remaining().drop_first());
                }
            }
            r
        } else {
            let r = self.buf.pop_front();
            proof {
                assert(self.remaining() =~= old(self).remaining().drop_first());
            }
            r
        }
    }
}

impl<T, P: Producer<T>> Extract<T, P> {
    /// Performs the lookahead: returns the value at zero-based position
    /// `index` of `iter`'s emission order (`None` if `iter` has fewer than
    /// `index + 1` values), together with the remainder adaptor that will
    /// deliver every other value in the original order.
    pub fn new(iter: P, index: usize) -> (r: (Option<T>, Extract<T, P>))
        ensures
            index < iter.remaining().len() ==> r.0 == Some(iter.remaining()[index as int])
                && r.1.remaining() == iter.remaining().remove(index as int),
            index >= iter.remaining().len() ==> r.0 is None && r.1.remaining()
                == iter.remaining(),
    {
        let mut extract = Extract { iter, buf: VecDeque::new() };
        proof {
            assert(extract.remaining() =~= iter.remaining());
        }
        let item = extract.nth(index);
        (item, extract)
    }

    /// Skips forward and extracts the value at position `index` of what this
    /// adaptor would still deliver; all other values stay, in order. Values
    /// before `index` are buffered, the answer itself is not, and a position
    /// past the end leaves the adaptor unchanged and yields `None`.
    pub fn nth(&mut self, index: usize) -> (r: Option<T>)
        ensures
            index < old(self).remaining().len() ==> r == Some(
                old(self).remaining()[index as int],
            ) && final(self).remaining() == old(self).remaining().remove(index as int),
            index >= old(self).remaining().len() ==> r is None && final(self).remaining() == old(
                self,
            ).remaining(),
    {
        let ghost rem = old(self).remaining();
        if index < self.buf.len() {
            // the buffer already covers the index: splice the value out of it
            let r = self.buf.remove(index);
            proof {
                assert(self.remaining() =~= rem.remove(index as int));
            }
            return r;
        }
        // pull forward until the buffer holds exactly `index` values
        while self.buf.len() < index
            invariant
                rem == old(self).remaining(),
                self.buf@ + self.iter.remaining() == rem,
                self.buf@.len() <= index,
            decreases index - self.buf.len(),
        {
            match self.iter.next() {
                Some(v) => {
                    self.buf.push_back(v);
                    proof {
                        assert(self.buf@ + self.iter.remaining() =~= rem);
                    }
                },
                None => {
                    proof {
                        assert(self.remaining() =~= rem);
                    }
                    return None;
                },
            }
        }
        // the answer is the next fresh value; it is never buffered
        let ghost src_pre = self.iter.remaining();
        let r = self.iter.next();
        proof {
            if src_pre.len() > 0 {
                assert(rem[index as int] == src_pre[0]);
                assert(self.buf@ + self.iter.remaining() =~= rem.remove(index as int));
            } else {
                assert(self.buf@ + self.iter.remaining() =~= rem);
            }
        }
        r
    }
}

} // verus!
