//! The four construction entry points of the adaptor library, offered on
//! every producer: infinite replay, lookahead extraction, fan-out to two
//! handles, and consecutive run grouping.

use crate::cycle::{CycleModel, LazyCycle};
use crate::extract::Extract;
use crate::group_by::{run_groups, GroupBy, KeyFn};
use crate::producer::Producer;
use crate::tee::{split_into_tee, Tee, TeeSource};
use vstd::prelude::*;

verus! {

/// Extends every producer with the adaptor constructors. Each adaptor
/// consumes the producer it wraps, and each either satisfies the pull
/// contract itself or states its behaviour over the same abstract models,
/// so adaptors compose.
pub trait ExtendedIterator<T>: Producer<T> {
    /// Wraps this producer so that its values are replayed forever (nothing
    /// at all if it emits no values).
    fn lazy_cycle(self) -> (r: LazyCycle<T, Self>) where T: Copy
        ensures
            r@ == (CycleModel { src: self.remaining(), hist: Seq::<T>::empty(), cur: 0nat }),
    ;

    /// Returns the value at zero-based position `index` of this producer's
    /// emission order (`None` if it has fewer than `index + 1` values), and
    /// the adaptor that delivers every other value, in the original order.
    fn extract(self, index: usize) -> (r: (Option<T>, Extract<T, Self>))
        ensures
            index < self.remaining().len() ==> r.0 == Some(self.remaining()[index as int])
                && r.1.remaining() == self.remaining().remove(index as int),
            index >= self.remaining().len() ==> r.0 is None && r.1.remaining()
                == self.remaining(),
    ;

    /// Splits this producer into two independently paced handles over one
    /// shared record; the producer is pulled at most once per position no
    /// matter how the handles' pulls are interleaved.
    fn tee(self) -> (r: (TeeSource<T, Self>, Tee, Tee)) where T: Copy
        ensures
            r.0.stream() == self.remaining(),
            r.0.buffered() == 0,
            r.1.position() == 0,
            r.2.position() == 0,
    ;

    /// Wraps this producer so that maximal runs of consecutive values with
    /// equal keys under `func` are delivered as (key, values) pairs.
    fn group_by<V, F: KeyFn<T, V>>(self, func: F) -> (r: GroupBy<T, V, Self, F>)
        ensures
            r.wf(),
            r.pending() == run_groups(func, self.remaining(), Option::<(V, Seq<T>)>::None),
    ;
}

impl<T, P: Producer<T>> ExtendedIterator<T> for P {
    fn lazy_cycle(self) -> (r: LazyCycle<T, Self>) where T: Copy {
        LazyCycle::new(self)
    }

    fn extract(self, index: usize) -> (r: (Option<T>, Extract<T, Self>)) {
        Extract::new(self, index)
    }

    fn tee(self) -> (r: (TeeSource<T, Self>, Tee, Tee)) where T: Copy {
        split_into_tee(self)
    }

    fn group_by<V, F: KeyFn<T, V>>(self, func: F) -> (r: GroupBy<T, V, Self, F>) {
        GroupBy::new(self, func)
    }
}

} // verus!
