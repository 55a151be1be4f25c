//! Fan-out of one producer to two independently paced consumers. The shared
//! record - the wrapped producer plus a buffer of every value pulled from it
//! so far - is a single owned value; each handle holds only its own read
//! index into that buffer and passes the shared record to every pull, so the
//! "one pull completes before another begins" discipline is enforced by
//! Rust's exclusive borrows. A value is pulled from the wrapped producer at
//! most once, the first time either handle reaches a fresh position, and
//! both handles observe the identical value at every position.

use crate::producer::Producer;
use vstd::prelude::*;

verus! {

/// The record shared by the two handles of a fan-out: the wrapped producer
/// and the ordered buffer of every value pulled from it so far.
pub struct TeeSource<T, P: Producer<T>> {
    iter: P,
    buf: Vec<T>,
}

impl<T, P: Producer<T>> TeeSource<T, P> {
    /// The full sequence of values the wrapped producer emits over its whole
    /// life: what was already pulled, then what it will still emit. Pulls
    /// through either handle never change it.
    pub closed spec fn stream(&self) -> Seq<T> {
        self.buf@ + self.iter.remaining()
    }

    /// How many values have been pulled from the wrapped producer so far.
    pub closed spec fn buffered(&self) -> nat {
        self.buf@.len()
    }

    /// How many values have been pulled from the wrapped producer so far:
    /// the memory the fan-out holds, which is also its total pull count.
    pub fn buffered_len(&self) -> (n: usize)
        ensures
            n == self.buffered(),
    {
        self.buf.len()
    }
}

/// One handle of a fan-out: a read index into the shared buffer.
pub struct Tee {
    index: usize,
}

impl Tee {
    /// The position of this handle in the shared stream: how many values it
    /// has consumed.
    pub closed spec fn position(&self) -> nat {
        self.index as nat
    }

    /// A handle never runs past what was pulled from the wrapped producer.
    pub open spec fn wf<T, P: Producer<T>>(&self, shared: &TeeSource<T, P>) -> bool {
        self.position() <= shared.buffered()
    }

    /// One pull through this handle: exactly the `tee_pull` transition on
    /// (pulled-so-far, this handle's position). The stream itself and the
    /// other handle's position never change, so both handles see the same
    /// values and the producer is pulled at most once per position.
    pub fn next<T: Copy, P: Producer<T>>(&mut self, shared: &mut TeeSource<T, P>) -> (r: Option<T>)
        requires
            old(self).wf(old(shared)),
        ensures
            final(self).wf(final(shared)),
            final(shared).stream() == old(shared).stream(),
            (final(shared).buffered(), final(self).position(), r) == tee_pull(
                old(shared).stream(),
                old(shared).buffered(),
                old(self).position(),
            ),
    {
        if self.index < shared.buf.len() {
            let item = shared.buf[self.index];
            self.index = self.index + 1;
            Some(item)
        } else {
            match shared.iter.next() {
                Some(item) => {
                    shared.buf.push(item);
                    // the handle was at the buffer's old end, so the new
                    // length is exactly its advanced position
                    self.index = shared.buf.len();
                    proof {
                        assert(shared.stream() =~= old(shared).stream());
                    }
                    Some(item)
                },
                None => None,
            }
        }
    }
}

/// One pull through a fan-out handle, on the abstract state: if the handle's
/// position is inside the stream it receives the value there and advances,
/// pulling from the producer (growing `buffered`) only when it is the first
/// to reach that position; past the end of the stream nothing changes.
pub open spec fn tee_pull<T>(stream: Seq<T>, buffered: nat, pos: nat) -> (nat, nat, Option<T>) {
    if pos < stream.len() {
        (
            if pos < buffered {
                buffered
            } else {
                pos + 1
            },
            pos + 1,
            Some(stream[pos as int]),
        )
    } else {
        (buffered, pos, None)
    }
}

/// The abstract state after `n` pulls through one handle, starting from
/// `buffered` values pulled and the handle at `pos`: the number of values
/// pulled from the producer, the handle's position, and the values emitted.
pub open spec fn tee_run<T>(stream: Seq<T>, buffered: nat, pos: nat, n: nat) -> (nat, nat, Seq<T>)
    decreases n,
{
    if n == 0 {
        (buffered, pos, Seq::<T>::empty())
    } else {
        let (b2, p2, r) = tee_pull(stream, buffered, pos);
        let (b3, p3, out) = tee_run(stream, b2, p2, (n - 1) as nat);
        (
            b3,
            p3,
            (match r {
                Some(v) => seq![v],
                None => Seq::<T>::empty(),
            }) + out,
        )
    }
}

/// What `n` pulls through one handle do: the handle emits the stream from
/// its position on (stopping at the end), and the producer is pulled only
/// for the positions nobody had reached before.
pub proof fn lemma_tee_run<T>(stream: Seq<T>, buffered: nat, pos: nat, n: nat)
    requires
        pos <= buffered <= stream.len(),
    ensures
        ({
            let stop = vstd::math::min((pos + n) as int, stream.len() as int);
            tee_run(stream, buffered, pos, n) == (
                vstd::math::max(buffered as int, stop) as nat,
                stop as nat,
                stream.subrange(pos as int, stop),
            )
        }),
    decreases n,
{
    let stop = vstd::math::min((pos + n) as int, stream.len() as int);
    if n == 0 {
        assert(stream.subrange(pos as int, stop) =~= Seq::<T>::empty());
    } else {
        let (b2, p2, r) = tee_pull(stream, buffered, pos);
        lemma_tee_run(stream, b2, p2, (n - 1) as nat);
        if pos < stream.len() {
            assert(seq![stream[pos as int]] + stream.subrange(
                pos + 1int,
                vstd::math::min((p2 + (n - 1)) as int, stream.len() as int),
            ) =~= stream.subrange(pos as int, stop));
        } else {
            assert(stream.subrange(pos as int, stop) =~= Seq::<T>::empty());
        }
    }
}

/// How many entries of a pull schedule go to the first handle.
pub open spec fn count_first<T>(sched: Seq<T>, pick: T) -> nat
    decreases sched.len(),
{
    if sched.len() == 0 {
        0nat
    } else {
        (if sched[0] == pick {
            1nat
        } else {
            0nat
        }) + count_first(sched.drop_first(), pick)
    }
}

/// The abstract state after an arbitrary interleaving of pulls: `sched`
/// says, pull by pull, whether the first handle (at `a`) or the second (at
/// `b`) pulls. The result is the number of values pulled from the producer,
/// both positions, and what each handle received.
pub open spec fn tee_interleave<T>(
    stream: Seq<T>,
    buffered: nat,
    a: nat,
    b: nat,
    sched: Seq<bool>,
) -> (nat, nat, nat, Seq<T>, Seq<T>)
    decreases sched.len(),
{
    if sched.len() == 0 {
        (buffered, a, b, Seq::<T>::empty(), Seq::<T>::empty())
    } else if sched[0] {
        let (b2, a2, r) = tee_pull(stream, buffered, a);
        let (bf, af, bff, out_a, out_b) = tee_interleave(stream, b2, a2, b, sched.drop_first());
        (
            bf,
            af,
            bff,
            (match r {
                Some(v) => seq![v],
                None => Seq::<T>::empty(),
            }) + out_a,
            out_b,
        )
    } else {
        let (b2, b_2, r) = tee_pull(stream, buffered, b);
        let (bf, af, bff, out_a, out_b) = tee_interleave(stream, b2, a, b_2, sched.drop_first());
        (
            bf,
            af,
            bff,
            out_a,
            (match r {
                Some(v) => seq![v],
                None => Seq::<T>::empty(),
            }) + out_b,
        )
    }
}

/// What any interleaving of pulls does: each handle receives the stream
/// from its own position on, cut off at the stream's end or at its own pull
/// count, whatever the other handle does in between; and the producer is
/// pulled only for the positions neither handle had reached before.
pub proof fn lemma_tee_interleave<T>(
    stream: Seq<T>,
    buffered: nat,
    a: nat,
    b: nat,
    sched: Seq<bool>,
)
    requires
        a <= buffered,
        b <= buffered,
        buffered <= stream.len(),
    ensures
        ({
            let na = count_first(sched, true);
            let nb = count_first(sched, false);
            let stop_a = vstd::math::min((a + na) as int, stream.len() as int);
            let stop_b = vstd::math::min((b + nb) as int, stream.len() as int);
            tee_interleave(stream, buffered, a, b, sched) == (
                vstd::math::max(buffered as int, vstd::math::max(stop_a, stop_b)) as nat,
                stop_a as nat,
                stop_b as nat,
                stream.subrange(a as int, stop_a),
                stream.subrange(b as int, stop_b),
            )
        }),
    decreases sched.len(),
{
    let na = count_first(sched, true);
    let nb = count_first(sched, false);
    let stop_a = vstd::math::min((a + na) as int, stream.len() as int);
    let stop_b = vstd::math::min((b + nb) as int, stream.len() as int);
    if sched.len() == 0 {
        assert(stream.subrange(a as int, stop_a) =~= Seq::<T>::empty());
        assert(stream.subrange(b as int, stop_b) =~= Seq::<T>::empty());
    } else if sched[0] {
        let (b2, a2, r) = tee_pull(stream, buffered, a);
        lemma_tee_interleave(stream, b2, a2, b, sched.drop_first());
        let na2 = count_first(sched.drop_first(), true);
        let stop_a2 = vstd::math::min((a2 + na2) as int, stream.len() as int);
        if a < stream.len() {
            assert(seq![stream[a as int]] + stream.subrange(a2 as int, stop_a2) =~= stream.subrange(
                a as int,
                stop_a,
            ));
        } else {
            assert(stream.subrange(a as int, stop_a) =~= Seq::<T>::empty());
        }
    } else {
        let (b2, b_2, r) = tee_pull(stream, buffered, b);
        lemma_tee_interleave(stream, b2, a, b_2, sched.drop_first());
        let nb2 = count_first(sched.drop_first(), false);
        let stop_b2 = vstd::math::min((b_2 + nb2) as int, stream.len() as int);
        if b < stream.len() {
            assert(seq![stream[b as int]] + stream.subrange(b_2 as int, stop_b2) =~= stream.subrange(
                b as int,
                stop_b,
            ));
        } else {
            assert(stream.subrange(b as int, stop_b) =~= Seq::<T>::empty());
        }
    }
}

/// The fan-out law for arbitrary interleavings: from a fresh split over a
/// producer whose emission is `s`, any pull order that gives each handle at
/// least `s.len()` pulls hands `s` to both handles, and the producer is
/// pulled exactly `s.len()` times in total.
pub proof fn lemma_tee_any_order<T>(s: Seq<T>, sched: Seq<bool>)
    requires
        count_first(sched, true) >= s.len(),
        count_first(sched, false) >= s.len(),
    ensures
        ({
            let (pulled, a, b, out_a, out_b) = tee_interleave(s, 0, 0, 0, sched);
            pulled == s.len() && out_a == s && out_b == s
        }),
{
    lemma_tee_interleave(s, 0, 0, 0, sched);
    assert(s.subrange(0, s.len() as int) =~= s);
}

/// The fan-out law: after splitting a producer whose emission is `s`, fully
/// draining one handle and then fully draining the other yields `s` from
/// both, and the producer is pulled exactly `s.len()` times in total - all
/// of them by the first handle, none by the second.
pub proof fn lemma_tee_both_handles<T>(s: Seq<T>, na: nat, nb: nat)
    requires
        na >= s.len(),
        nb >= s.len(),
    ensures
        tee_run(s, 0, 0, na) == ((s.len(), s.len(), s)),
        tee_run(s, s.len(), 0, nb) == ((s.len(), s.len(), s)),
{
    lemma_tee_run(s, 0, 0, na);
    lemma_tee_run(s, s.len(), 0, nb);
    assert(s.subrange(0, s.len() as int) =~= s);
}

/// Splits `iter` into a shared record and two fresh handles, both at the
/// start of the stream; nothing has been pulled yet.
pub fn split_into_tee<T: Copy, P: Producer<T>>(iter: P) -> (r: (TeeSource<T, P>, Tee, Tee))
    ensures
        r.0.stream() == iter.remaining(),
        r.0.buffered() == 0,
        r.1.position() == 0,
        r.2.position() == 0,
{
    let shared = TeeSource { iter, buf: Vec::new() };
    proof {
        assert(shared.stream() =~= iter.remaining());
    }
    (shared, Tee { index: 0 }, Tee { index: 0 })
}

} // verus!
