//! Infinite replay of a finite sequence: the cycle adaptor first passes every
//! value of the wrapped producer through, recording each into a history, and
//! once the producer is exhausted it replays the history forever, wrapping
//! the replay cursor back to the start when it runs past the end. Cycling a
//! producer that yielded no values yields nothing.

use crate::producer::Producer;
use vstd::prelude::*;

verus! {

/// The abstract state of a cycle adaptor: the values the wrapped producer
/// will still emit, the values emitted so far, and the replay cursor (used
/// only once the producer is exhausted).
pub struct CycleModel<T> {
    pub src: Seq<T>,
    pub hist: Seq<T>,
    pub cur: nat,
}

/// One pull of the cycle adaptor, as a transition on its abstract state:
/// pass a fresh value through and record it, or replay the history,
/// wrapping the cursor, or report exhaustion if there is no history.
pub open spec fn cycle_pull<T>(m: CycleModel<T>) -> (CycleModel<T>, Option<T>) {
    if m.src.len() > 0 {
        (
            CycleModel { src: m.src.drop_first(), hist: m.hist.push(m.src[0]), cur: m.cur },
            Some(m.src[0]),
        )
    } else if m.hist.len() == 0 {
        (m, None)
    } else {
        let i = if m.cur >= m.hist.len() {
            0
        } else {
            m.cur as int
        };
        (CycleModel { src: m.src, hist: m.hist, cur: (i + 1) as nat }, Some(m.hist[i]))
    }
}

/// The values that `n` successive pulls of the cycle adaptor emit, starting
/// from abstract state `m`.
pub open spec fn cycle_outputs<T>(m: CycleModel<T>, n: nat) -> Seq<T>
    decreases n,
{
    if n == 0 {
        Seq::<T>::empty()
    } else {
        let (m2, r) = cycle_pull(m);
        (match r {
            Some(v) => seq![v],
            None => Seq::<T>::empty(),
        }) + cycle_outputs(m2, (n - 1) as nat)
    }
}

/// The abstract state a cycle adaptor over source `s` reaches after `k`
/// pulls: first the source is consumed and mirrored into the history, then
/// the cursor walks the full history, wrapping modulo its length.
pub open spec fn cycle_inv<T>(m: CycleModel<T>, s: Seq<T>, k: nat) -> bool {
    if k < s.len() {
        m.src == s.skip(k as int) && m.hist == s.take(k as int) && m.cur == 0
    } else {
        s.len() > 0 && m.src.len() == 0 && m.hist == s && m.cur <= s.len() && m.cur % s.len() == k
            % s.len()
    }
}

proof fn lemma_cycle_outputs_from<T>(m: CycleModel<T>, s: Seq<T>, k: nat, n: nat)
    requires
        s.len() > 0,
        cycle_inv(m, s, k),
    ensures
        cycle_outputs(m, n) == Seq::new(n, |i: int| s[(k + i) % (s.len() as int)]),
    decreases n,
{
    let len = s.len() as int;
    let expect = Seq::new(n, |i: int| s[(k + i) % len]);
    if n == 0 {
        assert(cycle_outputs(m, n) =~= expect);
    } else {
        let (m2, r) = cycle_pull(m);
        if k < s.len() {
            assert(m.src[0] == s[k as int]);
            assert(m2.src =~= s.skip(k + 1int));
            assert(m2.hist =~= s.take(k + 1int));
            if k + 1 == s.len() {
                vstd::arithmetic::div_mod::lemma_mod_self_0(len);
                vstd::arithmetic::div_mod::lemma_small_mod(0, s.len());
                assert(s.take(s.len() as int) =~= s);
                assert(cycle_inv(m2, s, k + 1));
            }
            lemma_cycle_outputs_from(m2, s, k + 1, (n - 1) as nat);
            vstd::arithmetic::div_mod::lemma_small_mod(k, s.len());
            assert(cycle_outputs(m, n) =~= expect);
        } else {
            let i0 = if m.cur >= m.hist.len() {
                0
            } else {
                m.cur as int
            };
            if m.cur >= m.hist.len() {
                vstd::arithmetic::div_mod::lemma_mod_self_0(len);
            } else {
                vstd::arithmetic::div_mod::lemma_small_mod(m.cur, s.len());
            }
            assert(i0 == m.cur as int % len);
            assert(r == Some(s[k as int % len]));
            vstd::arithmetic::div_mod::lemma_small_mod(i0 as nat, s.len());
            vstd::arithmetic::div_mod::lemma_add_mod_noop(i0, 1, len);
            vstd::arithmetic::div_mod::lemma_add_mod_noop(k as int, 1, len);
            assert(m2.cur % s.len() == (k + 1) % s.len());
            assert(cycle_inv(m2, s, k + 1));
            lemma_cycle_outputs_from(m2, s, k + 1, (n - 1) as nat);
            assert(cycle_outputs(m, n) =~= expect);
        }
    }
}

proof fn lemma_cycle_outputs_empty<T>(m: CycleModel<T>, n: nat)
    requires
        m.src.len() == 0,
        m.hist.len() == 0,
    ensures
        cycle_outputs(m, n) == Seq::<T>::empty(),
    decreases n,
{
    if n > 0 {
        lemma_cycle_outputs_empty(m, (n - 1) as nat);
    }
    assert(cycle_outputs(m, n) =~= Seq::<T>::empty());
}

/// The cycle law: starting from a fresh cycle adaptor over a source that
/// will emit `s`, pulling `n` times emits `s` repeated over and over,
/// truncated to `n` values - and nothing at all if `s` is empty.
pub proof fn lemma_cycle_law<T>(s: Seq<T>, n: nat)
    ensures
        s.len() == 0 ==> cycle_outputs(
            CycleModel { src: s, hist: Seq::<T>::empty(), cur: 0nat },
            n,
        ) == Seq::<T>::empty(),
        s.len() > 0 ==> cycle_outputs(CycleModel { src: s, hist: Seq::<T>::empty(), cur: 0nat }, n)
            == Seq::new(n, |i: int| s[i % (s.len() as int)]),
{
    let m = CycleModel { src: s, hist: Seq::<T>::empty(), cur: 0nat };
    if s.len() == 0 {
        lemma_cycle_outputs_empty(m, n);
    } else {
        assert(m.src =~= s.skip(0));
        assert(m.hist =~= s.take(0));
        lemma_cycle_outputs_from(m, s, 0, n);
        assert(Seq::new(n, |i: int| s[(0 + i) % (s.len() as int)]) =~= Seq::new(
            n,
            |i: int| s[i % (s.len() as int)],
        ));
    }
}

/// Wraps a producer and replays its values forever (see the module text).
pub struct LazyCycle<T, P: Producer<T>> {
    iter: P,
    buf: Vec<T>,
    ind: usize,
}

impl<T, P: Producer<T>> View for LazyCycle<T, P> {
    type V = CycleModel<T>;

    closed spec fn view(&self) -> CycleModel<T> {
        CycleModel { src: self.iter.remaining(), hist: self.buf@, cur: self.ind as nat }
    }
}

impl<T: Copy, P: Producer<T>> LazyCycle<T, P> {
    /// Wraps `iter`; nothing has been emitted and the cursor is at the start.
    pub fn new(iter: P) -> (r: Self)
        ensures
            r@ == (CycleModel { src: iter.remaining(), hist: Seq::<T>::empty(), cur: 0nat }),
    {
        let r = LazyCycle { iter, buf: Vec::new(), ind: 0 };
        proof {
            assert(r@ =~= (CycleModel {
                src: r.iter.remaining(),
                hist: Seq::<T>::empty(),
                cur: 0nat,
            }));
        }
        r
    }

    /// One pull: exactly the `cycle_pull` transition on the adaptor's state.
    pub fn next(&mut self) -> (r: Option<T>)
        ensures
            final(self)@ == cycle_pull(old(self)@).0,
            r == cycle_pull(old(self)@).1,
    {
        if let Some(item) = self.iter.next() {
            self.buf.push(item);
            Some(item)
        } else if self.buf.len() == 0 {
            None
        } else {
            if self.ind >= self.buf.len() {
                self.ind = 0;
            }
            let item = self.buf[self.ind];
            self.ind = self.ind + 1;
            Some(item)
        }
    }
}

} // verus!
