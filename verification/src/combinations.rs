//! Enumeration of all fixed-size combinations of a slice, in the order
//! obtained by recursing on the first element.

use vstd::prelude::*;

verus! {

/// All ways to choose `k` elements of `s` keeping their relative order:
/// first every combination that uses `s[0]`, then every one that skips it.
pub open spec fn combinations_spec(s: Seq<i32>, k: nat) -> Seq<Seq<i32>>
    decreases s.len(),
{
    if k == 0 {
        seq![Seq::<i32>::empty()]
    } else if s.len() < k {
        Seq::<Seq<i32>>::empty()
    } else {
        combinations_spec(s.drop_first(), (k - 1) as nat).map_values(|c: Seq<i32>| seq![s[0]] + c)
            + combinations_spec(s.drop_first(), k)
    }
}

/// Returns every combination of `k` elements of `arr`, each in the original
/// order, listed as `combinations_spec` describes.
pub fn combinations(arr: &[i32], k: usize) -> (r: Vec<Vec<i32>>)
    ensures
        r.deep_view() == combinations_spec(arr@, k as nat),
    decreases arr@.len(),
{
    let mut all: Vec<Vec<i32>> = Vec::new();
    if k == 0 {
        all.push(Vec::new());
        assert(all.deep_view() =~~= combinations_spec(arr@, 0));
        return all;
    }
    if arr.len() >= k {
        let ghost prepended = combinations_spec(arr@.drop_first(), (k - 1) as nat).map_values(
            |c: Seq<i32>| seq![arr@[0]] + c,
        );
        let shorter = combinations(&arr[1..arr.len()], k - 1);
        assert(arr@.subrange(1, arr@.len() as int) =~= arr@.drop_first());
        let mut j: usize = 0;
        while j < shorter.len()
            invariant
                j <= shorter.len(),
                shorter.deep_view() == combinations_spec(arr@.drop_first(), (k - 1) as nat),
                arr@.len() >= k >= 1,
                prepended == combinations_spec(arr@.drop_first(), (k - 1) as nat).map_values(
                    |c: Seq<i32>| seq![arr@[0]] + c,
                ),
                all.deep_view() =~~= prepended.take(j as int),
            decreases shorter.len() - j,
        {
            let mut with_first: Vec<i32> = Vec::new();
            with_first.push(arr[0]);
            let mut t: usize = 0;
            while t < shorter[j].len()
                invariant
                    j < shorter.len(),
                    arr@.len() >= 1,
                    t <= shorter[j as int].len(),
                    with_first@ =~= seq![arr@[0]] + shorter@[j as int]@.take(t as int),
                decreases shorter[j as int].len() - t,
            {
                with_first.push(shorter[j][t]);
                t += 1;
            }
            assert(with_first@ =~= seq![arr@[0]] + shorter.deep_view()[j as int]);
            assert(prepended[j as int] == seq![arr@[0]] + shorter.deep_view()[j as int]);
            assert(with_first.deep_view() =~= with_first@);
            let ghost dv_before = all.deep_view();
            all.push(with_first);
            assert(all.deep_view() =~~= dv_before.push(with_first@));
            assert(all.deep_view() =~~= prepended.take(j + 1));
            j += 1;
        }
        assert(all.deep_view() =~~= prepended);
        let mut without = combinations(&arr[1..arr.len()], k);
        let ghost all_before = all.deep_view();
        all.append(&mut without);
        assert(all.deep_view() =~~= all_before + combinations_spec(arr@.drop_first(), k as nat));
    }
    assert(all.deep_view() =~~= combinations_spec(arr@, k as nat));
    all
}

} // verus!
