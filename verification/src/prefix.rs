//! The longest common prefix of a list of strings, measured in characters.

use vstd::prelude::*;
use vstd::string::StrSliceExecFns;

verus! {

/// The first `n` characters are shared by the first `j` strings of `strs`:
/// each is at least `n` characters long and agrees with the first string on
/// every position below `n`.
pub open spec fn common_prefix_upto(strs: Seq<&str>, j: int, n: int) -> bool {
    forall|t: int|
        0 <= t < j ==> n <= (#[trigger] strs[t])@.len() && strs[t]@.take(n) == strs[0]@.take(n)
}

/// Returns the longest common prefix of all the strings: the unique longest
/// sequence of characters that every string starts with. An empty list, or
/// any empty string in it, gives the empty string.
pub fn longest_common_prefix(strs: Vec<&str>) -> (r: String)
    ensures
        strs@.len() == 0 ==> r@ == Seq::<char>::empty(),
        strs@.len() > 0 ==> r@ == strs@[0]@.take(r@.len() as int) && common_prefix_upto(
            strs@,
            strs@.len() as int,
            r@.len() as int,
        ) && (forall|n: int|
            #[trigger] common_prefix_upto(strs@, strs@.len() as int, n) ==> n <= r@.len()),
{
    if strs.len() == 0 {
        return String::new();
    }
    let first = strs[0];
    let mut k = first.unicode_len();
    let mut j: usize = 1;
    while j < strs.len()
        invariant
            1 <= j <= strs@.len(),
            first == strs@[0],
            k <= first@.len(),
            common_prefix_upto(strs@, j as int, k as int),
            forall|n: int| #[trigger] common_prefix_upto(strs@, j as int, n) ==> n <= k,
        decreases strs@.len() - j,
    {
        let ghost k_before = k as int;
        let s = strs[j];
        let slen = s.unicode_len();
        if slen < k {
            k = slen;
        }
        let mut i: usize = 0;
        let mut mismatch = false;
        while i < k && !mismatch
            invariant
                i <= k,
                k <= first@.len(),
                k <= s@.len(),
                forall|t: int| 0 <= t < i ==> first@[t] == s@[t],
                mismatch ==> i < k && first@[i as int] != s@[i as int],
            decreases k - i, 1int - (if mismatch { 1int } else { 0int }),
        {
            if first.get_char(i) != s.get_char(i) {
                mismatch = true;
            } else {
                i += 1;
            }
        }
        let ghost k_mid = k as int;
        if mismatch {
            k = i;
        }
        proof {
            // the first j strings still share the (possibly shorter) prefix
            assert forall|t: int| 0 <= t < j + 1 implies k as int <= (#[trigger] strs@[t])@.len()
                && strs@[t]@.take(k as int) == strs@[0]@.take(k as int) by {
                if t < j {
                    assert(strs@[t]@.take(k_before) == strs@[0]@.take(k_before));
                    assert(strs@[t]@.take(k as int) =~= strs@[t]@.take(k_before).take(k as int));
                    assert(strs@[0]@.take(k as int) =~= strs@[0]@.take(k_before).take(k as int));
                } else {
                    assert(strs@[t] == s);
                    assert(s@.take(k as int) =~= strs@[0]@.take(k as int));
                }
            }
            // and no longer prefix is shared once string j is included
            assert forall|n: int| #[trigger] common_prefix_upto(strs@, j + 1, n) implies n
                <= k by {
                assert(common_prefix_upto(strs@, j as int, n));
                assert(n <= k_before);
                assert(n <= s@.len());
                if n > k as int {
                    assert(mismatch);
                    assert(s@.take(n)[k as int] == strs@[0]@.take(n)[k as int]);
                    assert(false);
                }
            }
        }
        j += 1;
    }
    let prefix = first.substring_char(0, k);
    proof {
        assert(first@.subrange(0, k as int) =~= first@.take(k as int));
    }
    prefix.to_owned()
}

} // verus!
