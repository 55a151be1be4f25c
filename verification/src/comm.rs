//! The common lines of two line lists, with set semantics: every line of
//! the second list that also occurs in the first is reported once, in the
//! order the second list presents it, and duplicates in either list count
//! only once.

use vstd::prelude::*;

verus! {

/// `lines` with later repetitions dropped, front to back, accumulated onto
/// the distinct lines already `seen`.
pub open spec fn dedup_from(lines: Seq<Seq<char>>, seen: Seq<Seq<char>>) -> Seq<Seq<char>>
    decreases lines.len(),
{
    if lines.len() == 0 {
        seen
    } else if seen.contains(lines[0]) {
        dedup_from(lines.drop_first(), seen)
    } else {
        dedup_from(lines.drop_first(), seen.push(lines[0]))
    }
}

/// `s` with the first occurrence of `x` removed (and unchanged if `x` does
/// not occur).
pub open spec fn remove_first(s: Seq<Seq<char>>, x: Seq<char>) -> Seq<Seq<char>>
    decreases s.len(),
{
    if s.len() == 0 {
        s
    } else if s[0] == x {
        s.drop_first()
    } else {
        seq![s[0]] + remove_first(s.drop_first(), x)
    }
}

/// The lines of `rest` that are still available: each match is reported and
/// consumes its line, so every available line is reported at most once.
pub open spec fn sift(avail: Seq<Seq<char>>, rest: Seq<Seq<char>>) -> Seq<Seq<char>>
    decreases rest.len(),
{
    if rest.len() == 0 {
        Seq::<Seq<char>>::empty()
    } else if avail.contains(rest[0]) {
        seq![rest[0]] + sift(remove_first(avail, rest[0]), rest.drop_first())
    } else {
        sift(avail, rest.drop_first())
    }
}

/// Removing the first occurrence found by a scan is `remove_first`.
proof fn lemma_remove_first_at(s: Seq<Seq<char>>, x: Seq<char>, i: int)
    requires
        0 <= i < s.len(),
        forall|t: int| 0 <= t < i ==> s[t] != x,
        s[i] == x,
    ensures
        remove_first(s, x) == s.remove(i),
    decreases s.len(),
{
    if i == 0 {
        assert(s.drop_first() =~= s.remove(0));
    } else {
        lemma_remove_first_at(s.drop_first(), x, i - 1);
        assert(seq![s[0]] + s.drop_first().remove(i - 1) =~= s.remove(i));
    }
}

/// Whether some line of `v` reads `line`.
fn contains_line(v: &Vec<String>, line: &String) -> (r: bool)
    ensures
        r == v.deep_view().contains(line@),
{
    let mut i: usize = 0;
    while i < v.len()
        invariant
            i <= v@.len(),
            forall|t: int| 0 <= t < i ==> v.deep_view()[t] != line@,
        decreases v@.len() - i,
    {
        let same = line.eq(&v[i]);
        proof {
            assert(v.deep_view()[i as int] == v@[i as int]@);
        }
        if same {
            return true;
        }
        i += 1;
    }
    proof {
        assert(!v.deep_view().contains(line@)) by {
            if v.deep_view().contains(line@) {
                let t = choose|t: int|
                    0 <= t < v.deep_view().len() && v.deep_view()[t] == line@;
                assert(v.deep_view()[t] != line@);
            }
        }
    }
    false
}

/// Removes the first line of `v` that reads `line`, if any.
fn take_line(v: &mut Vec<String>, line: &String) -> (r: bool)
    ensures
        r == old(v).deep_view().contains(line@),
        final(v).deep_view() == remove_first(old(v).deep_view(), line@),
        !r ==> *final(v) == *old(v),
{
    let mut i: usize = 0;
    while i < v.len()
        invariant
            i <= v@.len(),
            *v == *old(v),
            forall|t: int| 0 <= t < i ==> v.deep_view()[t] != line@,
        decreases v@.len() - i,
    {
        let same = line.eq(&v[i]);
        proof {
            assert(v.deep_view()[i as int] == v@[i as int]@);
        }
        if same {
            proof {
                assert(old(v).deep_view()[i as int] == line@);
                lemma_remove_first_at(old(v).deep_view(), line@, i as int);
            }
            let _ = v.remove(i);
            proof {
                assert(v.deep_view() =~~= old(v).deep_view().remove(i as int));
            }
            return true;
        }
        i += 1;
    }
    proof {
        let dv = old(v).deep_view();
        assert(!dv.contains(line@)) by {
            if dv.contains(line@) {
                let t = choose|t: int| 0 <= t < dv.len() && dv[t] == line@;
                assert(dv[t] != line@);
            }
        }
        lemma_remove_first_absent(dv, line@);
    }
    false
}

proof fn lemma_remove_first_absent(s: Seq<Seq<char>>, x: Seq<char>)
    requires
        !s.contains(x),
    ensures
        remove_first(s, x) == s,
    decreases s.len(),
{
    if s.len() > 0 {
        assert(s[0] != x);
        assert(!s.drop_first().contains(x)) by {
            if s.drop_first().contains(x) {
                let t = choose|t: int|
                    0 <= t < s.drop_first().len() && s.drop_first()[t] == x;
                assert(s[t + 1] == x);
            }
        }
        lemma_remove_first_absent(s.drop_first(), x);
        assert(seq![s[0]] + s.drop_first() =~= s);
    }
}

/// The lines common to both lists: every line of `second` that also occurs
/// in `first`, reported once each, in the order of `second`.
pub fn common_lines(first: Vec<String>, second: Vec<String>) -> (r: Vec<String>)
    ensures
        r.deep_view() == sift(
            dedup_from(first.deep_view(), Seq::<Seq<char>>::empty()),
            second.deep_view(),
        ),
{
    let ghost avail0 = dedup_from(first.deep_view(), Seq::<Seq<char>>::empty());
    let mut remaining: Vec<String> = Vec::new();
    let mut i: usize = 0;
    proof {
        assert(first.deep_view().skip(0) =~= first.deep_view());
        assert(remaining.deep_view() =~= Seq::<Seq<char>>::empty());
    }
    while i < first.len()
        invariant
            i <= first@.len(),
            avail0 == dedup_from(first.deep_view(), Seq::<Seq<char>>::empty()),
            dedup_from(first.deep_view().skip(i as int), remaining.deep_view()) == avail0,
        decreases first@.len() - i,
    {
        let ghost pre = remaining.deep_view();
        let line = first[i].clone();
        proof {
            assert(line@ == first.deep_view()[i as int]);
            assert(first.deep_view().skip(i as int)[0] == first.deep_view()[i as int]);
            assert(first.deep_view().skip(i as int).drop_first() =~= first.deep_view().skip(
                i + 1,
            ));
        }
        if !contains_line(&remaining, &line) {
            remaining.push(line);
            proof {
                assert(remaining.deep_view() =~~= pre.push(first.deep_view()[i as int]));
            }
        }
        i += 1;
    }
    let mut out: Vec<String> = Vec::new();
    let mut j: usize = 0;
    proof {
        assert(second.deep_view().skip(0) =~= second.deep_view());
    }
    while j < second.len()
        invariant
            j <= second@.len(),
            out.deep_view() + sift(remaining.deep_view(), second.deep_view().skip(j as int))
                == sift(avail0, second.deep_view()),
        decreases second@.len() - j,
    {
        let ghost out_pre = out.deep_view();
        let ghost rem_pre = remaining.deep_view();
        let line = second[j].clone();
        proof {
            assert(line@ == second.deep_view()[j as int]);
            assert(second.deep_view().skip(j as int)[0] == second.deep_view()[j as int]);
            assert(second.deep_view().skip(j as int).drop_first() =~= second.deep_view().skip(
                j + 1,
            ));
        }
        if take_line(&mut remaining, &line) {
            out.push(line);
            proof {
                assert(out.deep_view() =~~= out_pre.push(second.deep_view()[j as int]));
                assert(out_pre.push(second.deep_view()[j as int]) + sift(
                    remaining.deep_view(),
                    second.deep_view().skip(j + 1),
                ) =~= out_pre + (seq![second.deep_view()[j as int]] + sift(
                    remaining.deep_view(),
                    second.deep_view().skip(j + 1),
                )));
            }
        }
        j += 1;
    }
    proof {
        assert(second.deep_view().skip(second@.len() as int) =~= Seq::<Seq<char>>::empty());
        assert(out.deep_view() + Seq::<Seq<char>>::empty() =~= out.deep_view());
    }
    out
}

} // verus!
