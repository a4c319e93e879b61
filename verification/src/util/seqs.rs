//! Facts about sequences that the stores and services lean on.

use vstd::prelude::*;

verus! {

/// What a sequence holds after one more element was added.
pub proof fn lemma_push_contains<T>(s: Seq<T>, x: T, e: T)
    ensures
        s.push(x).contains(e) <==> s.contains(e) || e == x,
{
    if s.contains(e) {
        let k = choose|k: int| 0 <= k < s.len() && s[k] == e;
        assert(s.push(x)[k] == e);
    }
    if e == x {
        assert(s.push(x)[s.len() as int] == e);
    }
    if s.push(x).contains(e) {
        let k = choose|k: int| 0 <= k < s.push(x).len() && s.push(x)[k] == e;
        if k < s.len() {
            assert(s[k] == e);
        }
    }
}

/// What the first `i + 1` elements hold beyond the first `i`.
pub proof fn lemma_take_contains<T>(s: Seq<T>, i: int, e: T)
    requires
        0 <= i < s.len(),
    ensures
        s.take(i + 1).contains(e) <==> s.take(i).contains(e) || e == s[i],
{
    assert(s.take(i + 1) =~= s.take(i).push(s[i]));
    lemma_push_contains(s.take(i), s[i], e);
}

/// Each number is less than those after it.
pub open spec fn strictly_increasing(s: Seq<i64>) -> bool {
    forall|i: int, j: int| 0 <= i < j < s.len() ==> s[i] < s[j]
}

/// Puts `x` in its place in an increasing list, unless it is there.
pub fn insert_sorted(list: &mut Vec<i64>, x: i64)
    requires
        strictly_increasing(old(list)@),
    ensures
        strictly_increasing(final(list)@),
        forall|e: i64| #[trigger] final(list)@.contains(e) <==> old(list)@.contains(e) || e == x,
{
    let mut p: usize = 0;
    while p < list.len() && list[p] < x
        invariant
            p <= list.len(),
            list@ == old(list)@,
            forall|k: int| 0 <= k < p ==> list@[k] < x,
        decreases list.len() - p,
    {
        p += 1;
    }
    if p < list.len() && list[p] == x {
        assert(list@.contains(x));
        return ;
    }
    list.insert(p, x);
    proof {
        let before = old(list)@;
        let after = list@;
        assert forall|i: int, j: int| 0 <= i < j < after.len() implies after[i] < after[j] by {
            if j < p {
                assert(after[i] == before[i] && after[j] == before[j]);
            } else if j == p {
                assert(after[i] == before[i]);
            } else if i < p {
                assert(after[i] == before[i] && after[j] == before[j - 1]);
                assert(before[i] < x);
                assert(x < before[p as int]);
                assert(before[p as int] <= before[j - 1]);
            } else if i == p {
                assert(after[j] == before[j - 1]);
                assert(before[p as int] <= before[j - 1]);
            } else {
                assert(after[i] == before[i - 1] && after[j] == before[j - 1]);
            }
        }
        assert forall|e: i64| #[trigger] after.contains(e) <==> before.contains(e) || e == x by {
            if before.contains(e) {
                let k = choose|k: int| 0 <= k < before.len() && before[k] == e;
                if k < p {
                    assert(after[k] == e);
                } else {
                    assert(after[k + 1] == e);
                }
            }
            if e == x {
                assert(after[p as int] == e);
            }
            if after.contains(e) {
                let k = choose|k: int| 0 <= k < after.len() && after[k] == e;
                if k < p {
                    assert(before[k] == e);
                } else if k > p {
                    assert(before[k - 1] == e);
                }
            }
        }
    }
}

} // verus!
