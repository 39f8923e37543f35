use vstd::prelude::*;

verus! {

/// A list without repetition that takes on an item it does not hold stays
/// without repetition.
pub proof fn lemma_push_no_duplicates<A>(s: Seq<A>, item: A)
    requires
        s.no_duplicates(),
        !s.contains(item),
    ensures
        s.push(item).no_duplicates(),
{
    let t = s.push(item);
    assert forall|i: int, j: int| 0 <= i < t.len() && 0 <= j < t.len() && i != j implies t[i]
        != t[j] by {
        if i < s.len() && j < s.len() {
            assert(s[i] != s[j]);
        } else if i < s.len() {
            assert(s.contains(s[i]));
        } else {
            assert(s.contains(s[j]));
        }
    }
}

/// Every item of the list lies below the bound.
pub open spec fn all_below(s: Seq<usize>, bound: nat) -> bool {
    forall|i: int| 0 <= i < s.len() ==> (#[trigger] s[i]) < bound
}

/// A list without repetition of numbers below a bound is at most as long as
/// the bound.
pub proof fn lemma_bounded_len(s: Seq<usize>, bound: nat)
    requires
        s.no_duplicates(),
        all_below(s, bound),
    ensures
        s.len() <= bound,
    decreases bound,
{
    if bound == 0 {
        if s.len() > 0 {
            assert(s[0] < bound);
        }
    } else {
        let top = (bound - 1) as usize;
        if s.contains(top) {
            let k = choose|k: int| 0 <= k < s.len() && s[k] == top;
            let rest = s.remove(k);
            assert forall|i: int| 0 <= i < rest.len() implies (#[trigger] rest[i]) < bound - 1 by {
                if i < k {
                    assert(rest[i] == s[i]);
                    assert(s[i] != s[k]);
                } else {
                    assert(rest[i] == s[i + 1]);
                    assert(s[i + 1] != s[k]);
                }
            }
            assert forall|i: int, j: int|
                0 <= i < rest.len() && 0 <= j < rest.len() && i != j implies rest[i] != rest[j] by {
                let si = if i < k {
                    i
                } else {
                    i + 1
                };
                let sj = if j < k {
                    j
                } else {
                    j + 1
                };
                assert(rest[i] == s[si]);
                assert(rest[j] == s[sj]);
            }
            lemma_bounded_len(rest, (bound - 1) as nat);
        } else {
            assert forall|i: int| 0 <= i < s.len() implies (#[trigger] s[i]) < bound - 1 by {
                assert(s.contains(s[i]));
            }
            lemma_bounded_len(s, (bound - 1) as nat);
        }
    }
}

/// A list that holds every number below a bound is at least as long as the
/// bound.
pub proof fn lemma_covering_len(s: Seq<usize>, bound: nat)
    requires
        bound <= usize::MAX + 1,
        forall|x: usize| x < bound ==> s.contains(x),
    ensures
        s.len() >= bound,
    decreases bound,
{
    if bound > 0 {
        let top = (bound - 1) as usize;
        assert(s.contains(top));
        let k = choose|k: int| 0 <= k < s.len() && s[k] == top;
        let rest = s.remove(k);
        assert forall|x: usize| x < bound - 1 implies rest.contains(x) by {
            assert(s.contains(x));
            let i = choose|i: int| 0 <= i < s.len() && s[i] == x;
            if i < k {
                assert(rest[i] == x);
            } else {
                assert(rest[i - 1] == x);
            }
        }
        lemma_covering_len(rest, (bound - 1) as nat);
    }
}

/// A list without repetition of as many numbers below a bound as the bound
/// says holds every number below the bound.
pub proof fn lemma_full(s: Seq<usize>, bound: nat, x: usize)
    requires
        s.no_duplicates(),
        all_below(s, bound),
        s.len() == bound,
        x < bound,
    ensures
        s.contains(x),
{
    if !s.contains(x) {
        let t = Seq::new(
            s.len(),
            |i: int|
                if s[i] > x {
                    (s[i] - 1) as usize
                } else {
                    s[i]
                },
        );
        assert forall|i: int| 0 <= i < t.len() implies (#[trigger] t[i]) < bound - 1 by {
            assert(s[i] < bound);
            assert(s.contains(s[i]));
        }
        assert forall|i: int, j: int| 0 <= i < t.len() && 0 <= j < t.len() && i != j implies t[i]
            != t[j] by {
            assert(s[i] != s[j]);
            assert(s.contains(s[i]));
            assert(s.contains(s[j]));
        }
        lemma_bounded_len(t, (bound - 1) as nat);
    }
}

/// Where one of the first `bound` items of a list is missing from another
/// list, a first such item is.
pub proof fn lemma_first_missing(s: Seq<usize>, other: Seq<usize>, bound: int) -> (first: int)
    requires
        0 <= bound <= s.len(),
        exists|k: int| 0 <= k < bound && !other.contains(#[trigger] s[k]),
    ensures
        0 <= first < bound,
        !other.contains(s[first]),
        forall|i: int| 0 <= i < first ==> other.contains(#[trigger] s[i]),
    decreases bound,
{
    if exists|k: int| 0 <= k < bound - 1 && !other.contains(#[trigger] s[k]) {
        lemma_first_missing(s, other, bound - 1)
    } else {
        let k = choose|k: int| 0 <= k < bound && !other.contains(#[trigger] s[k]);
        assert(k == bound - 1);
        k
    }
}

} // verus!
