//! An ordered set of row indices, kept as a strictly increasing vector.

use vstd::prelude::*;

verus! {

/// The set of indices held in an index vector.
pub open spec fn idx_set(s: Seq<usize>) -> Set<usize> {
    Set::new(|x: usize| s.contains(x))
}

/// Strictly increasing: each index appears once, in order.
pub open spec fn sorted_strict(s: Seq<usize>) -> bool {
    forall|a: int, b: int| 0 <= a < b < s.len() ==> s[a] < s[b]
}

/// All indices from `lo` to `hi` inclusive.
pub open spec fn range_incl(lo: int, hi: int) -> Set<usize> {
    Set::new(|x: usize| lo <= x <= hi)
}

/// Membership test by linear scan.
pub fn vec_contains(v: &Vec<usize>, x: usize) -> (r: bool)
    ensures
        r == idx_set(v@).contains(x),
{
    let mut k: usize = 0;
    while k < v.len()
        invariant
            k <= v@.len(),
            forall|kk: int| 0 <= kk < k ==> v@[kk] != x,
        decreases v@.len() - k,
    {
        if v[k] == x {
            assert(v@.contains(x));
            return true;
        }
        k += 1;
    }
    assert(!v@.contains(x));
    false
}

/// Insert `x`, keeping the vector strictly increasing; a no-op when `x` is
/// already present.
pub fn insert_sorted(v: &mut Vec<usize>, x: usize)
    requires
        sorted_strict(old(v)@),
    ensures
        sorted_strict(final(v)@),
        idx_set(final(v)@) == idx_set(old(v)@).insert(x),
{
    let mut pos: usize = 0;
    while pos < v.len() && v[pos] < x
        invariant
            pos <= v@.len(),
            v@ == old(v)@,
            forall|k: int| 0 <= k < pos ==> v@[k] < x,
        decreases v@.len() - pos,
    {
        pos += 1;
    }
    if pos < v.len() && v[pos] == x {
        assert(v@.contains(x));
        assert(idx_set(v@) =~= idx_set(old(v)@).insert(x));
        return;
    }
    assert(pos < v@.len() ==> v@[pos as int] > x);
    let ghost before = v@;
    v.insert(pos, x);
    proof {
        before.insert_ensures(pos as int, x);
        assert(forall|k: int| 0 <= k < pos ==> #[trigger] v@[k] == before[k]);
        assert(forall|k: int| pos < k < v@.len() ==> #[trigger] v@[k] == before[k - 1]);
        assert(v@[pos as int] == x);
        assert(sorted_strict(v@));
        assert(idx_set(v@) =~= idx_set(before).insert(x)) by {
            assert forall|y: usize| idx_set(before).insert(x).contains(y)
                implies idx_set(v@).contains(y) by {
                if y == x {
                    assert(v@[pos as int] == y);
                    assert(v@.contains(y));
                } else {
                    let k = choose|k: int| 0 <= k < before.len() && before[k] == y;
                    if k < pos {
                        assert(v@[k] == y);
                    } else {
                        assert(v@[k + 1] == y);
                    }
                    assert(v@.contains(y));
                }
            }
            assert forall|y: usize| idx_set(v@).contains(y)
                implies idx_set(before).insert(x).contains(y) by {
                let k = choose|k: int| 0 <= k < v@.len() && v@[k] == y;
                if k < pos {
                    assert(before[k] == y);
                    assert(before.contains(y));
                } else if k == pos {
                    assert(y == x);
                } else {
                    assert(before[k - 1] == y);
                    assert(before.contains(y));
                }
            }
        }
    }
}

/// Remove `x` if present, keeping the vector strictly increasing.
pub fn remove_sorted(v: &mut Vec<usize>, x: usize)
    requires
        sorted_strict(old(v)@),
    ensures
        sorted_strict(final(v)@),
        idx_set(final(v)@) == idx_set(old(v)@).remove(x),
{
    let mut pos: usize = 0;
    while pos < v.len() && v[pos] != x
        invariant
            pos <= v@.len(),
            v@ == old(v)@,
            forall|k: int| 0 <= k < pos ==> v@[k] != x,
        decreases v@.len() - pos,
    {
        pos += 1;
    }
    if pos == v.len() {
        assert(!v@.contains(x));
        assert(idx_set(v@) =~= idx_set(old(v)@).remove(x));
        return;
    }
    let ghost before = v@;
    assert(before[pos as int] == x);
    v.remove(pos);
    proof {
        before.remove_ensures(pos as int);
        assert(forall|k: int| 0 <= k < pos ==> #[trigger] v@[k] == before[k]);
        assert(forall|k: int| pos <= k < v@.len() ==> #[trigger] v@[k] == before[k + 1]);
        assert(sorted_strict(v@));
        assert(idx_set(v@) =~= idx_set(before).remove(x)) by {
            assert forall|y: usize| idx_set(v@).contains(y)
                implies idx_set(before).remove(x).contains(y) by {
                let k = choose|k: int| 0 <= k < v@.len() && v@[k] == y;
                if k < pos {
                    assert(before[k] == y);
                } else {
                    assert(before[k + 1] == y);
                }
                assert(before.contains(y));
                // `x` sits only at `pos`, so it is gone from the result
                assert(y != x) by {
                    if k < pos {
                        assert(before[k] < before[pos as int]);
                    } else {
                        assert(before[pos as int] < before[k + 1]);
                    }
                }
            }
            assert forall|y: usize| idx_set(before).remove(x).contains(y)
                implies idx_set(v@).contains(y) by {
                let k = choose|k: int| 0 <= k < before.len() && before[k] == y;
                if k < pos {
                    assert(v@[k] == y);
                } else if k == pos {
                    assert(y == x);
                } else {
                    assert(v@[k - 1] == y);
                }
                assert(v@.contains(y));
            }
        }
    }
}

/// Insert every index from `a` to `b` inclusive.
pub fn insert_range(v: &mut Vec<usize>, a: usize, b: usize)
    requires
        sorted_strict(old(v)@),
        a <= b,
        b < usize::MAX,
    ensures
        sorted_strict(final(v)@),
        idx_set(final(v)@) == idx_set(old(v)@).union(range_incl(a as int, b as int)),
{
    let mut k: usize = a;
    while k <= b
        invariant
            sorted_strict(v@),
            a <= k <= b + 1,
            b < usize::MAX,
            idx_set(v@) == idx_set(old(v)@).union(range_incl(a as int, k - 1)),
        decreases b - k + 1,
    {
        insert_sorted(v, k);
        assert(idx_set(v@) =~= idx_set(old(v)@).union(range_incl(a as int, k as int)));
        k += 1;
    }
    assert(idx_set(v@) =~= idx_set(old(v)@).union(range_incl(a as int, b as int)));
}

/// In a strictly increasing, non-empty vector the first and last entries
/// are the minimum and maximum of the index set.
pub proof fn lemma_sorted_bounds(s: Seq<usize>)
    requires
        sorted_strict(s),
        s.len() > 0,
    ensures
        idx_set(s).contains(s[0]),
        idx_set(s).contains(s[s.len() - 1]),
        forall|x: usize| idx_set(s).contains(x) ==> s[0] <= x <= s[s.len() - 1],
{
    assert(s.contains(s[0]));
    assert(s.contains(s[s.len() - 1]));
    assert(forall|x: usize| s.contains(x) ==> s[0] <= x <= s[s.len() - 1]) by {
        assert(forall|k: int| 0 <= k < s.len()
            ==> s[0] <= #[trigger] s[k] <= s[s.len() - 1]);
    }
}

} // verus!
