//! Small vector exercises: adding a constant to every element, in a new
//! vector and in place, and removing duplicates in place, keeping the
//! first occurrence of each value.

use vstd::prelude::*;

verus! {

/// The sequence with `n` added to each element.
pub open spec fn spec_add_n(s: Seq<i32>, n: i32) -> Seq<i32> {
    s.map_values(|x: i32| (x + n) as i32)
}

/// The subsequence of first occurrences: an element stays exactly when
/// it appears nowhere earlier.
pub open spec fn spec_dedup(s: Seq<i32>) -> Seq<i32>
    decreases s.len(),
{
    if s.len() == 0 {
        Seq::empty()
    } else {
        let prefix = spec_dedup(s.drop_last());
        if s.drop_last().contains(s.last()) {
            prefix
        } else {
            prefix.push(s.last())
        }
    }
}

/// Whether the vector holds the value.
pub fn contains_val(v: &Vec<i32>, x: i32) -> (r: bool)
    ensures
        r == v@.contains(x),
{
    let mut i: usize = 0;
    while i < v.len()
        invariant
            0 <= i <= v@.len(),
            forall|k: int| 0 <= k < i ==> v@[k] != x,
        decreases v@.len() - i,
    {
        if v[i] == x {
            return true;
        }
        i = i + 1;
    }
    false
}

/// Returns a new vector whose elements are the numbers of `v` with `n`
/// added to each.
pub fn add_n(v: Vec<i32>, n: i32) -> (r: Vec<i32>)
    requires
        forall|i: int| 0 <= i < v@.len() ==> i32::MIN <= #[trigger] v@[i] + n <= i32::MAX,
    ensures
        r@ == spec_add_n(v@, n),
{
    let mut nv: Vec<i32> = Vec::new();
    let mut i: usize = 0;
    while i < v.len()
        invariant
            0 <= i <= v@.len(),
            forall|k: int| 0 <= k < v@.len() ==> i32::MIN <= #[trigger] v@[k] + n <= i32::MAX,
            nv@.len() == i,
            forall|k: int| 0 <= k < i ==> nv@[k] == v@[k] + n,
        decreases v@.len() - i,
    {
        nv.push(v[i] + n);
        i = i + 1;
    }
    proof {
        assert(nv@ =~= spec_add_n(v@, n));
    }
    nv
}

/// Adds `n` to each element of `v` in place.
pub fn add_n_inplace(v: &mut Vec<i32>, n: i32)
    requires
        forall|i: int| 0 <= i < old(v)@.len() ==> i32::MIN <= #[trigger] old(v)@[i] + n <= i32::MAX,
    ensures
        final(v)@ == spec_add_n(old(v)@, n),
{
    let mut i: usize = 0;
    while i < v.len()
        invariant
            0 <= i <= v@.len(),
            v@.len() == old(v)@.len(),
            forall|k: int| 0 <= k < old(v)@.len() ==> i32::MIN <= #[trigger] old(v)@[k] + n <= i32::MAX,
            forall|k: int| 0 <= k < i ==> v@[k] == old(v)@[k] + n,
            forall|k: int| i <= k < v@.len() ==> v@[k] == old(v)@[k],
        decreases v@.len() - i,
    {
        v[i] = v[i] + n;
        i = i + 1;
    }
    proof {
        assert(v@ =~= spec_add_n(old(v)@, n));
    }
}

/// Removes duplicate elements in place: a value repeated anywhere keeps
/// only its first appearance, in its original position order.
pub fn dedup(v: &mut Vec<i32>)
    ensures
        final(v)@ == spec_dedup(old(v)@),
{
    let ghost orig = old(v)@;
    let mut seen: Vec<i32> = Vec::new();
    let mut i: usize = 0;
    let ghost mut j: int = 0;
    proof {
        assert(orig.take(0) =~= Seq::<i32>::empty());
        assert(v@ =~= spec_dedup(orig.take(0)) + orig.skip(0));
    }
    loop
        invariant
            0 <= j <= orig.len(),
            i == spec_dedup(orig.take(j)).len(),
            v@ == spec_dedup(orig.take(j)) + orig.skip(j),
            forall|x: i32| #[trigger] seen@.contains(x) <==> orig.take(j).contains(x),
        ensures
            v@ == spec_dedup(orig),
        decreases orig.len() - j,
    {
        if i >= v.len() {
            proof {
                assert(v@.len() == i + orig.len() - j);
                assert(j == orig.len());
                assert(orig.take(orig.len() as int) =~= orig);
            }
            break ;
        }
        proof {
            assert(j < orig.len());
            assert(v@[i as int] == orig.skip(j)[0]);
            assert(orig.take(j + 1).drop_last() =~= orig.take(j));
            assert(orig.take(j + 1).last() == orig[j]);
        }
        let x = v[i];
        if contains_val(&seen, x) {
            proof {
                assert(orig.take(j).contains(x));
                assert(spec_dedup(orig.take(j + 1)) =~= spec_dedup(orig.take(j)));
            }
            v.remove(i);
            proof {
                assert(v@ =~= spec_dedup(orig.take(j + 1)) + orig.skip(j + 1));
            }
        } else {
            let ghost old_seen = seen@;
            seen.push(x);
            i = i + 1;
            proof {
                assert(!orig.take(j).contains(x));
                assert(spec_dedup(orig.take(j + 1)) =~= spec_dedup(orig.take(j)).push(x));
                assert(v@ =~= spec_dedup(orig.take(j + 1)) + orig.skip(j + 1));
                assert forall|y: i32| #[trigger] seen@.contains(y) <==> orig.take(j + 1).contains(
                    y,
                ) by {
                    assert(seen@ =~= old_seen.push(x));
                    if seen@.contains(y) {
                        let k = choose|k: int| 0 <= k < seen@.len() && (#[trigger] seen@[k]) == y;
                        if k < old_seen.len() {
                            assert(old_seen[k] == y);
                            assert(old_seen.contains(y));
                            assert(orig.take(j).contains(y));
                            let m = choose|m: int|
                                0 <= m < orig.take(j).len() && (#[trigger] orig.take(j)[m]) == y;
                            assert(orig.take(j + 1)[m] == y);
                            assert(orig.take(j + 1).contains(y));
                        } else {
                            assert(y == x);
                            assert(orig.take(j + 1)[j] == y);
                            assert(orig.take(j + 1).contains(y));
                        }
                    }
                    if orig.take(j + 1).contains(y) {
                        let k = choose|k: int|
                            0 <= k < orig.take(j + 1).len() && (#[trigger] orig.take(j + 1)[k])
                                == y;
                        if k < j {
                            assert(orig.take(j)[k] == y);
                            assert(orig.take(j).contains(y));
                            assert(old_seen.contains(y));
                            let m = choose|m: int|
                                0 <= m < old_seen.len() && (#[trigger] old_seen[m]) == y;
                            assert(seen@[m] == y);
                            assert(seen@.contains(y));
                        } else {
                            assert(y == orig[j]);
                            assert(seen@[old_seen.len() as int] == y);
                            assert(seen@.contains(y));
                        }
                    }
                }
            }
        }
        proof {
            j = j + 1;
        }
    }
}

} // verus!
