//! Placement of indexed results: work items are farmed out with their
//! positions and come back in arbitrary order; each result lands in the
//! slot its index names. The output exists only when every slot was
//! filled; a later result for the same slot overwrites an earlier one.

use vstd::prelude::*;

verus! {

/// The slot assignment after applying the indexed pairs in order to
/// `len` empty slots: out-of-range indices are ignored, later pairs win.
pub open spec fn spec_place<T>(len: nat, pairs: Seq<(usize, T)>) -> Seq<Option<T>>
    decreases pairs.len(),
{
    if pairs.len() == 0 {
        Seq::new(len, |i: int| None)
    } else {
        let prev = spec_place(len, pairs.drop_last());
        let last = pairs.last();
        if (last.0 as int) < len {
            prev.update(last.0 as int, Some(last.1))
        } else {
            prev
        }
    }
}

/// Fills `len` slots from the indexed pairs, in order: the output at
/// position `i` is the value of the last pair naming `i`, and the output
/// exists only if every slot received a value.
pub fn fill_by_index<T>(len: usize, pairs: &mut Vec<(usize, T)>) -> (r: Option<Vec<T>>)
    ensures
        match r {
            Some(out) => out@.len() == len && forall|k: int|
                0 <= k < len ==> spec_place(len as nat, old(pairs)@)[k] == Some(
                    #[trigger] out@[k],
                ),
            None => exists|k: int|
                0 <= k < len && (#[trigger] spec_place(len as nat, old(pairs)@)[k]) is None,
        },
{
    let ghost orig = old(pairs)@;
    let mut slots: Vec<Option<T>> = Vec::new();
    let mut i: usize = 0;
    while i < len
        invariant
            0 <= i <= len,
            slots@.len() == i,
            forall|k: int| 0 <= k < i ==> (#[trigger] slots@[k]) is None,
        decreases len - i,
    {
        slots.push(None);
        i = i + 1;
    }
    proof {
        assert(slots@ =~= spec_place(len as nat, orig.take(0)));
    }
    let ghost mut j: int = 0;
    while pairs.len() > 0
        invariant
            orig == old(pairs)@,
            0 <= j <= orig.len(),
            j == orig.len() - pairs@.len(),
            pairs@ == orig.skip(j),
            slots@ == spec_place(len as nat, orig.take(j)),
            slots@.len() == len,
        decreases pairs@.len(),
    {
        proof {
            assert(pairs@[0] == orig[j]);
            assert(pairs@.skip(1) =~= orig.skip(j + 1));
            assert(orig.take(j + 1).drop_last() =~= orig.take(j));
            assert(orig.take(j + 1).last() == orig[j]);
        }
        let (idx, val) = pairs.remove(0);
        if idx < len {
            slots[idx] = Some(val);
            proof {
                assert(slots@ =~= spec_place(len as nat, orig.take(j + 1)));
            }
        } else {
            proof {
                assert(slots@ =~= spec_place(len as nat, orig.take(j + 1)));
            }
        }
        proof {
            j = j + 1;
        }
    }
    proof {
        assert(orig.take(orig.len() as int) =~= orig);
    }
    let ghost placed = spec_place(len as nat, orig);
    let mut out: Vec<T> = Vec::new();
    let mut k: usize = 0;
    while slots.len() > 0
        invariant
            orig == old(pairs)@,
            placed == spec_place(len as nat, orig),
            placed.len() == len,
            k == out@.len(),
            k + slots@.len() == len,
            slots@ == placed.skip(k as int),
            forall|q: int| 0 <= q < k ==> placed[q] == Some(#[trigger] out@[q]),
        decreases slots@.len(),
    {
        proof {
            assert(slots@[0] == placed[k as int]);
            assert(slots@.skip(1) =~= placed.skip(k + 1));
        }
        let slot = slots.remove(0);
        match slot {
            Some(v) => {
                out.push(v);
            },
            None => {
                proof {
                    assert(placed[k as int] is None);
                }
                return None;
            },
        }
        k = k + 1;
    }
    Some(out)
}

} // verus!
