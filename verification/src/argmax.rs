//! The greatest of a sequence of numbers, and where it first stands.

use crate::number::{Binary64, NEG_INFINITY_BITS};
use vstd::prelude::*;

verus! {

/// Whether `x` is a number above negative infinity: only such an entry can
/// be chosen as the greatest.
pub open spec fn eligible(x: Binary64) -> bool {
    x.above(Binary64 { bits: NEG_INFINITY_BITS })
}

/// Whether `k` is the lowest index at which `values` holds its greatest
/// number. Entries that are not numbers, or negative infinity, are passed
/// over; where nothing else is left, `k` is 0.
pub open spec fn is_argmax(values: Seq<Binary64>, k: int) -> bool {
    if exists|i: int| 0 <= i < values.len() && eligible(#[trigger] values[i]) {
        &&& 0 <= k < values.len()
        &&& eligible(values[k])
        &&& forall|j: int| 0 <= j < values.len() ==> !(#[trigger] values[j]).above(values[k])
        &&& forall|j: int| 0 <= j < k && eligible(#[trigger] values[j]) ==> values[k].above(values[j])
    } else {
        k == 0
    }
}

/// At most one index is the argmax of a sequence.
pub proof fn argmax_is_unique(values: Seq<Binary64>, k: int, l: int)
    requires
        is_argmax(values, k),
        is_argmax(values, l),
    ensures
        k == l,
{
    if exists|i: int| 0 <= i < values.len() && eligible(#[trigger] values[i]) {
        if k < l {
            assert(values[l].above(values[k]));
            assert(!values[l].above(values[k]));
        }
        if l < k {
            assert(values[k].above(values[l]));
            assert(!values[k].above(values[l]));
        }
    }
}

/// The lowest index at which `values` holds its greatest number: a scan in
/// ascending order that starts from negative infinity and moves on only to a
/// strictly greater number.
pub fn argmax(values: &Vec<Binary64>) -> (k: usize)
    ensures
        is_argmax(values@, k as int),
        values.len() > 0 ==> k < values.len(),
{
    let mut best: Binary64 = Binary64::neg_infinity();
    let mut k: usize = 0;
    let mut i: usize = 0;
    while i < values.len()
        invariant
            i <= values.len(),
            is_argmax(values@.take(i as int), k as int),
            i > 0 ==> k < i,
            best.bits == NEG_INFINITY_BITS || (k < i && best == values@[k as int] && eligible(
                best,
            )),
            best.bits == NEG_INFINITY_BITS ==> forall|j: int|
                0 <= j < i ==> !eligible(#[trigger] values@[j]),
        decreases values.len() - i,
    {
        let ghost before = values@.take(i as int);
        let ghost after = values@.take(i + 1);
        let x: Binary64 = values[i];
        proof {
            assert(forall|j: int| 0 <= j < i ==> before[j] == after[j]);
            assert(after[i as int] == x);
        }
        if x.gt(best) {
            best = x;
            k = i;
        }
        proof {
            if eligible(best) {
                assert(eligible(after[k as int]));
            }
        }
        i += 1;
    }
    proof {
        assert(values@.take(values.len() as int) =~= values@);
    }
    k
}

} // verus!
