//! The choice of the world axis from which a camera builds its view-plane
//! basis.
//!
//! The camera crosses its forward direction with each of the three world
//! axes, in the order x, y, z, and builds the basis on the axis whose product
//! is the longest: that axis is the one farthest from parallel to the forward
//! direction. Where two axes give products of one length, the one tried first
//! is taken.
//!
//! Lengths are handed over as ranks: unsigned numbers that stand in the same
//! order as the lengths do. The bit pattern of a length that is not negative
//! is such a rank.

use vstd::prelude::*;

verus! {

/// Whether `axis` is the first position of `ranks` that holds their largest
/// value.
pub open spec fn is_first_longest(ranks: Seq<u64>, axis: int) -> bool {
    &&& 0 <= axis < ranks.len()
    &&& forall|j: int| 0 <= j < ranks.len() ==> ranks[j] <= ranks[axis]
    &&& forall|j: int| 0 <= j < axis ==> ranks[j] < ranks[axis]
}

/// The world axis to build the basis on: the first of the three whose rank
/// is the largest.
pub fn reference_axis(ranks: [u64; 3]) -> (axis: usize)
    ensures
        is_first_longest(ranks@, axis as int),
{
    let mut axis: usize = 0;
    let mut best: u64 = 0;
    let mut i: usize = 0;
    while i < 3
        invariant
            i <= 3,
            i == 0 ==> axis == 0 && best == 0,
            i > 0 ==> axis < i && best == ranks@[axis as int],
            forall|j: int| 0 <= j < i ==> ranks@[j] <= best,
            forall|j: int| 0 <= j < axis ==> ranks@[j] < best,
        decreases 3 - i,
    {
        if ranks[i] > best || i == 0 {
            axis = i;
            best = ranks[i];
        }
        i += 1;
    }
    axis
}

/// No two axes are both the first with the largest rank: the choice is
/// fixed by the ranks.
pub proof fn lemma_first_longest_is_unique(ranks: Seq<u64>, a: int, b: int)
    requires
        is_first_longest(ranks, a),
        is_first_longest(ranks, b),
    ensures
        a == b,
{
    if a < b {
        assert(ranks[a] < ranks[b]);
        assert(ranks[b] <= ranks[a]);
    }
    if b < a {
        assert(ranks[b] < ranks[a]);
        assert(ranks[a] <= ranks[b]);
    }
}

} // verus!
