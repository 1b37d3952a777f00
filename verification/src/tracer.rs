//! Nearest-hit resolution: of all the surfaces a ray meets, the one it meets
//! first.

use crate::binary64::{is_nan, less_than, lt, rank, INFINITY};
use vstd::prelude::*;

verus! {

/// Where a ray meets one surface.
pub struct Hit<P> {
    /// Distance from the ray's origin, as a binary64 bit pattern.
    pub distance: u64,
    /// The point of intersection, carried through untouched.
    pub point: P,
}

/// One entry per object of the scene, in scene order: `None` where the ray
/// misses the object.
pub type Hits<P> = Seq<Option<Hit<P>>>;

/// Entry `i` can be the answer: the ray meets object `i`, at a distance that
/// compares below positive infinity.
pub open spec fn candidate<P>(hits: Hits<P>, i: int) -> bool {
    0 <= i < hits.len() && hits[i] is Some && lt(hits[i]->0.distance, INFINITY)
}

/// The place of entry `i`'s distance in the numeric order.
pub open spec fn rank_at<P>(hits: Hits<P>, i: int) -> int {
    rank(hits[i]->0.distance)
}

/// Entry `i` is the nearest hit: a candidate that no candidate undercuts, and
/// that every earlier candidate exceeds, so that among equally near objects
/// the first in scene order wins.
pub open spec fn is_nearest<P>(hits: Hits<P>, i: int) -> bool {
    &&& candidate(hits, i)
    &&& forall|j: int| #[trigger] candidate(hits, j) ==> rank_at(hits, i) <= rank_at(hits, j)
    &&& forall|j: int| #[trigger] candidate(hits, j) && j < i ==> rank_at(hits, i) < rank_at(hits, j)
}

/// The ray meets nothing that counts.
pub open spec fn misses<P>(hits: Hits<P>) -> bool {
    forall|j: int| !#[trigger] candidate(hits, j)
}

/// At most one entry is the nearest hit.
pub proof fn lemma_nearest_is_unique<P>(hits: Hits<P>, i: int, j: int)
    requires
        is_nearest(hits, i),
        is_nearest(hits, j),
    ensures
        i == j,
{
}

/// A scene without objects is never hit.
pub proof fn lemma_empty_misses<P>(hits: Hits<P>)
    requires
        hits.len() == 0,
    ensures
        misses(hits),
{
}

/// Finds the nearest hit among `hits`, which holds one entry per object in
/// scene order. Returns the object's index, or `None` when the ray meets
/// nothing at a distance below positive infinity.
pub fn trace<P>(hits: &[Option<Hit<P>>]) -> (found: Option<usize>)
    ensures
        found matches Some(i) ==> is_nearest(hits@, i as int),
        found is None ==> misses(hits@),
{
    let mut found: Option<usize> = None;
    let mut least: u64 = INFINITY;
    let mut k: usize = 0;
    while k < hits.len()
        invariant
            k <= hits.len(),
            !is_nan(least),
            match found {
                Some(i) => {
                    &&& i < k
                    &&& candidate(hits@, i as int)
                    &&& least == hits@[i as int]->0.distance
                    &&& forall|j: int| #[trigger] candidate(hits@, j) && j < k
                        ==> rank_at(hits@, i as int) <= rank_at(hits@, j)
                    &&& forall|j: int| #[trigger] candidate(hits@, j) && j < i
                        ==> rank_at(hits@, i as int) < rank_at(hits@, j)
                },
                None => {
                    &&& least == INFINITY
                    &&& forall|j: int| #[trigger] candidate(hits@, j) ==> j >= k
                },
            },
        decreases hits.len() - k,
    {
        match &hits[k] {
            Some(hit) => {
                if less_than(hit.distance, least) {
                    least = hit.distance;
                    found = Some(k);
                }
            },
            None => {},
        }
        k += 1;
    }
    found
}

} // verus!
