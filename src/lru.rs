use vstd::prelude::*;
use crate::recency::{lru_distance, lru_next, dist_of};

verus! {

/// The one capability that every stack-distance algorithm offers: record an access to
/// `val` and report its reuse distance.
pub trait LRU<T>: Sized {
    /// The keys seen so far, most recent first.
    spec fn recency_view(&self) -> Seq<T>;

    /// Whether the algorithm reports exact distances for key type `T`.
    spec fn exact_for_keys() -> bool;

    /// The internal invariant of the state.
    spec fn inv(&self) -> bool;

    /// How much of the state's counters the accesses so far have used.
    spec fn spent(&self) -> nat;

    /// Whether one more access fits the state's counters.
    spec fn room(&self) -> bool;

    /// Room is left while the counters are below their limit.
    proof fn lemma_room(&self)
        requires
            self.spent() < usize::MAX,
        ensures
            self.room(),
    ;

    fn has_room(&self) -> (r: bool)
        ensures
            r == self.room(),
    ;

    fn rec_access(&mut self, val: T) -> (r: Option<usize>)
        requires
            old(self).inv(),
            old(self).room(),
        ensures
            final(self).inv(),
            final(self).spent() <= old(self).spent() + 1,
            Self::exact_for_keys() ==> {
                &&& final(self).recency_view() == lru_next(old(self).recency_view(), val)
                &&& dist_of(r) == lru_distance(old(self).recency_view(), val)
            },
    ;
}

} // verus!
