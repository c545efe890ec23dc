use vstd::prelude::*;
use crate::lru::LRU;
use crate::recency::{lru_distance, lru_next, dist_of, lemma_next_keeps_keys};
use vstd::laws_eq::obeys_concrete_eq;
use vstd::std_specs::cmp::PartialEqSpec;

verus! {

/// The array-based exact algorithm: the keys in recency order in a dense vector,
/// most recent at index 0; the scan bubbles the key found toward the front.
pub struct LRUVec<T> {
    pub stack: Vec<T>,
}

impl<T> View for LRUVec<T> {
    type V = Seq<T>;

    open spec fn view(&self) -> Seq<T> {
        self.stack@
    }
}

impl<T: PartialEq> LRUVec<T> {
    /// Each key stands once in the vector, as long as `==` on `T` is plain equality.
    pub open spec fn wf(&self) -> bool {
        obeys_concrete_eq::<T>() ==> self@.no_duplicates()
    }

    pub fn new() -> (r: LRUVec<T>)
        ensures
            r@ == Seq::<T>::empty(),
            r.wf(),
    {
        LRUVec { stack: Vec::new() }
    }

    /// Records an access to `val`. Each slot scanned moves one place toward the tail;
    /// the key found (or `val` on a first access) ends at index 0.
    pub fn rec_access_impl(&mut self, val: T) -> (r: Option<usize>)
        requires
            old(self).wf(),
        ensures
            final(self).wf(),
            obeys_concrete_eq::<T>() ==> {
                &&& final(self)@ == lru_next(old(self)@, val)
                &&& dist_of(r) == lru_distance(old(self)@, val)
            },
    {
        let ghost s = self@;
        proof {
            reveal(obeys_concrete_eq);
            if obeys_concrete_eq::<T>() {
                lemma_next_keeps_keys(s, val);
            }
        }
        if self.stack.len() == 0 {
            self.stack.push(val);
            proof {
                if obeys_concrete_eq::<T>() {
                    assert(self@ =~= lru_next(s, val));
                }
            }
            return None;
        }
        if self.stack[0] == val {
            proof {
                if obeys_concrete_eq::<T>() {
                    assert(s.index_of(val) == 0) by {
                        assert(s.no_duplicates());
                    }
                    assert(self@ =~= lru_next(s, val));
                }
            }
            return Some(1);
        }
        let mut last = val;
        core::mem::swap(&mut self.stack[0], &mut last);
        let n = self.stack.len();
        let mut pos: usize = 1;
        while pos < n
            invariant
                s == old(self)@,
                n == s.len(),
                1 <= pos <= n,
                self@.len() == n,
                self@[0] == val,
                forall|j: int| 1 <= j <= pos - 1 ==> self@[j] == s[j - 1],
                forall|j: int| pos <= j < n ==> self@[j] == s[j],
                last == s[pos - 1],
                obeys_concrete_eq::<T>() ==> forall|j: int| 0 <= j < pos ==> s[j] != val,
                obeys_concrete_eq::<T>() ==> (forall|x: T, y: T| x.eq_spec(&y) <==> x == y),
                obeys_concrete_eq::<T>() ==> T::obeys_eq_spec(),
                obeys_concrete_eq::<T>() ==> s.no_duplicates(),
                obeys_concrete_eq::<T>() ==> lru_next(s, val).no_duplicates(),
            decreases n - pos,
        {
            core::mem::swap(&mut self.stack[pos], &mut last);
            if last == self.stack[0] {
                proof {
                    if obeys_concrete_eq::<T>() {
                        assert(s[pos as int] == val);
                        assert(s.index_of(val) == pos);
                        assert(self@ =~= lru_next(s, val));
                        assert(self@.no_duplicates());
                    }
                }
                return Some(pos + 1);
            }
            pos = pos + 1;
        }
        self.stack.push(last);
        proof {
            if obeys_concrete_eq::<T>() {
                assert(!s.contains(val));
                assert(self@ =~= lru_next(s, val));
            }
        }
        None
    }
}

impl<T: PartialEq> LRU<T> for LRUVec<T> {
    open spec fn recency_view(&self) -> Seq<T> {
        self@
    }

    open spec fn exact_for_keys() -> bool {
        obeys_concrete_eq::<T>()
    }

    open spec fn inv(&self) -> bool {
        self.wf()
    }

    open spec fn spent(&self) -> nat {
        0
    }

    proof fn lemma_room(&self) {
    }

    open spec fn room(&self) -> bool {
        true
    }

    fn has_room(&self) -> (r: bool) {
        true
    }

    fn rec_access(&mut self, val: T) -> (r: Option<usize>) {
        self.rec_access_impl(val)
    }
}

} // verus!
