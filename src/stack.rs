use vstd::prelude::*;
use crate::lru::LRU;
use crate::recency::{lru_distance, lru_next, dist_of, lemma_next_keeps_keys};
use vstd::laws_eq::obeys_concrete_eq;
use vstd::std_specs::cmp::PartialEqSpec;

verus! {

/// The list-based exact algorithm: the keys in recency order, most recent first,
/// found by a linear scan.
pub struct LRUStack<T> {
    pub stack: Vec<T>,
}

impl<T> View for LRUStack<T> {
    type V = Seq<T>;

    open spec fn view(&self) -> Seq<T> {
        self.stack@
    }
}

impl<T: PartialEq> LRUStack<T> {
    /// Each key stands once in the stack, as long as `==` on `T` is plain equality.
    pub open spec fn wf(&self) -> bool {
        obeys_concrete_eq::<T>() ==> self@.no_duplicates()
    }

    pub fn new() -> (r: LRUStack<T>)
        ensures
            r@ == Seq::<T>::empty(),
            r.wf(),
    {
        LRUStack { stack: Vec::new() }
    }

    /// Records an access to `val`: returns its 1-based depth in the stack (`None` if it
    /// was never seen) and moves it to the front.
    pub fn rec_access_impl(&mut self, val: T) -> (r: Option<usize>)
        requires
            old(self).wf(),
        ensures
            final(self).wf(),
            obeys_concrete_eq::<T>() ==> {
                &&& final(self)@ == lru_next(old(self)@, val)
                &&& dist_of(r) == lru_distance(old(self)@, val)
            },
    {
        let ghost s = self@;
        let n = self.stack.len();
        let mut pos: usize = 0;
        let mut found = false;
        proof {
            reveal(obeys_concrete_eq);
        }
        while !found && pos < n
            invariant
                self@ == s,
                n == s.len(),
                pos <= n,
                obeys_concrete_eq::<T>() ==> forall|j: int| 0 <= j < pos ==> s[j] != val,
                found ==> pos < n && (obeys_concrete_eq::<T>() ==> s[pos as int] == val),
                obeys_concrete_eq::<T>() ==> (forall|x: T, y: T| x.eq_spec(&y) <==> x == y),
                obeys_concrete_eq::<T>() ==> T::obeys_eq_spec(),
            decreases n - pos, if found { 0int } else { 1int },
        {
            if self.stack[pos] == val {
                found = true;
            } else {
                pos = pos + 1;
            }
        }
        proof {
            if obeys_concrete_eq::<T>() {
                if found {
                    assert(s.contains(val));
                    assert(s.index_of(val) == pos) by {
                        assert(s.no_duplicates());
                    }
                } else {
                    assert(!s.contains(val));
                }
                lemma_next_keeps_keys(s, val);
            }
        }
        if found {
            self.stack.remove(pos);
        }
        self.stack.insert(0, val);
        proof {
            if obeys_concrete_eq::<T>() {
                assert(self@ =~= lru_next(s, val));
            }
        }
        if found {
            Some(pos + 1)
        } else {
            None
        }
    }
}

impl<T: PartialEq> LRU<T> for LRUStack<T> {
    open spec fn recency_view(&self) -> Seq<T> {
        self@
    }

    open spec fn exact_for_keys() -> bool {
        obeys_concrete_eq::<T>()
    }

    open spec fn inv(&self) -> bool {
        self.wf()
    }

    open spec fn spent(&self) -> nat {
        0
    }

    proof fn lemma_room(&self) {
    }

    open spec fn room(&self) -> bool {
        true
    }

    fn has_room(&self) -> (r: bool) {
        true
    }

    fn rec_access(&mut self, val: T) -> (r: Option<usize>) {
        self.rec_access_impl(val)
    }
}

} // verus!
