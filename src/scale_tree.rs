use vstd::prelude::*;
use fxhash::FxHashMap;
use std::hash::Hash;
use vstd::std_specs::hash::obeys_key_model;
use crate::buckets::{
    BTree, Bucket, bwf, covers, cut_front, covers_stamp, dismantle, join_buckets, lemma_bucket, spine_cut, spine_fits,
    lemma_unit, lemma_unit_len, mk_bucket, span, splay_bucket, unit, weight, weight_of,
};
use crate::fxmap::{fx_get, fx_insert, fx_new};
use crate::lru::LRU;
use crate::olken::{decreasing, lemma_hit_rank, lemma_model_step, stamp_seq};
use crate::recency::{dist_of, lemma_next_keeps_keys, lru_distance, lru_next};

verus! {

/// The approximate algorithm: a splay tree of buckets of stamp ranges, and a hash map
/// from each key to the stamp of its last access. A key's distance is the size of its
/// bucket plus the sizes of all more recent buckets. With error bound 0 no bucket ever
/// holds more than one key and the distances are exact.
/// After locating a key, the buckets just more recent than its own are merged into it
/// while their total fits `distance * e / (1 - e) - size`, `e` being the error bound
/// `error_num / error_den`, and provided that merge saves at least
/// `compression_threshold`.
pub struct LRUScaleTree<K> {
    root: BTree,
    handles: FxHashMap<K, usize>,
    clock: usize,
    error_num: usize,
    error_den: usize,
    compression_threshold: usize,
    rec: Ghost<Seq<K>>,
}

impl<K> View for LRUScaleTree<K> {
    type V = Seq<K>;

    closed spec fn view(&self) -> Seq<K> {
        self.rec@
    }
}

/// The largest merge, in keys, that an access at `distance` allows for error bound
/// `num / den`: `distance * num / (den - num)`, at least 1 and at most `usize::MAX`.
pub open spec fn capacity_spec(distance: nat, num: nat, den: nat) -> nat {
    let q = (distance * num) / ((den - num) as nat);
    if q < 1 {
        1
    } else if q > usize::MAX {
        usize::MAX as nat
    } else {
        q
    }
}

impl<K: Eq + Hash> LRUScaleTree<K> {
    /// The tree is a well-formed tree of ranges below the clock whose total size is at
    /// most the number of accesses; where the key type obeys the hash-map model, the
    /// map holds exactly the keys of `self@`.
    pub closed spec fn wf(&self) -> bool {
        &&& bwf(self.root)
        &&& forall|x: usize| covers(self.root).contains(x) ==> x < self.clock
        &&& weight(self.root) <= self.clock
        &&& self.error_num < self.error_den
        &&& obeys_key_model::<K>() ==> {
            &&& self.rec@.no_duplicates()
            &&& self.rec@.to_set() == self.handles@.dom()
        }
        &&& (self.error_num == 0 || self.compression_threshold == usize::MAX) && obeys_key_model::<K>() ==> {
            &&& unit(self.root)
            &&& decreasing(stamp_seq(self.rec@, self.handles@))
            &&& covers(self.root) == stamp_seq(self.rec@, self.handles@).to_set()
        }
    }

    /// The error bound's numerator.
    pub closed spec fn error_numerator(&self) -> nat {
        self.error_num as nat
    }

    /// The least saving in keys for which a merge is made.
    pub closed spec fn threshold(&self) -> nat {
        self.compression_threshold as nat
    }

    /// The number of accesses recorded so far.
    pub closed spec fn accesses(&self) -> nat {
        self.clock as nat
    }

    /// An empty state with error bound `error_num / error_den` and the given compression
    /// threshold.
    pub fn new(error_num: usize, error_den: usize, compression_threshold: usize) -> (r: LRUScaleTree<K>)
        requires
            error_num < error_den,
        ensures
            r.wf(),
            r@ == Seq::<K>::empty(),
            r.accesses() == 0,
            r.error_numerator() == error_num,
            r.threshold() == compression_threshold,
    {
        let r = LRUScaleTree {
            root: None,
            handles: fx_new(),
            clock: 0,
            error_num,
            error_den,
            compression_threshold,
            rec: Ghost(Seq::empty()),
        };
        proof {
            assert(covers(None) =~= Set::<usize>::empty());
            assert(Seq::<K>::empty().to_set() =~= r.handles@.dom());
            assert(stamp_seq(Seq::<K>::empty(), r.handles@).to_set() =~= Set::<usize>::empty());
        }
        r
    }

    /// The merge capacity at `distance`.
    fn capacity(&self, distance: usize) -> (r: usize)
        requires
            self.error_num < self.error_den,
        ensures
            r == capacity_spec(distance as nat, self.error_num as nat, self.error_den as nat),
            r >= 1,
    {
        assert((distance as int) * (self.error_num as int) <= 0xffff_ffff_ffff_ffff * 0xffff_ffff_ffff_ffff)
            by (nonlinear_arith)
            requires
                distance <= 0xffff_ffff_ffff_ffff,
                self.error_num <= 0xffff_ffff_ffff_ffff,
        ;
        let p: u128 = (distance as u128) * (self.error_num as u128);
        let q: u128 = p / ((self.error_den - self.error_num) as u128);
        if q < 1 {
            1
        } else if q > usize::MAX as u128 {
            usize::MAX
        } else {
            q as usize
        }
    }

    /// The room for merging at a bucket of `size` keys with `rw` keys in more recent
    /// buckets: the capacity at its distance `size + rw`, less its own size.
    pub closed spec fn merge_budget(&self, size: nat, rw: nat) -> int {
        capacity_spec(size + rw, self.error_num as nat, self.error_den as nat) - size
    }

    /// Whether an access whose bucket is the root of `t` merges: the budget is positive,
    /// reaches the compression threshold, and some subtree on the left spine of the
    /// more recent side fits it.
    pub closed spec fn merges(&self, t: Box<Bucket>) -> bool {
        let b = self.merge_budget(t.size as nat, weight(t.right));
        &&& b > 0
        &&& b >= self.compression_threshold
        &&& spine_cut(t.right, b as usize) is Some
    }

    /// Merges into the root bucket the block of buckets just more recent than it: the
    /// first subtree on the left spine of its right side that fits the merge budget.
    /// Without such a block, or below the threshold, the tree is returned as it is.
    fn compress(&self, t: Box<Bucket>, c: usize) -> (r: Box<Bucket>)
        requires
            bwf(Some(t)),
            forall|x: usize| covers(Some(t)).contains(x) ==> x < c,
            self.error_num < self.error_den,
        ensures
            bwf(Some(r)),
            weight(Some(r)) == weight(Some(t)),
            forall|x: usize| covers(Some(r)).contains(x) ==> x < c,
            forall|x: usize| covers(Some(t)).contains(x) ==> covers(Some(r)).contains(x),
            r.lo == t.lo,
            t.hi <= r.hi,
            r.size >= t.size,
            self.merges(t) ==> {
                let w = spine_cut(t.right, self.merge_budget(t.size as nat, weight(t.right)) as usize).unwrap();
                &&& r.size == t.size + w
                &&& r.left == t.left
                &&& weight(r.right) + w == weight(t.right)
                &&& r.size - t.size <= self.merge_budget(t.size as nat, weight(t.right))
            },
            !self.merges(t) ==> r == t,
    {
        proof {
            lemma_bucket(t);
        }
        let distance = t.size + weight_of(&t.right);
        let cap = self.capacity(distance);
        if cap <= t.size || cap - t.size < self.compression_threshold {
            return t;
        }
        let budget = cap - t.size;
        if !spine_fits(&t.right, budget) {
            return t;
        }
        let node = *t;
        let (rest, m) = cut_front(node.right, budget);
        match m {
            None => mk_bucket(node.lo, node.hi, node.size, node.left, rest),
            Some((mhi, mw)) => {
                let r = mk_bucket(node.lo, mhi, node.size + mw, node.left, rest);
                proof {
                    assert forall|x: usize| covers(Some(t)).contains(x) implies covers(Some(r)).contains(x) by {
                        if covers(node.right).contains(x) && !covers(rest).contains(x) {
                            assert(node.lo <= x <= mhi);
                        }
                    }
                }
                r
            },
        }
    }

    /// Records an access to `key` and returns its approximate reuse distance, `None` on
    /// a first access.
    pub fn access(&mut self, key: K) -> (r: Option<usize>)
        requires
            old(self).wf(),
            old(self).accesses() < usize::MAX,
        ensures
            final(self).wf(),
            final(self).accesses() == old(self).accesses() + 1,
            final(self).error_numerator() == old(self).error_numerator(),
            final(self).threshold() == old(self).threshold(),
            r matches Some(d) ==> d >= 1,
            obeys_key_model::<K>() ==> {
                &&& final(self)@ == lru_next(old(self)@, key)
                &&& (r is None <==> !old(self)@.contains(key))
            },
            (old(self).error_numerator() == 0 || old(self).threshold() == usize::MAX)
                && obeys_key_model::<K>() ==> dist_of(r) == lru_distance(old(self)@, key),
    {
        let ghost rec = self.rec@;
        let ghost m = self.handles@;
        let ghost s_old = covers(self.root);
        let ghost exact = (self.error_num == 0 || self.compression_threshold == usize::MAX)
            && obeys_key_model::<K>();
        let now = self.clock;
        let found = fx_get(&self.handles, &key);
        let mut root: BTree = None;
        core::mem::swap(&mut root, &mut self.root);
        let mut dist: Option<usize> = None;
        let mut hit = false;
        match found {
            Some(s) => {
                if covers_stamp(&root, s) {
                    match root {
                        Some(t) => {
                            hit = true;
                            let t = splay_bucket(t, s);
                            let ghost t0 = t;
                            let t = self.compress(t, now);
                            proof {
                                if exact {
                                    lemma_bucket(t0);
                                    assert(!self.merges(t0));
                                }
                                lemma_bucket(t);
                                if exact {
                                    lemma_unit(t);
                                    lemma_unit_len(t.right);
                                    lemma_hit_rank(rec, m, key, t);
                                }
                            }
                            let node = *t;
                            let d = node.size + weight_of(&node.right);
                            dist = Some(d);
                            if node.size > 1 {
                                root = Some(mk_bucket(node.lo, node.hi, node.size - 1, node.left, node.right));
                            } else {
                                root = join_buckets(node.left, node.right);
                            }
                            proof {
                                if exact {
                                    assert(span(s, s) =~= set![s]);
                                    assert(covers(root) =~= s_old.remove(s));
                                }
                            }
                        },
                        None => {},
                    }
                } else {
                    dist = Some(weight_of(&root) + 1);
                }
            },
            None => {},
        }
        proof {
            assert(covers(None) =~= Set::<usize>::empty());
            if exact && m.contains_key(key) {
                assert(s_old.contains(m[key])) by {
                    assert(rec.to_set().contains(key));
                    let j = choose|j: int| 0 <= j < rec.len() && rec[j] == key;
                    assert(stamp_seq(rec, m)[j] == m[key]);
                }
            }
            if exact && !hit {
                assert(covers(root) == s_old);
            }
        }
        root = Some(mk_bucket(now, now, 1, root, None));
        self.root = root;
        fx_insert(&mut self.handles, key, now);
        self.clock = now + 1;
        self.rec = Ghost(lru_next(rec, key));
        proof {
            if obeys_key_model::<K>() {
                lemma_next_keeps_keys(rec, key);
                assert(self.rec@.to_set() =~= self.handles@.dom());
                assert(rec.contains(key) <==> rec.to_set().contains(key));
            }
            if exact {
                assert(span(now, now) =~= set![now]);
                if hit {
                    assert(covers(self.root) =~= s_old.remove(m[key]).insert(now));
                } else {
                    assert(covers(self.root) =~= s_old.insert(now));
                }
                lemma_model_step(rec, m, key, now, hit, s_old, covers(self.root));
            }
        }
        dist
    }
}

impl<K> Drop for LRUScaleTree<K> {
    fn drop(&mut self)
        opens_invariants none
        no_unwind
    {
        let mut root: BTree = None;
        core::mem::swap(&mut root, &mut self.root);
        dismantle(root);
    }
}

impl<K: Eq + Hash> Default for LRUScaleTree<K> {
    /// No error allowed and no compression: the distances are exact.
    fn default() -> (r: Self)
        ensures
            r.wf(),
            r@ == Seq::<K>::empty(),
            r.accesses() == 0,
            r.error_numerator() == 0,
            r.threshold() == usize::MAX,
    {
        LRUScaleTree::new(0, 1, usize::MAX)
    }
}

impl<K: Eq + Hash> LRU<K> for LRUScaleTree<K> {
    open spec fn recency_view(&self) -> Seq<K> {
        self@
    }

    open spec fn exact_for_keys() -> bool {
        false
    }

    open spec fn inv(&self) -> bool {
        self.wf()
    }

    open spec fn spent(&self) -> nat {
        self.accesses()
    }

    proof fn lemma_room(&self) {
    }

    open spec fn room(&self) -> bool {
        self.accesses() < usize::MAX
    }

    fn has_room(&self) -> (r: bool) {
        self.clock < usize::MAX
    }

    fn rec_access(&mut self, val: K) -> (r: Option<usize>) {
        self.access(val)
    }
}

} // verus!
