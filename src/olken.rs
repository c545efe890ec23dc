use vstd::prelude::*;
use fxhash::FxHashMap;
use std::hash::Hash;
use vstd::std_specs::hash::obeys_key_model;
use crate::fxmap::{fx_get, fx_insert, fx_new};
use crate::lru::LRU;
use crate::recency::{lru_distance, lru_next, dist_of, lemma_next_keeps_keys};
use crate::buckets::{
    BTree, Bucket, bwf, covers, covers_stamp, dismantle, join_buckets, lemma_bucket, lemma_unit,
    lemma_unit_len, mk_bucket, span, splay_bucket, unit, weight, weight_of,
};

verus! {

/// The stamps of the keys in recency order `rec`, under the key-to-stamp map `m`.
pub open spec fn stamp_seq<K>(rec: Seq<K>, m: Map<K, usize>) -> Seq<usize> {
    rec.map_values(|k: K| m[k])
}

/// Strictly decreasing: the most recent key has the largest stamp.
pub open spec fn decreasing(ts: Seq<usize>) -> bool {
    forall|i: int, j: int| 0 <= i < j < ts.len() ==> ts[i] > ts[j]
}

/// Olken's exact algorithm: a splay tree of access stamps, one node per key, where each
/// node counts its subtree, and a hash map from each key to the stamp of its last
/// access. The keys more recent than a key are those whose stamps lie right of its node.
pub struct LRUSplay<K> {
    root: BTree,
    handles: FxHashMap<K, usize>,
    clock: usize,
    rec: Ghost<Seq<K>>,
}

impl<K> View for LRUSplay<K> {
    type V = Seq<K>;

    closed spec fn view(&self) -> Seq<K> {
        self.rec@
    }
}

impl<K: Eq + Hash> LRUSplay<K> {
    /// The tree is a well-formed search tree of stamps below the clock; where the key
    /// type obeys the hash-map model, the map and the tree together stand for `self@`.
    pub closed spec fn wf(&self) -> bool {
        &&& bwf(self.root)
        &&& unit(self.root)
        &&& forall|x: usize| covers(self.root).contains(x) ==> x < self.clock
        &&& weight(self.root) <= self.clock
        &&& obeys_key_model::<K>() ==> {
            let m = self.handles@;
            let rec = self.rec@;
            &&& rec.no_duplicates()
            &&& rec.to_set() == m.dom()
            &&& decreasing(stamp_seq(rec, m))
            &&& covers(self.root) == stamp_seq(rec, m).to_set()
        }
    }

    /// The number of accesses recorded so far.
    pub closed spec fn accesses(&self) -> nat {
        self.clock as nat
    }

    pub fn new() -> (r: LRUSplay<K>)
        ensures
            r.wf(),
            r@ == Seq::<K>::empty(),
            r.accesses() == 0,
    {
        let r = LRUSplay { root: None, handles: fx_new(), clock: 0, rec: Ghost(Seq::empty()) };
        proof {
            assert(covers(None) =~= Set::<usize>::empty());
            assert(Seq::<K>::empty().to_set() =~= r.handles@.dom());
            assert(stamp_seq(Seq::<K>::empty(), r.handles@).to_set() =~= Set::<usize>::empty());
        }
        r
    }

    /// Records an access to `key` and returns its reuse distance: the number of distinct
    /// keys accessed since its last access, plus one, or `None` on a first access.
    pub fn access(&mut self, key: K) -> (r: Option<usize>)
        requires
            old(self).wf(),
            old(self).accesses() < usize::MAX,
        ensures
            final(self).wf(),
            final(self).accesses() == old(self).accesses() + 1,
            obeys_key_model::<K>() ==> {
                &&& final(self)@ == lru_next(old(self)@, key)
                &&& dist_of(r) == lru_distance(old(self)@, key)
            },
    {
        let ghost rec = self.rec@;
        let ghost m = self.handles@;
        let ghost s_old = covers(self.root);
        let now = self.clock;
        let found = fx_get(&self.handles, &key);
        let mut root: BTree = None;
        core::mem::swap(&mut root, &mut self.root);
        let mut dist: Option<usize> = None;
        let mut hit = false;
        if let Some(s) = found {
            if covers_stamp(&root, s) {
                hit = true;
                match root {
                    Some(t) => {
                        let t = splay_bucket(t, s);
                        proof {
                            lemma_bucket(t);
                            lemma_unit(t);
                            lemma_unit_len(t.right);
                            if obeys_key_model::<K>() {
                                lemma_hit_rank(rec, m, key, t);
                            }
                        }
                        let node = *t;
                        let d = weight_of(&node.right);
                        dist = Some(d + 1);
                        let joined = join_buckets(node.left, node.right);
                        root = Some(mk_bucket(now, now, 1, joined, None));
                        proof {
                            assert(covers(None) =~= Set::<usize>::empty());
                            assert(span(now, now) =~= set![now]);
                            assert(span(s, s) =~= set![s]);
                            assert(covers(root) =~= s_old.remove(s).insert(now));
                        }
                    },
                    None => {},
                }
            }
        }
        if !hit {
            proof {
                assert(covers(root) == s_old);
                assert(covers(None) =~= Set::<usize>::empty());
            }
            root = Some(mk_bucket(now, now, 1, root, None));
            proof {
                assert(span(now, now) =~= set![now]);
                assert(covers(root) =~= s_old.insert(now));
            }
        }
        self.root = root;
        fx_insert(&mut self.handles, key, now);
        self.clock = now + 1;
        self.rec = Ghost(lru_next(rec, key));
        proof {
            if obeys_key_model::<K>() {
                if m.contains_key(key) {
                    assert(s_old.contains(m[key])) by {
                        assert(rec.to_set().contains(key));
                        let j = choose|j: int| 0 <= j < rec.len() && rec[j] == key;
                        assert(stamp_seq(rec, m)[j] == m[key]);
                    }
                }
                lemma_model_step(rec, m, key, now, hit, s_old, covers(self.root));
            }
        }
        dist
    }
}

/// A strictly decreasing sequence holds no value twice.
proof fn lemma_decreasing_no_dup(ts: Seq<usize>)
    requires
        decreasing(ts),
    ensures
        ts.no_duplicates(),
{
    assert forall|a: int, b: int| 0 <= a < ts.len() && 0 <= b < ts.len() && a != b
        implies ts[a] != ts[b] by {
        if a < b {
            assert(ts[a] > ts[b]);
        } else {
            assert(ts[b] > ts[a]);
        }
    }
}

/// Under the model, the key found has rank `weight(right) + 1` once its stamp is at the root.
pub(crate) proof fn lemma_hit_rank<K>(rec: Seq<K>, m: Map<K, usize>, key: K, t: Box<Bucket>)
    requires
        bwf(Some(t)),
        unit(Some(t)),
        rec.no_duplicates(),
        rec.to_set() == m.dom(),
        decreasing(stamp_seq(rec, m)),
        covers(Some(t)) == stamp_seq(rec, m).to_set(),
        m.contains_key(key),
        t.lo <= m[key] <= t.hi,
    ensures
        rec.contains(key),
        weight(t.right) == rec.index_of(key),
{
    let ts = stamp_seq(rec, m);
    assert(rec.to_set().contains(key));
    assert(rec.contains(key));
    let i = rec.index_of(key);
    lemma_bucket(t);
    lemma_unit(t);
    assert(ts[i] == t.lo);
    lemma_unit_len(t.right);
    let pre = ts.take(i);
    assert(covers(t.right) =~= pre.to_set()) by {
        assert forall|x: usize| covers(t.right).contains(x) implies pre.to_set().contains(x) by {
            assert(ts.to_set().contains(x));
            let j = choose|j: int| 0 <= j < ts.len() && ts[j] == x;
            if j >= i {
                if j > i {
                    assert(ts[i] > ts[j]);
                }
                assert(false);
            }
            assert(pre[j] == x);
        }
        assert forall|x: usize| pre.to_set().contains(x) implies covers(t.right).contains(x) by {
            let j = choose|j: int| 0 <= j < pre.len() && pre[j] == x;
            assert(ts[j] == x);
            assert(ts[j] > ts[i]);
            assert(ts.to_set().contains(x));
        }
    }
    lemma_decreasing_no_dup(ts);
    assert(pre.no_duplicates());
    pre.unique_seq_to_set();
}

/// The map, the recency order and the tree agree again after the access.
pub(crate) proof fn lemma_model_step<K>(
    rec: Seq<K>,
    m: Map<K, usize>,
    key: K,
    now: usize,
    hit: bool,
    s_old: Set<usize>,
    s_new: Set<usize>,
)
    requires
        rec.no_duplicates(),
        rec.to_set() == m.dom(),
        decreasing(stamp_seq(rec, m)),
        s_old == stamp_seq(rec, m).to_set(),
        forall|x: usize| s_old.contains(x) ==> x < now,
        hit == m.contains_key(key),
        hit ==> s_new == s_old.remove(m[key]).insert(now),
        !hit ==> s_new == s_old.insert(now),
    ensures
        ({
            let rec2 = lru_next(rec, key);
            let m2 = m.insert(key, now);
            &&& rec2.no_duplicates()
            &&& rec2.to_set() == m2.dom()
            &&& decreasing(stamp_seq(rec2, m2))
            &&& s_new == stamp_seq(rec2, m2).to_set()
        }),
{
    let rec2 = lru_next(rec, key);
    let m2 = m.insert(key, now);
    let ts = stamp_seq(rec, m);
    let ts2 = stamp_seq(rec2, m2);
    lemma_next_keeps_keys(rec, key);
    assert(rec2.to_set() =~= m2.dom());
    lemma_decreasing_no_dup(ts);
    assert(forall|j: int| 0 <= j < ts.len() ==> ts[j] < now) by {
        assert forall|j: int| 0 <= j < ts.len() implies ts[j] < now by {
            assert(s_old.contains(ts[j]));
        }
    }
    if hit {
        assert(rec.to_set().contains(key));
        assert(rec.contains(key));
        let i = rec.index_of(key);
        let rest = ts.remove(i);
        assert(ts2 =~= seq![now] + rest) by {
            assert forall|j: int| 1 <= j < ts2.len() implies ts2[j] == rest[j - 1] by {
                let sj = if j - 1 < i { j - 1 } else { j };
                assert(rec2[j] == rec[sj]);
                assert(sj != i);
                assert(rec[sj] != key);
            }
        }
        assert(decreasing(ts2)) by {
            assert forall|a: int, b: int| 0 <= a < b < ts2.len() implies ts2[a] > ts2[b] by {
                if a > 0 {
                    let sa = if a - 1 < i { a - 1 } else { a };
                    let sb = if b - 1 < i { b - 1 } else { b };
                    assert(rest[a - 1] == ts[sa]);
                    assert(rest[b - 1] == ts[sb]);
                } else {
                    let sb = if b - 1 < i { b - 1 } else { b };
                    assert(rest[b - 1] == ts[sb]);
                }
            }
        }
        assert(s_new =~= ts2.to_set()) by {
            assert forall|x: usize| s_new.contains(x) implies ts2.to_set().contains(x) by {
                if x == now {
                    assert(ts2[0] == x);
                } else {
                    let j = choose|j: int| 0 <= j < ts.len() && ts[j] == x;
                    assert(j != i);
                    if j < i {
                        assert(ts2[j + 1] == x);
                    } else {
                        assert(ts2[j] == x);
                    }
                }
            }
            assert forall|x: usize| ts2.to_set().contains(x) implies s_new.contains(x) by {
                let j = choose|j: int| 0 <= j < ts2.len() && ts2[j] == x;
                if j > 0 {
                    let sj = if j - 1 < i { j - 1 } else { j };
                    assert(ts2[j] == ts[sj]);
                    assert(sj != i);
                    assert(ts[sj] != ts[i]);
                    assert(s_old.contains(x));
                }
            }
        }
    } else {
        assert(!rec.contains(key)) by {
            if rec.contains(key) {
                assert(rec.to_set().contains(key));
            }
        }
        assert(ts2 =~= seq![now] + ts) by {
            assert forall|j: int| 1 <= j < ts2.len() implies ts2[j] == ts[j - 1] by {
                assert(rec2[j] == rec[j - 1]);
                assert(rec[j - 1] != key);
            }
        }
        assert(decreasing(ts2));
        assert(s_new =~= ts2.to_set()) by {
            assert forall|x: usize| s_new.contains(x) implies ts2.to_set().contains(x) by {
                if x == now {
                    assert(ts2[0] == x);
                } else {
                    let j = choose|j: int| 0 <= j < ts.len() && ts[j] == x;
                    assert(ts2[j + 1] == x);
                }
            }
            assert forall|x: usize| ts2.to_set().contains(x) implies s_new.contains(x) by {
                let j = choose|j: int| 0 <= j < ts2.len() && ts2[j] == x;
                if j > 0 {
                    assert(ts2[j] == ts[j - 1]);
                    assert(s_old.contains(x));
                }
            }
        }
    }
}

impl<K> Drop for LRUSplay<K> {
    fn drop(&mut self)
        opens_invariants none
        no_unwind
    {
        let mut root: BTree = None;
        core::mem::swap(&mut root, &mut self.root);
        dismantle(root);
    }
}

impl<K: Eq + Hash> LRU<K> for LRUSplay<K> {
    open spec fn recency_view(&self) -> Seq<K> {
        self@
    }

    open spec fn exact_for_keys() -> bool {
        obeys_key_model::<K>()
    }

    open spec fn inv(&self) -> bool {
        self.wf()
    }

    open spec fn spent(&self) -> nat {
        self.accesses()
    }

    proof fn lemma_room(&self) {
    }

    open spec fn room(&self) -> bool {
        self.accesses() < usize::MAX
    }

    fn has_room(&self) -> (r: bool) {
        self.clock < usize::MAX
    }

    fn rec_access(&mut self, val: K) -> (r: Option<usize>) {
        self.access(val)
    }
}

} // verus!
