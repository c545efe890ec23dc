use vstd::prelude::*;

verus! {

/// The distance that an access to `k` reports when the keys seen so far stand in
/// recency order `s` (most recent first): its 1-based rank, or `None` on a first access.
pub open spec fn lru_distance<K>(s: Seq<K>, k: K) -> Option<nat> {
    if s.contains(k) {
        Some((s.index_of(k) + 1) as nat)
    } else {
        None
    }
}

/// The recency order after an access to `k`: `k` comes first and leaves its old place.
pub open spec fn lru_next<K>(s: Seq<K>, k: K) -> Seq<K> {
    if s.contains(k) {
        seq![k] + s.remove(s.index_of(k))
    } else {
        seq![k] + s
    }
}

/// A distance as returned by `access`, seen as a mathematical value.
pub open spec fn dist_of(r: Option<usize>) -> Option<nat> {
    match r {
        Some(d) => Some(d as nat),
        None => None,
    }
}

/// The recency order after the accesses `h`, starting from recency order `s0`.
pub open spec fn recency_from<K>(s0: Seq<K>, h: Seq<K>) -> Seq<K>
    decreases h.len(),
{
    if h.len() == 0 {
        s0
    } else {
        lru_next(recency_from(s0, h.drop_last()), h.last())
    }
}

/// The distances that an exact algorithm in state `s0` reports for the accesses `h`.
pub open spec fn distances_from<K>(s0: Seq<K>, h: Seq<K>) -> Seq<Option<nat>>
    decreases h.len(),
{
    if h.len() == 0 {
        Seq::empty()
    } else {
        distances_from(s0, h.drop_last()).push(lru_distance(recency_from(s0, h.drop_last()), h.last()))
    }
}

/// The recency order after the accesses `h`, starting from an empty state.
pub open spec fn recency<K>(h: Seq<K>) -> Seq<K> {
    recency_from(Seq::empty(), h)
}

/// The distances that an exact algorithm reports for the accesses `h`, in order.
pub open spec fn distances<K>(h: Seq<K>) -> Seq<Option<nat>> {
    distances_from(Seq::empty(), h)
}

/// How many of the distances `d` equal `e`.
pub open spec fn occurrences(d: Seq<Option<nat>>, e: Option<usize>) -> nat
    decreases d.len(),
{
    if d.len() == 0 {
        0
    } else {
        occurrences(d.drop_last(), e) + if d.last() == dist_of(e) { 1nat } else { 0nat }
    }
}

/// Running `a` then `b` is running `a + b`.
pub proof fn lemma_from_append<K>(s0: Seq<K>, a: Seq<K>, b: Seq<K>)
    ensures
        recency_from(s0, a + b) == recency_from(recency_from(s0, a), b),
        distances_from(s0, a + b) == distances_from(s0, a) + distances_from(recency_from(s0, a), b),
    decreases b.len(),
{
    if b.len() == 0 {
        assert(a + b =~= a);
        assert(distances_from(s0, a) + distances_from(recency_from(s0, a), b) =~= distances_from(s0, a));
    } else {
        lemma_from_append(s0, a, b.drop_last());
        assert((a + b).drop_last() =~= a + b.drop_last());
        assert((a + b).last() == b.last());
        assert(distances_from(s0, a + b) =~= distances_from(s0, a) + distances_from(recency_from(s0, a), b));
    }
}

/// One distance per access.
pub proof fn lemma_distances_len<K>(s0: Seq<K>, h: Seq<K>)
    ensures
        distances_from(s0, h).len() == h.len(),
    decreases h.len(),
{
    if h.len() > 0 {
        lemma_distances_len(s0, h.drop_last());
    }
}

/// Counting over a concatenation adds the counts.
pub proof fn lemma_occurrences_append(x: Seq<Option<nat>>, y: Seq<Option<nat>>, e: Option<usize>)
    ensures
        occurrences(x + y, e) == occurrences(x, e) + occurrences(y, e),
    decreases y.len(),
{
    if y.len() == 0 {
        assert(x + y =~= x);
    } else {
        lemma_occurrences_append(x, y.drop_last(), e);
        assert((x + y).drop_last() =~= x + y.drop_last());
    }
}

/// An access keeps the recency order free of duplicates and adds `k` to the keys known.
pub proof fn lemma_next_keeps_keys<K>(s: Seq<K>, k: K)
    requires
        s.no_duplicates(),
    ensures
        lru_next(s, k).no_duplicates(),
        lru_next(s, k).to_set() == s.to_set().insert(k),
        lru_next(s, k).len() == if s.contains(k) { s.len() } else { s.len() + 1 },
        lru_next(s, k)[0] == k,
{
    let n = lru_next(s, k);
    if s.contains(k) {
        let i = s.index_of(k);
        let r = s.remove(i);
        assert(forall|j: int| 0 <= j < r.len() ==> r[j] != k) by {
            assert forall|j: int| 0 <= j < r.len() implies r[j] != k by {
                if j < i {
                    assert(r[j] == s[j]);
                } else {
                    assert(r[j] == s[j + 1]);
                }
            }
        }
        assert(r.no_duplicates()) by {
            assert forall|a: int, b: int| 0 <= a < r.len() && 0 <= b < r.len() && a != b
                implies r[a] != r[b] by {
                let sa = if a < i { a } else { a + 1 };
                let sb = if b < i { b } else { b + 1 };
                assert(r[a] == s[sa]);
                assert(r[b] == s[sb]);
            }
        }
        assert(n.no_duplicates()) by {
            assert forall|a: int, b: int| 0 <= a < n.len() && 0 <= b < n.len() && a != b
                implies n[a] != n[b] by {
                if a == 0 {
                    assert(n[b] == r[b - 1]);
                } else if b == 0 {
                    assert(n[a] == r[a - 1]);
                } else {
                    assert(n[a] == r[a - 1]);
                    assert(n[b] == r[b - 1]);
                }
            }
        }
        assert(n.to_set() =~= s.to_set().insert(k)) by {
            assert forall|x: K| n.to_set().contains(x) implies s.to_set().insert(k).contains(x) by {
                let j = choose|j: int| 0 <= j < n.len() && n[j] == x;
                if j > 0 {
                    let sj = if j - 1 < i { j - 1 } else { j };
                    assert(n[j] == s[sj]);
                }
            }
            assert forall|x: K| s.to_set().insert(k).contains(x) implies n.to_set().contains(x) by {
                if x != k {
                    let j = choose|j: int| 0 <= j < s.len() && s[j] == x;
                    assert(j != i);
                    if j < i {
                        assert(n[j + 1] == x);
                    } else {
                        assert(n[j] == x);
                    }
                } else {
                    assert(n[0] == x);
                }
            }
        }
    } else {
        assert(n.no_duplicates()) by {
            assert forall|a: int, b: int| 0 <= a < n.len() && 0 <= b < n.len() && a != b
                implies n[a] != n[b] by {
                if a == 0 {
                    assert(n[b] == s[b - 1]);
                } else if b == 0 {
                    assert(n[a] == s[a - 1]);
                } else {
                    assert(n[a] == s[a - 1]);
                    assert(n[b] == s[b - 1]);
                }
            }
        }
        assert(n.to_set() =~= s.to_set().insert(k)) by {
            assert forall|x: K| n.to_set().contains(x) implies s.to_set().insert(k).contains(x) by {
                let j = choose|j: int| 0 <= j < n.len() && n[j] == x;
                if j > 0 {
                    assert(n[j] == s[j - 1]);
                }
            }
            assert forall|x: K| s.to_set().insert(k).contains(x) implies n.to_set().contains(x) by {
                if x != k {
                    let j = choose|j: int| 0 <= j < s.len() && s[j] == x;
                    assert(n[j + 1] == x);
                } else {
                    assert(n[0] == x);
                }
            }
        }
    }
}

/// The recency order after `h` holds each key of `h` exactly once.
pub proof fn lemma_recency_keys<K>(h: Seq<K>)
    ensures
        recency(h).no_duplicates(),
        recency(h).to_set() == h.to_set(),
    decreases h.len(),
{
    if h.len() == 0 {
        assert(recency(h).to_set() =~= h.to_set());
    } else {
        let p = h.drop_last();
        lemma_recency_keys(p);
        assert(recency(h) == lru_next(recency(p), h.last()));
        lemma_next_keeps_keys(recency(p), h.last());
        assert(h =~= p.push(h.last()));
        assert(h.to_set() =~= p.to_set().insert(h.last())) by {
            assert forall|x: K| h.to_set().contains(x) implies p.to_set().insert(h.last()).contains(x) by {
                let j = choose|j: int| 0 <= j < h.len() && h[j] == x;
                if j < h.len() - 1 {
                    assert(p[j] == x);
                }
            }
            assert forall|x: K| p.to_set().insert(h.last()).contains(x) implies h.to_set().contains(x) by {
                if x != h.last() {
                    let j = choose|j: int| 0 <= j < p.len() && p[j] == x;
                    assert(h[j] == x);
                } else {
                    assert(h[h.len() - 1] == x);
                }
            }
        }
    }
}

/// A key that the accesses `h` never touched gets `None`, whatever came before.
pub proof fn lemma_first_access_is_none<K>(h: Seq<K>, k: K)
    requires
        !h.contains(k),
    ensures
        lru_distance(recency(h), k) is None,
        distances(h.push(k)).last() is None,
{
    lemma_recency_keys(h);
    assert(!h.to_set().contains(k));
    assert(!recency(h).contains(k)) by {
        if recency(h).contains(k) {
            assert(recency(h).to_set().contains(k));
        }
    }
    assert(h.push(k).drop_last() =~= h);
}

/// Accessing the same key twice in a row reports distance 1 the second time.
pub proof fn lemma_repeat_is_one<K>(h: Seq<K>, k: K)
    ensures
        lru_distance(recency(h.push(k)), k) == Some(1nat),
        distances(h.push(k).push(k)).last() == Some(1nat),
{
    lemma_recency_keys(h);
    lemma_next_keeps_keys(recency(h), k);
    assert(h.push(k).drop_last() =~= h);
    assert(h.push(k).push(k).drop_last() =~= h.push(k));
    let n = recency(h.push(k));
    assert(n[0] == k);
    assert(n.contains(k));
    assert(n.index_of(k) == 0) by {
        n.index_of_first_ensures(k);
        assert(n.no_duplicates());
    }
}

} // verus!
