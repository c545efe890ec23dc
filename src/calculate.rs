use vstd::prelude::*;
use crate::hist::Hist;
use crate::list_serializable::ListSerializable;
use crate::lru::LRU;
use crate::olken::LRUSplay;
use crate::recency::{distances, distances_from, dist_of, lemma_distances_len, occurrences};
use crate::ri::{interval_list, intervals, reuse_intervals};
use crate::stack::LRUStack;
use crate::vec::LRUVec;

verus! {

broadcast use vstd::laws_eq::group_laws_eq, vstd::std_specs::hash::axiom_usize_obeys_hash_table_key_model;

/// For address keys the list-based, array-based and splay-tree algorithms are all exact:
/// each access of each moves the same recency order by `lru_next` and reports the same
/// `lru_distance`, so on any sequence of addresses all three report the same distances.
pub proof fn lemma_exact_algorithms_agree()
    ensures
        <LRUStack<usize> as LRU<usize>>::exact_for_keys(),
        <LRUVec<usize> as LRU<usize>>::exact_for_keys(),
        <LRUSplay<usize> as LRU<usize>>::exact_for_keys(),
{
}

/// The exact stack-distance algorithms.
pub enum Algorithm {
    Olken,
    Stack,
    Vec,
}

/// Runs `input` through `sim`, recording each address with its distance.
fn run_distances<A: LRU<usize>>(sim: &mut A, input: &Vec<usize>) -> (r: (Hist, Vec<(usize, Option<usize>)>))
    requires
        old(sim).inv(),
        old(sim).spent() + input@.len() < usize::MAX,
    ensures
        r.0.wf(),
        r.0.total_spec() == input@.len(),
        r.1@.len() == input@.len(),
        forall|i: int| 0 <= i < input@.len() ==> r.1@[i].0 == input@[i],
        A::exact_for_keys() ==> {
            &&& forall|e: Option<usize>| r.0.count(e) == occurrences(distances_from(old(sim).recency_view(), input@), e)
            &&& forall|i: int| 0 <= i < input@.len() ==> dist_of(r.1@[i].1) == distances_from(old(sim).recency_view(), input@)[i]
        },
{
    let ghost s0 = sim.recency_view();
    let ghost sp0 = sim.spent();
    let mut hist = Hist::new();
    let mut dists: Vec<(usize, Option<usize>)> = Vec::new();
    let n = input.len();
    let mut i: usize = 0;
    proof {
        assert(input@.take(0) =~= Seq::<usize>::empty());
    }
    while i < n
        invariant
            n == input@.len(),
            n < usize::MAX,
            i <= n,
            sim.inv(),
            sp0 + n < usize::MAX,
            sim.spent() <= sp0 + i,
            hist.wf(),
            hist.total_spec() == i,
            dists@.len() == i,
            forall|k: int| 0 <= k < i ==> dists@[k].0 == input@[k],
            A::exact_for_keys() ==> {
                &&& sim.recency_view() == crate::recency::recency_from(s0, input@.take(i as int))
                &&& forall|e: Option<usize>| hist.count(e) == occurrences(distances_from(s0, input@.take(i as int)), e)
                &&& forall|k: int| 0 <= k < i ==> dist_of(dists@[k].1) == distances_from(s0, input@.take(i as int))[k]
            },
        decreases n - i,
    {
        let a = input[i];
        proof {
            sim.lemma_room();
        }
        let ghost sv = sim.recency_view();
        let ghost h0 = hist;
        let d = sim.rec_access(a);
        hist.add_dist(d);
        dists.push((a, d));
        proof {
            let p = input@.take(i as int);
            let q = input@.take(i + 1);
            assert(q =~= p + seq![a]);
            assert(q.drop_last() =~= p);
            if A::exact_for_keys() {
                lemma_distances_len(s0, p);
                lemma_distances_len(s0, q);
                let ds = distances_from(s0, q);
                assert(ds == distances_from(s0, p).push(crate::recency::lru_distance(sv, a)));
                assert forall|e: Option<usize>| hist.count(e) == occurrences(ds, e) by {
                    assert(ds.drop_last() =~= distances_from(s0, p));
                    if e != d {
                        assert(dist_of(e) != dist_of(d));
                    }
                }
                assert forall|k: int| 0 <= k < i + 1 implies dist_of(dists@[k].1) == ds[k] by {
                    if k < i {
                        assert(ds[k] == distances_from(s0, p)[k]);
                    } else {
                        assert(dists@[k].1 == d);
                        assert(ds[k] == crate::recency::lru_distance(sv, a));
                    }
                }
            }
        }
        i = i + 1;
    }
    proof {
        assert(input@.take(n as int) =~= input@);
        lemma_distances_len(s0, input@);
    }
    (hist, dists)
}

/// Runs the address list `trace_input` through the exact algorithm `lru_type`. Returns
/// the reuse-distance histogram, the reuse-interval histogram, and each address with its
/// distance and with its interval. Every algorithm gives the same result.
pub fn calculate_trace(trace_input: &ListSerializable, lru_type: Algorithm) -> (r: (
    Hist,
    Hist,
    Vec<(usize, Option<usize>)>,
    Vec<(usize, Option<usize>)>,
))
    requires
        trace_input@.len() < usize::MAX,
    ensures
        forall|e: Option<usize>| r.0.count(e) == occurrences(distances(trace_input@), e),
        forall|e: Option<usize>| r.1.count(e) == occurrences(intervals(trace_input@), e),
        r.2@.len() == trace_input@.len(),
        r.3@.len() == trace_input@.len(),
        forall|i: int| 0 <= i < trace_input@.len() ==> {
            &&& r.2@[i].0 == trace_input@[i]
            &&& dist_of(r.2@[i].1) == distances(trace_input@)[i]
            &&& r.3@[i].0 == trace_input@[i]
            &&& dist_of(r.3@[i].1) == intervals(trace_input@)[i]
        },
{
    let input = trace_input.get_vec();
    let (hist_rd, dist_rd) = match lru_type {
        Algorithm::Olken => {
            let mut sim: LRUSplay<usize> = LRUSplay::new();
            run_distances(&mut sim, input)
        },
        Algorithm::Stack => {
            let mut sim: LRUStack<usize> = LRUStack::new();
            run_distances(&mut sim, input)
        },
        Algorithm::Vec => {
            let mut sim: LRUVec<usize> = LRUVec::new();
            run_distances(&mut sim, input)
        },
    };
    let hist_ri = reuse_intervals(input);
    let ivs = interval_list(input);
    let mut dist_ri: Vec<(usize, Option<usize>)> = Vec::new();
    let n = input.len();
    let mut i: usize = 0;
    while i < n
        invariant
            n == input@.len(),
            ivs@.len() == n,
            forall|k: int| 0 <= k < n ==> dist_of(ivs@[k]) == intervals(input@)[k],
            i <= n,
            dist_ri@.len() == i,
            forall|k: int| 0 <= k < i ==> dist_ri@[k].0 == input@[k] && dist_of(dist_ri@[k].1) == intervals(input@)[k],
        decreases n - i,
    {
        dist_ri.push((input[i], ivs[i]));
        i = i + 1;
    }
    (hist_rd, hist_ri, dist_rd, dist_ri)
}

} // verus!
