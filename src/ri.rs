use vstd::prelude::*;
use fxhash::FxHashMap;
use crate::arybase::bases_of;
use crate::ast::Node;
use crate::fxmap::{fx_get, fx_insert, fx_new};
use crate::hist::Hist;
use crate::list_serializable::ListSerializable;
use crate::olken::LRUSplay;
use crate::recency::{dist_of, occurrences};
use crate::trace::{TraceError, trace, walk};

verus! {

broadcast use vstd::std_specs::hash::axiom_usize_obeys_hash_table_key_model;

/// The last position before `i` at which `h` holds `a`.
pub open spec fn last_before(h: Seq<usize>, i: int, a: usize) -> Option<int>
    decreases i,
{
    if i <= 0 {
        None
    } else if h[i - 1] == a {
        Some(i - 1)
    } else {
        last_before(h, i - 1, a)
    }
}

proof fn lemma_last_before_range(h: Seq<usize>, i: int, a: usize)
    requires
        i <= h.len(),
    ensures
        last_before(h, i, a) matches Some(j) ==> 0 <= j < i && h[j] == a,
    decreases i,
{
    if i > 0 && h[i - 1] != a {
        lemma_last_before_range(h, i - 1, a);
    }
}

/// The reuse interval at position `i`: the number of accesses since the previous access
/// to the same address, or `None` for a first access.
pub open spec fn interval(h: Seq<usize>, i: int) -> Option<nat> {
    match last_before(h, i, h[i]) {
        Some(j) => Some((i - j) as nat),
        None => None,
    }
}

/// The reuse intervals of all positions of `h`.
pub open spec fn intervals(h: Seq<usize>) -> Seq<Option<nat>> {
    Seq::new(h.len(), |i: int| interval(h, i))
}

/// The reuse interval of each position of `addrs`, from a map of last access times.
pub fn interval_list(addrs: &Vec<usize>) -> (r: Vec<Option<usize>>)
    ensures
        r@.len() == addrs@.len(),
        forall|i: int| 0 <= i < addrs@.len() ==> dist_of(r@[i]) == interval(addrs@, i),
{
    let h = Ghost(addrs@);
    let mut out: Vec<Option<usize>> = Vec::new();
    let mut last: FxHashMap<usize, usize> = fx_new();
    let n = addrs.len();
    let mut i: usize = 0;
    while i < n
        invariant
            h@ == addrs@,
            n == h@.len(),
            i <= n,
            out@.len() == i,
            forall|k: int| 0 <= k < i ==> dist_of(out@[k]) == interval(h@, k),
            forall|a: usize| #[trigger] last@.contains_key(a) <==> last_before(h@, i as int, a) is Some,
            forall|a: usize| last@.contains_key(a) ==> last_before(h@, i as int, a) == Some(last@[a] as int),
        decreases n - i,
    {
        let a = addrs[i];
        let ri = match fx_get(&last, &a) {
            Some(j) => {
                proof {
                    lemma_last_before_range(h@, i as int, a);
                }
                Some(i - j)
            },
            None => None,
        };
        out.push(ri);
        fx_insert(&mut last, a, i);
        proof {
            assert(dist_of(ri) == interval(h@, i as int));
            assert forall|b: usize| #[trigger] last@.contains_key(b) <==> last_before(h@, i + 1, b) is Some by {}
            assert forall|b: usize| last@.contains_key(b) implies last_before(h@, i + 1, b) == Some(last@[b] as int) by {}
        }
        i = i + 1;
    }
    out
}

/// The histogram of the reuse intervals of the address sequence `addrs`.
pub fn reuse_intervals(addrs: &Vec<usize>) -> (r: Hist)
    requires
        addrs@.len() < usize::MAX,
    ensures
        r.wf(),
        r.total_spec() == addrs@.len(),
        forall|e: Option<usize>| r.count(e) == occurrences(intervals(addrs@), e),
{
    let ivs = interval_list(addrs);
    let ghost want = intervals(addrs@);
    let mut hist = Hist::new();
    let n = ivs.len();
    let mut i: usize = 0;
    proof {
        assert(want.take(0) =~= Seq::<Option<nat>>::empty());
    }
    while i < n
        invariant
            n == ivs@.len(),
            n == addrs@.len(),
            n < usize::MAX,
            want == intervals(addrs@),
            forall|k: int| 0 <= k < n ==> dist_of(ivs@[k]) == interval(addrs@, k),
            i <= n,
            hist.wf(),
            hist.total_spec() == i,
            forall|e: Option<usize>| hist.count(e) == occurrences(want.take(i as int), e),
        decreases n - i,
    {
        let ri = ivs[i];
        hist.add_dist(ri);
        proof {
            assert(want.take(i + 1).drop_last() =~= want.take(i as int));
            assert(want.take(i + 1).last() == dist_of(ri));
            assert forall|e: Option<usize>| hist.count(e) == occurrences(want.take(i + 1), e) by {
                if e != ri {
                    assert(dist_of(e) != dist_of(ri));
                }
            }
        }
        i = i + 1;
    }
    proof {
        assert(want.take(n as int) =~= want);
    }
    hist
}

/// Traces `code`, appending its addresses to `accesses_count`, and returns the histogram
/// of their reuse intervals.
pub fn tracing_ri(code: &Node, accesses_count: &mut ListSerializable) -> (r: Result<Hist, TraceError>)
    requires
        bases_of(*code).1 <= usize::MAX ==> walk(*code, Seq::empty(), bases_of(*code).0).0.len() < usize::MAX,
    ensures
        bases_of(*code).1 > usize::MAX ==> (r matches Err(TraceError::AddressOverflow)
            && final(accesses_count)@ == old(accesses_count)@),
        bases_of(*code).1 <= usize::MAX ==> {
            let (w, f) = walk(*code, Seq::empty(), bases_of(*code).0);
            &&& final(accesses_count)@ == old(accesses_count)@ + w
            &&& match r {
                Ok(h) => {
                    &&& f is None
                    &&& h.wf()
                    &&& forall|e: Option<usize>| h.count(e) == occurrences(intervals(w), e)
                },
                Err(e) => f == Some(e.fault()),
            }
        },
{
    let sim: LRUSplay<usize> = LRUSplay::new();
    let mut mine = ListSerializable::new();
    let res = trace(code, sim, &mut mine);
    let addrs = mine.get_vec();
    let ghost a0 = accesses_count@;
    let n = addrs.len();
    let mut i: usize = 0;
    while i < n
        invariant
            n == addrs@.len(),
            i <= n,
            accesses_count@ == a0 + addrs@.take(i as int),
        decreases n - i,
    {
        accesses_count.add(addrs[i]);
        proof {
            assert(addrs@.take(i + 1) =~= addrs@.take(i as int).push(addrs@[i as int]));
        }
        i = i + 1;
    }
    proof {
        assert(addrs@.take(n as int) =~= addrs@);
        assert(Seq::<usize>::empty() + mine@ =~= mine@);
    }
    match res {
        Ok(_) => Ok(reuse_intervals(addrs)),
        Err(e) => Err(e),
    }
}

} // verus!
