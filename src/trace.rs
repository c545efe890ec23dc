use vstd::prelude::*;
use crate::arybase::{BaseEntry, bases_of, set_arybase, table_view};
use crate::hist::Hist;
use crate::list_serializable::ListSerializable;
use crate::lru::LRU;
use crate::recency::{
    distances_from, dist_of, lemma_from_append, lemma_occurrences_append, lru_distance, lru_next,
    occurrences, recency_from,
};
use crate::ast::{AryRef, Affine, Node, Stmt, affine_value, bound_value, cond_value};

verus! {

/// Why a trace cannot go on, as a mathematical value.
pub enum TraceFault {
    /// A reference's subscripts do not match its dimensions (the array's name).
    Shape(Seq<char>),
    /// A loop bound cannot be resolved (the loop variable's name).
    Bound(Seq<char>),
    /// A subscript or address is out of range (the array's name).
    Index(Seq<char>),
    /// A branch predicate reads an index out of scope.
    Condition,
    /// The arrays' total size passes `usize::MAX`.
    Size,
}

/// Why a trace stopped.
#[derive(Debug)]
pub enum TraceError {
    /// A reference's subscript count differs from its dimension count.
    ShapeMismatch(String),
    /// A loop bound cannot be resolved to an `i32` at loop entry.
    UnsupportedBound(String),
    /// A subscript is negative or out of scope, or an address passes `usize::MAX`.
    BadIndex(String),
    /// A branch predicate reads an index out of scope.
    BadCondition,
    /// The arrays' total size passes `usize::MAX`.
    AddressOverflow,
}

impl TraceError {
    pub open spec fn fault(&self) -> TraceFault {
        match self {
            TraceError::ShapeMismatch(s) => TraceFault::Shape(s@),
            TraceError::UnsupportedBound(s) => TraceFault::Bound(s@),
            TraceError::BadIndex(s) => TraceFault::Index(s@),
            TraceError::BadCondition => TraceFault::Condition,
            TraceError::AddressOverflow => TraceFault::Size,
        }
    }
}

/// The base of array `name` in the table: its last entry under that name.
pub open spec fn base_lookup(tbl: Seq<BaseEntry>, name: Seq<char>) -> Option<nat>
    decreases tbl.len(),
{
    if tbl.len() == 0 {
        None
    } else if tbl.last().0 == name {
        Some(tbl.last().1)
    } else {
        base_lookup(tbl.drop_last(), name)
    }
}

/// The subscript values at `iv`, if each is in scope and lies in `[0, usize::MAX]`.
pub open spec fn index_values(subs: Seq<Affine>, iv: Seq<i32>) -> Option<Seq<nat>>
    decreases subs.len(),
{
    if subs.len() == 0 {
        Some(Seq::empty())
    } else {
        match index_values(subs.drop_last(), iv) {
            Some(p) => match affine_value(subs.last(), iv) {
                Some(v) => if 0 <= v <= usize::MAX {
                    Some(p.push(v as nat))
                } else {
                    None
                },
                None => None,
            },
            None => None,
        }
    }
}

/// The row-major offset of the first `k` indices, `acc * dim + index` at each step,
/// while it fits a `usize`.
pub open spec fn flat_offset(idx: Seq<nat>, dim: Seq<usize>, k: int) -> Option<nat>
    decreases k,
{
    if k <= 0 {
        Some(0)
    } else {
        match flat_offset(idx, dim, k - 1) {
            Some(a) => if a * (dim[k - 1] as nat) + idx[k - 1] <= usize::MAX {
                Some(a * (dim[k - 1] as nat) + idx[k - 1])
            } else {
                None
            },
            None => None,
        }
    }
}

/// The flat address of reference `r` at `iv`: base plus row-major offset.
pub open spec fn ref_addr(r: AryRef, iv: Seq<i32>, tbl: Seq<BaseEntry>) -> Result<nat, TraceFault> {
    if r.sub@.len() != r.dim@.len() {
        Err(TraceFault::Shape(r.name@))
    } else {
        match index_values(r.sub@, iv) {
            None => Err(TraceFault::Index(r.name@)),
            Some(idx) => match flat_offset(idx, r.dim@, r.dim@.len() as int) {
                None => Err(TraceFault::Index(r.name@)),
                Some(off) => match base_lookup(tbl, r.name@) {
                    None => Err(TraceFault::Index(r.name@)),
                    Some(b) => if b + off <= usize::MAX {
                        Ok(b + off)
                    } else {
                        Err(TraceFault::Index(r.name@))
                    },
                },
            },
        }
    }
}

/// The addresses that a depth-first walk of `n` under indices `iv` touches, in order,
/// up to the first fault, and that fault if any.
pub open spec fn walk(n: Node, iv: Seq<i32>, tbl: Seq<BaseEntry>) -> (Seq<usize>, Option<TraceFault>)
    decreases n, 2int, 0int,
{
    match n.stmt {
        Stmt::Ref(r) => match ref_addr(r, iv, tbl) {
            Ok(a) => (seq![a as usize], None),
            Err(f) => (Seq::empty(), Some(f)),
        },
        Stmt::Loop(l) => match (bound_value(l.lb, iv), bound_value(l.ub, iv)) {
            (Some(lo), Some(hi)) => walk_loop(l.body, lo as int, hi as int, iv, tbl),
            _ => (Seq::empty(), Some(TraceFault::Bound(l.iv@))),
        },
        Stmt::Block(v) => walk_list(v, v@.len() as int, iv, tbl),
        Stmt::Branch(b) => match cond_value(b.cond, iv) {
            None => (Seq::empty(), Some(TraceFault::Condition)),
            Some(true) => walk(*b.then_body, iv, tbl),
            Some(false) => match b.else_body {
                Some(e) => walk(*e, iv, tbl),
                None => (Seq::empty(), None),
            },
        },
    }
}

/// The walk of the first `j` trees of `v`, one after another.
pub open spec fn walk_list(v: Vec<Node>, j: int, iv: Seq<i32>, tbl: Seq<BaseEntry>) -> (Seq<usize>, Option<TraceFault>)
    decreases v, 0int, j,
{
    if j <= 0 || j > v@.len() {
        (Seq::empty(), None)
    } else {
        let p = walk_list(v, j - 1, iv, tbl);
        if p.1 is Some {
            p
        } else {
            let q = walk(v@[j - 1], iv, tbl);
            (p.0 + q.0, q.1)
        }
    }
}

/// The walk of a loop body for each index in `[lo, hi)`, in increasing order.
pub open spec fn walk_loop(body: Vec<Node>, lo: int, hi: int, iv: Seq<i32>, tbl: Seq<BaseEntry>) -> (Seq<usize>, Option<TraceFault>)
    decreases body, 1int, hi - lo,
{
    if hi <= lo {
        (Seq::empty(), None)
    } else {
        let p = walk_loop(body, lo, hi - 1, iv, tbl);
        if p.1 is Some {
            p
        } else {
            let q = walk_list(body, body@.len() as int, iv.push((hi - 1) as i32), tbl);
            (p.0 + q.0, q.1)
        }
    }
}

/// A longer list walk extends a shorter one, and stays put after a fault.
pub proof fn lemma_list_prefix(v: Vec<Node>, j: int, k: int, iv: Seq<i32>, tbl: Seq<BaseEntry>)
    requires
        0 <= j <= k <= v@.len(),
    ensures
        walk_list(v, j, iv, tbl).0.is_prefix_of(walk_list(v, k, iv, tbl).0),
        walk_list(v, j, iv, tbl).1 is Some ==> walk_list(v, k, iv, tbl) == walk_list(v, j, iv, tbl),
    decreases k - j,
{
    if j == k {
        assert(walk_list(v, j, iv, tbl).0.subrange(0, walk_list(v, j, iv, tbl).0.len() as int) =~= walk_list(v, j, iv, tbl).0);
    } else {
        lemma_list_prefix(v, j, k - 1, iv, tbl);
        let a = walk_list(v, j, iv, tbl).0;
        let b = walk_list(v, k - 1, iv, tbl).0;
        let c = walk_list(v, k, iv, tbl).0;
        assert(a.is_prefix_of(c)) by {
            assert forall|x: int| 0 <= x < a.len() implies a[x] == c[x] by {
                assert(a[x] == b.subrange(0, a.len() as int)[x]);
                assert(c.subrange(0, b.len() as int) =~= b) by {
                    if walk_list(v, k - 1, iv, tbl).1 is None {
                        let q = walk(v@[k - 1], iv, tbl);
                        assert(c =~= b + q.0);
                    }
                }
                assert(b[x] == c.subrange(0, b.len() as int)[x]);
            }
            assert(c.subrange(0, a.len() as int) =~= a);
        }
    }
}

/// A loop walk over more indices extends one over fewer, and stays put after a fault.
pub proof fn lemma_loop_prefix(body: Vec<Node>, lo: int, j: int, k: int, iv: Seq<i32>, tbl: Seq<BaseEntry>)
    requires
        lo <= j <= k,
    ensures
        walk_loop(body, lo, j, iv, tbl).0.is_prefix_of(walk_loop(body, lo, k, iv, tbl).0),
        walk_loop(body, lo, j, iv, tbl).1 is Some ==> walk_loop(body, lo, k, iv, tbl) == walk_loop(body, lo, j, iv, tbl),
    decreases k - j,
{
    if j == k {
        assert(walk_loop(body, lo, j, iv, tbl).0.subrange(0, walk_loop(body, lo, j, iv, tbl).0.len() as int) =~= walk_loop(body, lo, j, iv, tbl).0);
    } else {
        lemma_loop_prefix(body, lo, j, k - 1, iv, tbl);
        let a = walk_loop(body, lo, j, iv, tbl).0;
        let b = walk_loop(body, lo, k - 1, iv, tbl).0;
        let c = walk_loop(body, lo, k, iv, tbl).0;
        assert(a.is_prefix_of(c)) by {
            assert forall|x: int| 0 <= x < a.len() implies a[x] == c[x] by {
                assert(a[x] == b.subrange(0, a.len() as int)[x]);
                assert(c.subrange(0, b.len() as int) =~= b) by {
                    if walk_loop(body, lo, k - 1, iv, tbl).1 is None {
                        let q = walk_list(body, body@.len() as int, iv.push((k - 1) as i32), tbl);
                        assert(c =~= b + q.0);
                    }
                }
                assert(b[x] == c.subrange(0, b.len() as int)[x]);
            }
            assert(c.subrange(0, a.len() as int) =~= a);
        }
    }
}

/// The base of array `name`, searching the table from its end.
fn lookup_base(tbl: &Vec<(String, usize, usize)>, name: &String) -> (r: Option<usize>)
    ensures
        match base_lookup(table_view(tbl@), name@) {
            Some(b) => r == Some(b as usize) && b <= usize::MAX,
            None => r is None,
        },
{
    let mut i: usize = tbl.len();
    assert(table_view(tbl@).take(i as int) =~= table_view(tbl@));
    while i > 0
        invariant
            i <= tbl@.len(),
            base_lookup(table_view(tbl@), name@) == base_lookup(table_view(tbl@).take(i as int), name@),
        decreases i,
    {
        let ghost t = table_view(tbl@).take(i as int);
        assert(t.drop_last() =~= table_view(tbl@).take(i - 1));
        if tbl[i - 1].0 == *name {
            return Some(tbl[i - 1].1);
        }
        i = i - 1;
    }
    None
}

/// The row-major flat address of `ary_ref` at iteration vector `ivec`.
pub fn access2addr(ary_ref: &AryRef, ivec: &Vec<i32>, tbl: &Vec<(String, usize, usize)>) -> (r: Result<usize, TraceError>)
    ensures
        match ref_addr(*ary_ref, ivec@, table_view(tbl@)) {
            Ok(a) => r == Ok::<usize, TraceError>(a as usize),
            Err(f) => r matches Err(e) && e.fault() == f,
        },
{
    let n = ary_ref.dim.len();
    if ary_ref.sub.len() != n {
        return Err(TraceError::ShapeMismatch(ary_ref.name.clone()));
    }
    let mut idx: Vec<usize> = Vec::new();
    let mut k: usize = 0;
    assert(ary_ref.sub@.take(0) =~= Seq::<Affine>::empty());
    assert(idx@.map_values(|x: usize| x as nat) =~= Seq::<nat>::empty());
    while k < n
        invariant
            n == ary_ref.dim@.len(),
            n == ary_ref.sub@.len(),
            k <= n,
            idx@.len() == k,
            index_values(ary_ref.sub@.take(k as int), ivec@) == Some(idx@.map_values(|x: usize| x as nat)),
        decreases n - k,
    {
        let ghost p = ary_ref.sub@.take(k + 1);
        assert(p.drop_last() =~= ary_ref.sub@.take(k as int));
        match ary_ref.sub[k].eval(ivec) {
            Some(v) => {
                if v < 0 || v > usize::MAX as i128 {
                    proof {
                        lemma_index_none_grows(ary_ref.sub@, ivec@, k as int + 1);
                    }
                    return Err(TraceError::BadIndex(ary_ref.name.clone()));
                }
                let ghost old_idx = idx@;
                idx.push(v as usize);
                assert(idx@.map_values(|x: usize| x as nat) =~= old_idx.map_values(|x: usize| x as nat).push(v as nat));
            },
            None => {
                proof {
                    lemma_index_none_grows(ary_ref.sub@, ivec@, k as int + 1);
                }
                return Err(TraceError::BadIndex(ary_ref.name.clone()));
            },
        }
        k = k + 1;
    }
    assert(ary_ref.sub@.take(n as int) =~= ary_ref.sub@);
    let ghost iv = idx@.map_values(|x: usize| x as nat);
    let mut off: usize = 0;
    k = 0;
    while k < n
        invariant
            n == ary_ref.dim@.len(),
            n == idx@.len(),
            n == ary_ref.sub@.len(),
            iv == idx@.map_values(|x: usize| x as nat),
            index_values(ary_ref.sub@, ivec@) == Some(iv),
            k <= n,
            flat_offset(iv, ary_ref.dim@, k as int) == Some(off as nat),
        decreases n - k,
    {
        let step = match off.checked_mul(ary_ref.dim[k]) {
            Some(m) => m.checked_add(idx[k]),
            None => None,
        };
        match step {
            Some(s) => {
                off = s;
            },
            None => {
                proof {
                    lemma_offset_none_grows(iv, ary_ref.dim@, k as int + 1, n as int);
                }
                return Err(TraceError::BadIndex(ary_ref.name.clone()));
            },
        }
        k = k + 1;
    }
    match lookup_base(tbl, &ary_ref.name) {
        Some(b) => match b.checked_add(off) {
            Some(a) => Ok(a),
            None => Err(TraceError::BadIndex(ary_ref.name.clone())),
        },
        None => Err(TraceError::BadIndex(ary_ref.name.clone())),
    }
}

proof fn lemma_index_none_grows(subs: Seq<Affine>, iv: Seq<i32>, k: int)
    requires
        0 < k <= subs.len(),
        index_values(subs.take(k), iv) is None,
    ensures
        index_values(subs, iv) is None,
    decreases subs.len() - k,
{
    if k == subs.len() {
        assert(subs.take(k) =~= subs);
    } else {
        assert(subs.take(k + 1).drop_last() =~= subs.take(k));
        lemma_index_none_grows(subs, iv, k + 1);
    }
}

proof fn lemma_offset_none_grows(idx: Seq<nat>, dim: Seq<usize>, k: int, n: int)
    requires
        0 < k <= n,
        flat_offset(idx, dim, k) is None,
    ensures
        flat_offset(idx, dim, n) is None,
    decreases n - k,
{
    if k < n {
        lemma_offset_none_grows(idx, dim, k + 1, n);
    }
}

/// The size of an array element in bytes.
pub const DS: usize = 8;
/// The size of a cache line in bytes.
pub const CLS: usize = 64;

/// The cache line that `ary_ref` touches at `ivec`: its flat element address scaled by
/// the element size and divided by the line size.
pub fn access3addr(ary_ref: &AryRef, ivec: &Vec<i32>, tbl: &Vec<(String, usize, usize)>) -> (r: Result<usize, TraceError>)
    ensures
        match ref_addr(*ary_ref, ivec@, table_view(tbl@)) {
            Ok(a) => r == Ok::<usize, TraceError>((a * (DS as nat) / (CLS as nat)) as usize),
            Err(f) => r matches Err(e) && e.fault() == f,
        },
{
    match access2addr(ary_ref, ivec, tbl) {
        Ok(a) => {
            assert(a as int * 8 / 64 == a as int / 8) by (nonlinear_arith);
            Ok(a / (CLS / DS))
        },
        Err(e) => Err(e),
    }
}

/// What running the addresses `w` through analyzer `s0` and histogram `h0`, and
/// appending them to list `d0`, leaves: analyzer `s1`, histogram `h1`, list `d1`.
pub open spec fn advanced<A: LRU<usize>>(
    s0: A,
    s1: A,
    h0: Hist,
    h1: Hist,
    d0: Seq<usize>,
    d1: Seq<usize>,
    w: Seq<usize>,
) -> bool {
    &&& s1.inv()
    &&& h1.wf()
    &&& d1 == d0 + w
    &&& s1.spent() <= s0.spent() + w.len()
    &&& h1.total_spec() == h0.total_spec() + w.len()
    &&& A::exact_for_keys() ==> {
        &&& s1.recency_view() == recency_from(s0.recency_view(), w)
        &&& forall|e: Option<usize>|
            h1.count(e) == h0.count(e) + occurrences(distances_from(s0.recency_view(), w), e)
    }
}

proof fn lemma_advanced_refl<A: LRU<usize>>(s: A, h: Hist, d: Seq<usize>)
    requires
        s.inv(),
        h.wf(),
    ensures
        advanced(s, s, h, h, d, d, Seq::empty()),
{
    assert(d + Seq::<usize>::empty() =~= d);
}

proof fn lemma_advanced_trans<A: LRU<usize>>(
    s0: A, s1: A, s2: A, h0: Hist, h1: Hist, h2: Hist,
    d0: Seq<usize>, d1: Seq<usize>, d2: Seq<usize>, w1: Seq<usize>, w2: Seq<usize>,
)
    requires
        advanced(s0, s1, h0, h1, d0, d1, w1),
        advanced(s1, s2, h1, h2, d1, d2, w2),
    ensures
        advanced(s0, s2, h0, h2, d0, d2, w1 + w2),
{
    assert(d2 =~= d0 + (w1 + w2));
    lemma_from_append(s0.recency_view(), w1, w2);
    if A::exact_for_keys() {
        assert forall|e: Option<usize>|
            h2.count(e) == h0.count(e) + occurrences(distances_from(s0.recency_view(), w1 + w2), e) by {
            lemma_occurrences_append(
                distances_from(s0.recency_view(), w1),
                distances_from(recency_from(s0.recency_view(), w1), w2),
                e,
            );
        }
    }
}

proof fn lemma_advanced_one<A: LRU<usize>>(
    s0: A, s1: A, h0: Hist, h1: Hist, d0: Seq<usize>, d1: Seq<usize>, a: usize, r: Option<usize>,
)
    requires
        s1.inv(),
        h1.wf(),
        d1 == d0.push(a),
        s1.spent() <= s0.spent() + 1,
        h1.total_spec() == h0.total_spec() + 1,
        h1.count(r) == h0.count(r) + 1,
        forall|e: Option<usize>| e != r ==> h1.count(e) == h0.count(e),
        A::exact_for_keys() ==> {
            &&& s1.recency_view() == lru_next(s0.recency_view(), a)
            &&& dist_of(r) == lru_distance(s0.recency_view(), a)
        },
    ensures
        advanced(s0, s1, h0, h1, d0, d1, seq![a]),
{
    let w = seq![a];
    let s = s0.recency_view();
    assert(d1 =~= d0 + w);
    assert(w.drop_last() =~= Seq::<usize>::empty());
    assert(recency_from(s, Seq::<usize>::empty()) == s);
    assert(distances_from(s, Seq::<usize>::empty()) == Seq::<Option<nat>>::empty());
    assert(recency_from(s, w) == lru_next(s, a));
    let ds = distances_from(s, w);
    assert(ds == Seq::<Option<nat>>::empty().push(lru_distance(s, a)));
    assert(ds.drop_last() =~= Seq::<Option<nat>>::empty());
    assert(ds.last() == lru_distance(s, a));
    assert(occurrences(Seq::<Option<nat>>::empty(), r) == 0);
    if A::exact_for_keys() {
        assert forall|e: Option<usize>| #[trigger] occurrences(ds, e) == if e == r { 1nat } else { 0nat } by {
            assert(occurrences(Seq::<Option<nat>>::empty(), e) == 0);
            assert(occurrences(ds, e) == occurrences(ds.drop_last(), e) + if ds.last() == dist_of(e) { 1nat } else { 0nat });
            if e != r {
                assert(dist_of(e) != dist_of(r));
            }
        }
    }
}

/// Walks `code` under indices `ivec`, feeding each address to `sim`, its distance to
/// `hist` and the address to `data`; stops at the first fault.
fn trace_rec<A: LRU<usize>>(
    code: &Node,
    ivec: &mut Vec<i32>,
    tbl: &Vec<(String, usize, usize)>,
    sim: &mut A,
    hist: &mut Hist,
    data: &mut ListSerializable,
) -> (r: Result<(), TraceError>)
    requires
        old(sim).inv(),
        old(hist).wf(),
        old(sim).spent() + walk(*code, old(ivec)@, table_view(tbl@)).0.len() < usize::MAX,
        old(hist).total_spec() + walk(*code, old(ivec)@, table_view(tbl@)).0.len() < usize::MAX,
    ensures
        final(ivec)@ == old(ivec)@,
        advanced(*old(sim), *final(sim), *old(hist), *final(hist), old(data)@, final(data)@,
            walk(*code, old(ivec)@, table_view(tbl@)).0),
        match r {
            Ok(_) => walk(*code, old(ivec)@, table_view(tbl@)).1 is None,
            Err(e) => walk(*code, old(ivec)@, table_view(tbl@)).1 == Some(e.fault()),
        },
    decreases *code, 2int, 0int,
{
    let ghost tb = table_view(tbl@);
    let ghost iv0 = ivec@;
    let ghost sim0 = *sim;
    let ghost hist0 = *hist;
    let ghost data0 = data@;
    match &code.stmt {
        Stmt::Ref(ary_ref) => {
            match access2addr(ary_ref, ivec, tbl) {
                Ok(addr) => {
                    data.add(addr);
                    proof {
                        sim.lemma_room();
                    }
                    let rd = sim.rec_access(addr);
                    hist.add_dist(rd);
                    proof {
                        lemma_advanced_one(sim0, *sim, hist0, *hist, data0, data@, addr, rd);
                    }
                    Ok(())
                },
                Err(e) => {
                    proof {
                        lemma_advanced_refl(*sim, *hist, data@);
                    }
                    Err(e)
                },
            }
        },
        Stmt::Loop(l) => {
            let lo = match l.lb.resolve(ivec) {
                Some(x) => x,
                None => {
                    proof {
                        lemma_advanced_refl(*sim, *hist, data@);
                    }
                    return Err(TraceError::UnsupportedBound(l.iv.clone()));
                },
            };
            let hi = match l.ub.resolve(ivec) {
                Some(x) => x,
                None => {
                    proof {
                        lemma_advanced_refl(*sim, *hist, data@);
                    }
                    return Err(TraceError::UnsupportedBound(l.iv.clone()));
                },
            };
            proof {
                lemma_advanced_refl(*sim, *hist, data@);
            }
            proof {
                assert(walk(*code, iv0, tb) == walk_loop(l.body, lo as int, hi as int, iv0, tb));
            }
            if lo >= hi {
                proof {
                    assert(walk_loop(l.body, lo as int, hi as int, iv0, tb).0 =~= Seq::<usize>::empty());
                }
                return Ok(());
            }
            let ghost whole = walk_loop(l.body, lo as int, hi as int, iv0, tb);
            let mut i: i32 = lo;
            proof {
                assert(decreases_to!(*code => l.body));
            }
            while i < hi
                invariant
                    decreases_to!(*code => l.body),
                    iv0 == old(ivec)@,
                    sim0 == *old(sim),
                    hist0 == *old(hist),
                    data0 == old(data)@,
                    walk(*code, iv0, tb) == whole,
                    lo <= i <= hi,
                    ivec@ == iv0,
                    tb == table_view(tbl@),
                    whole == walk_loop(l.body, lo as int, hi as int, iv0, tb),
                    sim0.spent() + whole.0.len() < usize::MAX,
                    hist0.total_spec() + whole.0.len() < usize::MAX,
                    advanced(sim0, *sim, hist0, *hist, data0, data@, walk_loop(l.body, lo as int, i as int, iv0, tb).0),
                    walk_loop(l.body, lo as int, i as int, iv0, tb).1 is None,
                decreases hi - i,
            {
                let ghost p = walk_loop(l.body, lo as int, i as int, iv0, tb);
                let ghost q = walk_list(l.body, l.body@.len() as int, iv0.push(i), tb);
                let ghost s1 = *sim;
                let ghost h1 = *hist;
                let ghost d1 = data@;
                proof {
                    lemma_loop_prefix(l.body, lo as int, i + 1, hi as int, iv0, tb);
                    assert(walk_loop(l.body, lo as int, i + 1, iv0, tb).0 == p.0 + q.0);
                    assert(((i + 1) - 1) as i32 == i);
                }
                ivec.push(i);
                let r = trace_list(&l.body, ivec, tbl, sim, hist, data);
                ivec.pop();
                proof {
                    assert(ivec@ =~= iv0);
                    lemma_advanced_trans(sim0, s1, *sim, hist0, h1, *hist, data0, d1, data@, p.0, q.0);
                }
                match r {
                    Ok(()) => {},
                    Err(e) => {
                        return Err(e);
                    },
                }
                i = i + 1;
            }
            Ok(())
        },
        Stmt::Block(v) => trace_list(v, ivec, tbl, sim, hist, data),
        Stmt::Branch(b) => match b.cond.holds(ivec) {
            None => {
                proof {
                    lemma_advanced_refl(*sim, *hist, data@);
                }
                Err(TraceError::BadCondition)
            },
            Some(true) => trace_rec(&b.then_body, ivec, tbl, sim, hist, data),
            Some(false) => match &b.else_body {
                Some(e) => trace_rec(e, ivec, tbl, sim, hist, data),
                None => {
                    proof {
                        lemma_advanced_refl(*sim, *hist, data@);
                    }
                    Ok(())
                },
            },
        },
    }
}

/// The same over the trees of `v`, one after another.
fn trace_list<A: LRU<usize>>(
    v: &Vec<Node>,
    ivec: &mut Vec<i32>,
    tbl: &Vec<(String, usize, usize)>,
    sim: &mut A,
    hist: &mut Hist,
    data: &mut ListSerializable,
) -> (r: Result<(), TraceError>)
    requires
        old(sim).inv(),
        old(hist).wf(),
        old(sim).spent() + walk_list(*v, v@.len() as int, old(ivec)@, table_view(tbl@)).0.len() < usize::MAX,
        old(hist).total_spec() + walk_list(*v, v@.len() as int, old(ivec)@, table_view(tbl@)).0.len() < usize::MAX,
    ensures
        final(ivec)@ == old(ivec)@,
        advanced(*old(sim), *final(sim), *old(hist), *final(hist), old(data)@, final(data)@,
            walk_list(*v, v@.len() as int, old(ivec)@, table_view(tbl@)).0),
        match r {
            Ok(_) => walk_list(*v, v@.len() as int, old(ivec)@, table_view(tbl@)).1 is None,
            Err(e) => walk_list(*v, v@.len() as int, old(ivec)@, table_view(tbl@)).1 == Some(e.fault()),
        },
    decreases *v, 0int, 0int,
{
    let ghost tb = table_view(tbl@);
    let ghost iv0 = ivec@;
    let ghost sim0 = *sim;
    let ghost hist0 = *hist;
    let ghost data0 = data@;
    let ghost whole = walk_list(*v, v@.len() as int, iv0, tb);
    let n = v.len();
    let mut i: usize = 0;
    proof {
        lemma_advanced_refl(*sim, *hist, data@);
    }
    while i < n
        invariant
            iv0 == old(ivec)@,
            sim0 == *old(sim),
            hist0 == *old(hist),
            data0 == old(data)@,
            n == v@.len(),
            i <= n,
            ivec@ == iv0,
            tb == table_view(tbl@),
            whole == walk_list(*v, n as int, iv0, tb),
            sim0.spent() + whole.0.len() < usize::MAX,
            hist0.total_spec() + whole.0.len() < usize::MAX,
            advanced(sim0, *sim, hist0, *hist, data0, data@, walk_list(*v, i as int, iv0, tb).0),
            walk_list(*v, i as int, iv0, tb).1 is None,
        decreases n - i,
    {
        let ghost p = walk_list(*v, i as int, iv0, tb);
        let ghost q = walk(v@[i as int], iv0, tb);
        let ghost s1 = *sim;
        let ghost h1 = *hist;
        let ghost d1 = data@;
        proof {
            lemma_list_prefix(*v, i + 1, n as int, iv0, tb);
            assert(walk_list(*v, i + 1, iv0, tb).0 == p.0 + q.0);
            assert(decreases_to!(*v => v@[i as int]));
        }
        let r = trace_rec(&v[i], ivec, tbl, sim, hist, data);
        proof {
            lemma_advanced_trans(sim0, s1, *sim, hist0, h1, *hist, data0, d1, data@, p.0, q.0);
        }
        match r {
            Ok(()) => {},
            Err(e) => {
                return Err(e);
            },
        }
        i = i + 1;
    }
    Ok(())
}

/// Assigns array bases, then walks `code` depth-first from an empty iteration vector,
/// feeding each address to `analyzer`, its distance to a new histogram, and the address
/// to `accesses_count`. Stops at the first fault, which it returns.
pub fn trace<T: LRU<usize>>(code: &Node, analyzer: T, accesses_count: &mut ListSerializable) -> (r: Result<Hist, TraceError>)
    requires
        analyzer.inv(),
        bases_of(*code).1 <= usize::MAX ==> analyzer.spent() + walk(*code, Seq::empty(), bases_of(*code).0).0.len() < usize::MAX,
    ensures
        bases_of(*code).1 > usize::MAX ==> (r matches Err(TraceError::AddressOverflow)
            && final(accesses_count)@ == old(accesses_count)@),
        bases_of(*code).1 <= usize::MAX ==> {
            let (w, f) = walk(*code, Seq::empty(), bases_of(*code).0);
            &&& final(accesses_count)@ == old(accesses_count)@ + w
            &&& match r {
                Ok(h) => {
                    &&& f is None
                    &&& h.wf()
                    &&& h.total_spec() == w.len()
                    &&& T::exact_for_keys() ==> forall|e: Option<usize>|
                        h.count(e) == occurrences(distances_from(analyzer.recency_view(), w), e)
                },
                Err(e) => f == Some(e.fault()),
            }
        },
{
    let (tbl, _size) = match set_arybase(code) {
        Some(t) => t,
        None => {
            return Err(TraceError::AddressOverflow);
        },
    };
    let mut sim = analyzer;
    let mut hist = Hist::new();
    let mut ivec: Vec<i32> = Vec::new();
    proof {
        assert(ivec@ =~= Seq::<i32>::empty());
    }
    match trace_rec(code, &mut ivec, &tbl, &mut sim, &mut hist, accesses_count) {
        Ok(()) => Ok(hist),
        Err(e) => Err(e),
    }
}

} // verus!
