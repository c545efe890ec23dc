use vstd::prelude::*;
use vstd::set_lib::*;

verus! {

/// A node of a splay tree of disjoint stamp ranges. A node stands for a bucket of
/// `size` keys whose last stamps lie in `[lo, hi]`; `weight` is the total size of its
/// subtree.
pub struct Bucket {
    pub lo: usize,
    pub hi: usize,
    pub size: usize,
    pub weight: usize,
    pub left: Option<Box<Bucket>>,
    pub right: Option<Box<Bucket>>,
}

pub type BTree = Option<Box<Bucket>>;

/// The stamps from `lo` to `hi`.
pub open spec fn span(lo: usize, hi: usize) -> Set<usize> {
    Set::new(|x: usize| lo <= x <= hi)
}

/// The stamps covered by the ranges of a tree.
pub open spec fn covers(t: BTree) -> Set<usize>
    decreases t,
{
    match t {
        None => Set::empty(),
        Some(n) => covers(n.left).union(covers(n.right)).union(span(n.lo, n.hi)),
    }
}

/// The total size of the buckets of a tree.
pub open spec fn weight(t: BTree) -> nat
    decreases t,
{
    match t {
        None => 0,
        Some(n) => n.size as nat + weight(n.left) + weight(n.right),
    }
}

/// Ranges ordered and disjoint, buckets non-empty, each `weight` the sum below it.
pub open spec fn bwf(t: BTree) -> bool
    decreases t,
{
    match t {
        None => true,
        Some(n) => {
            &&& bwf(n.left)
            &&& bwf(n.right)
            &&& n.lo <= n.hi
            &&& n.size >= 1
            &&& n.weight == weight(t)
            &&& forall|x: usize| covers(n.left).contains(x) ==> x < n.lo
            &&& forall|x: usize| covers(n.right).contains(x) ==> x > n.hi
        },
    }
}

/// Every bucket holds one key at one stamp.
pub open spec fn unit(t: BTree) -> bool
    decreases t,
{
    match t {
        None => true,
        Some(n) => unit(n.left) && unit(n.right) && n.lo == n.hi && n.size == 1,
    }
}

/// A unit tree has unit children and a one-stamp, one-key root.
pub proof fn lemma_unit(n: Box<Bucket>)
    requires
        unit(Some(n)),
    ensures
        unit(n.left),
        unit(n.right),
        n.lo == n.hi,
        n.size == 1,
{
}

/// In a unit tree the keys are the stamps covered, one each.
pub proof fn lemma_unit_len(t: BTree)
    requires
        bwf(t),
        unit(t),
    ensures
        covers(t).finite(),
        covers(t).len() == weight(t),
    decreases t,
{
    if let Some(n) = t {
        lemma_bucket(n);
        lemma_unit(n);
        lemma_unit_len(n.left);
        lemma_unit_len(n.right);
        let l = covers(n.left);
        let r = covers(n.right);
        assert(l.disjoint(r)) by {
            assert forall|x: usize| l.contains(x) implies !r.contains(x) by {}
        }
        lemma_set_disjoint_lens(l, r);
        assert(span(n.lo, n.hi) =~= set![n.lo]);
        assert(!l.union(r).contains(n.lo));
        assert(covers(t) =~= l.union(r).insert(n.lo));
    }
}

/// One level of the definitions at a node.
pub proof fn lemma_bucket(n: Box<Bucket>)
    requires
        bwf(Some(n)),
    ensures
        bwf(n.left),
        bwf(n.right),
        n.lo <= n.hi,
        n.size >= 1,
        weight(Some(n)) == n.size + weight(n.left) + weight(n.right),
        n.weight == weight(Some(n)),
        forall|x: usize| covers(n.left).contains(x) ==> x < n.lo,
        forall|x: usize| covers(n.right).contains(x) ==> x > n.hi,
        forall|x: usize| covers(n.left).contains(x) ==> covers(Some(n)).contains(x),
        forall|x: usize| covers(n.right).contains(x) ==> covers(Some(n)).contains(x),
        forall|x: usize| n.lo <= x <= n.hi ==> covers(Some(n)).contains(x),
        covers(Some(n)).contains(n.lo),
        covers(Some(n)).contains(n.hi),
        forall|x: usize|
            covers(Some(n)).contains(x) ==> (n.lo <= x <= n.hi) || covers(n.left).contains(x)
                || covers(n.right).contains(x),
{
    assert forall|x: usize| n.lo <= x <= n.hi implies covers(Some(n)).contains(x) by {
        assert(span(n.lo, n.hi).contains(x));
    }
}

/// The total size of a tree, 0 for the empty one.
pub fn weight_of(t: &BTree) -> (r: usize)
    requires
        bwf(*t),
    ensures
        r == weight(*t),
{
    match t {
        None => 0,
        Some(n) => n.weight,
    }
}

/// A bucket over `[lo, hi]` holding `size` keys, over the trees `left` and `right`.
pub fn mk_bucket(lo: usize, hi: usize, size: usize, left: BTree, right: BTree) -> (r: Box<Bucket>)
    requires
        bwf(left),
        bwf(right),
        lo <= hi,
        size >= 1,
        forall|x: usize| covers(left).contains(x) ==> x < lo,
        forall|x: usize| covers(right).contains(x) ==> x > hi,
        size + weight(left) + weight(right) <= usize::MAX,
    ensures
        bwf(Some(r)),
        covers(Some(r)) == covers(left).union(covers(right)).union(span(lo, hi)),
        weight(Some(r)) == size + weight(left) + weight(right),
        r.lo == lo,
        r.hi == hi,
        r.size == size,
        r.left == left,
        r.right == right,
        unit(Some(r)) == (unit(left) && unit(right) && lo == hi && size == 1),
        forall|x: usize| covers(left).contains(x) ==> covers(Some(r)).contains(x),
        forall|x: usize| covers(right).contains(x) ==> covers(Some(r)).contains(x),
        forall|x: usize| lo <= x <= hi ==> covers(Some(r)).contains(x),
        forall|x: usize|
            covers(Some(r)).contains(x) ==> (lo <= x <= hi) || covers(left).contains(x)
                || covers(right).contains(x),
{
    let w = size + weight_of(&left) + weight_of(&right);
    let r = Box::new(Bucket { lo, hi, size, weight: w, left, right });
    proof {
        lemma_bucket(r);
    }
    r
}

/// A bucket detached on the way down, with the one subtree it keeps:
/// `(lo, hi, size, subtree)`.
pub type Piece = (usize, usize, usize, BTree);

/// The stamps of a piece.
pub open spec fn pcov(p: Piece) -> Set<usize> {
    covers(p.3).union(span(p.0, p.1))
}

/// The weight of a piece.
pub open spec fn pw(p: Piece) -> nat {
    p.2 as nat + weight(p.3)
}

/// A piece of one key at one stamp, over a tree of such.
pub open spec fn upiece(p: Piece) -> bool {
    p.0 == p.1 && p.2 == 1 && unit(p.3)
}

/// A piece that keeps its left subtree.
pub open spec fn lpiece(p: Piece) -> bool {
    &&& bwf(p.3)
    &&& p.0 <= p.1
    &&& p.2 >= 1
    &&& forall|y: usize| covers(p.3).contains(y) ==> y < p.0
}

/// A piece that keeps its right subtree.
pub open spec fn rpiece(p: Piece) -> bool {
    &&& bwf(p.3)
    &&& p.0 <= p.1
    &&& p.2 >= 1
    &&& forall|y: usize| covers(p.3).contains(y) ==> y > p.1
}

/// Left pieces in increasing order, each at or below the last one's `hi`.
pub open spec fn lchain(ps: Seq<Piece>) -> bool {
    &&& forall|i: int| 0 <= i < ps.len() ==> lpiece(ps[i])
    &&& forall|j: int, b: usize| 0 < j < ps.len() && #[trigger] pcov(ps[j]).contains(b) ==> b > ps[j - 1].1
    &&& forall|i: int, b: usize| 0 <= i < ps.len() && #[trigger] pcov(ps[i]).contains(b) ==> b <= ps.last().1
}

/// Right pieces in decreasing order, each at or above the last one's `lo`.
pub open spec fn rchain(ps: Seq<Piece>) -> bool {
    &&& forall|i: int| 0 <= i < ps.len() ==> rpiece(ps[i])
    &&& forall|j: int, b: usize| 0 < j < ps.len() && #[trigger] pcov(ps[j]).contains(b) ==> b < ps[j - 1].0
    &&& forall|i: int, b: usize| 0 <= i < ps.len() && #[trigger] pcov(ps[i]).contains(b) ==> b >= ps.last().0
}

/// The stamps of a sequence of pieces.
pub open spec fn punion(ps: Seq<Piece>) -> Set<usize>
    decreases ps.len(),
{
    if ps.len() == 0 {
        Set::empty()
    } else {
        punion(ps.drop_last()).union(pcov(ps.last()))
    }
}

/// The weight of a sequence of pieces.
pub open spec fn pweight(ps: Seq<Piece>) -> nat
    decreases ps.len(),
{
    if ps.len() == 0 {
        0
    } else {
        pweight(ps.drop_last()) + pw(ps.last())
    }
}

/// Hangs the left pieces `ps` back above `base`, each as the left parent of the next.
fn assemble_left(ps: Vec<Piece>, base: BTree) -> (r: BTree)
    requires
        lchain(ps@),
        bwf(base),
        ps@.len() > 0 ==> forall|b: usize| covers(base).contains(b) ==> b > ps@.last().1,
        pweight(ps@) + weight(base) <= usize::MAX,
    ensures
        bwf(r),
        covers(r) == punion(ps@).union(covers(base)),
        weight(r) == pweight(ps@) + weight(base),
        (forall|i: int| 0 <= i < ps@.len() ==> upiece(ps@[i])) && unit(base) ==> unit(r),
{
    let ghost p0 = ps@;
    let mut ps = ps;
    let mut acc = base;
    proof {
        assert(p0.take(p0.len() as int) =~= p0);
    }
    while ps.len() > 0
        invariant
            lchain(p0),
            ps@ == p0.take(ps@.len() as int),
            ps@.len() <= p0.len(),
            bwf(acc),
            covers(acc).union(punion(ps@)) == punion(p0).union(covers(base)),
            weight(acc) + pweight(ps@) == pweight(p0) + weight(base),
            pweight(p0) + weight(base) <= usize::MAX,
            ps@.len() > 0 ==> forall|b: usize| covers(acc).contains(b) ==> b > ps@.last().1,
            (forall|i: int| 0 <= i < p0.len() ==> upiece(p0[i])) && unit(base) ==> unit(acc),
        decreases ps@.len(),
    {
        let ghost before = ps@;
        let p = ps.pop().unwrap();
        proof {
            assert(before.drop_last() =~= ps@);
            assert(ps@ =~= p0.take(ps@.len() as int));
            assert(p == p0[ps@.len() as int]);
            assert(lpiece(p0[ps@.len() as int]));
            assert((forall|i: int| 0 <= i < p0.len() ==> upiece(p0[i])) ==> upiece(p0[ps@.len() as int]));
        }
        let ghost old_acc = acc;
        acc = Some(mk_bucket(p.0, p.1, p.2, p.3, acc));
        proof {
            assert(covers(acc) =~= pcov(p).union(covers(old_acc)));
            assert(covers(acc).union(punion(ps@)) =~= covers(old_acc).union(punion(before)));
            if ps@.len() > 0 {
                let j = ps@.len() as int;
                assert forall|b: usize| covers(acc).contains(b) implies b > ps@.last().1 by {
                    if pcov(p0[j]).contains(b) {
                    } else {
                        assert(pcov(p0[j]).contains(p0[j].1));
                    }
                }
            }
        }
    }
    acc
}

/// Hangs the right pieces `ps` back above `base`, each as the right parent of the next.
fn assemble_right(ps: Vec<Piece>, base: BTree) -> (r: BTree)
    requires
        rchain(ps@),
        bwf(base),
        ps@.len() > 0 ==> forall|b: usize| covers(base).contains(b) ==> b < ps@.last().0,
        pweight(ps@) + weight(base) <= usize::MAX,
    ensures
        bwf(r),
        covers(r) == punion(ps@).union(covers(base)),
        weight(r) == pweight(ps@) + weight(base),
        (forall|i: int| 0 <= i < ps@.len() ==> upiece(ps@[i])) && unit(base) ==> unit(r),
{
    let ghost p0 = ps@;
    let mut ps = ps;
    let mut acc = base;
    proof {
        assert(p0.take(p0.len() as int) =~= p0);
    }
    while ps.len() > 0
        invariant
            rchain(p0),
            ps@ == p0.take(ps@.len() as int),
            ps@.len() <= p0.len(),
            bwf(acc),
            covers(acc).union(punion(ps@)) == punion(p0).union(covers(base)),
            weight(acc) + pweight(ps@) == pweight(p0) + weight(base),
            pweight(p0) + weight(base) <= usize::MAX,
            ps@.len() > 0 ==> forall|b: usize| covers(acc).contains(b) ==> b < ps@.last().0,
            (forall|i: int| 0 <= i < p0.len() ==> upiece(p0[i])) && unit(base) ==> unit(acc),
        decreases ps@.len(),
    {
        let ghost before = ps@;
        let p = ps.pop().unwrap();
        proof {
            assert(before.drop_last() =~= ps@);
            assert(ps@ =~= p0.take(ps@.len() as int));
            assert(p == p0[ps@.len() as int]);
            assert(rpiece(p0[ps@.len() as int]));
            assert((forall|i: int| 0 <= i < p0.len() ==> upiece(p0[i])) ==> upiece(p0[ps@.len() as int]));
        }
        let ghost old_acc = acc;
        acc = Some(mk_bucket(p.0, p.1, p.2, acc, p.3));
        proof {
            assert(covers(acc) =~= pcov(p).union(covers(old_acc)));
            assert(covers(acc).union(punion(ps@)) =~= covers(old_acc).union(punion(before)));
            if ps@.len() > 0 {
                let j = ps@.len() as int;
                assert forall|b: usize| covers(acc).contains(b) implies b < ps@.last().0 by {
                    if pcov(p0[j]).contains(b) {
                    } else {
                        assert(pcov(p0[j]).contains(p0[j].0));
                    }
                }
            }
        }
    }
    acc
}

/// Top-down splay: brings the bucket whose range holds `x` to the root. On the way
/// down each bucket passed is set aside with the subtree that does not hold `x`, after
/// a rotation where the path goes the same way twice; the pieces are then hung back
/// under the bucket found.
#[verifier::rlimit(60)]
pub fn splay_bucket(t: Box<Bucket>, x: usize) -> (r: Box<Bucket>)
    requires
        bwf(Some(t)),
        covers(Some(t)).contains(x),
    ensures
        bwf(Some(r)),
        covers(Some(r)) == covers(Some(t)),
        weight(Some(r)) == weight(Some(t)),
        r.lo <= x <= r.hi,
        unit(Some(t)) ==> unit(Some(r)),
{
    let ghost s0 = covers(Some(t));
    let ghost u = unit(Some(t));
    let ghost w0 = weight(Some(t));
    proof {
        lemma_bucket(t);
    }
    let mut cur = t;
    let mut lefts: Vec<Piece> = Vec::new();
    let mut rights: Vec<Piece> = Vec::new();
    proof {
        assert(punion(lefts@) =~= Set::<usize>::empty());
        assert(punion(rights@) =~= Set::<usize>::empty());
        assert(punion(lefts@).union(punion(rights@)).union(covers(Some(cur))) =~= s0);
    }
    while !(cur.lo <= x && x <= cur.hi)
        invariant
            bwf(Some(cur)),
            covers(Some(cur)).contains(x),
            lchain(lefts@),
            rchain(rights@),
            lefts@.len() > 0 ==> forall|b: usize| covers(Some(cur)).contains(b) ==> b > lefts@.last().1,
            rights@.len() > 0 ==> forall|b: usize| covers(Some(cur)).contains(b) ==> b < rights@.last().0,
            punion(lefts@).union(punion(rights@)).union(covers(Some(cur))) == s0,
            pweight(lefts@) + pweight(rights@) + weight(Some(cur)) == w0,
            w0 <= usize::MAX,
            u == unit(Some(t)),
            u ==> unit(Some(cur)),
            u ==> forall|i: int| 0 <= i < lefts@.len() ==> upiece(lefts@[i]),
            u ==> forall|i: int| 0 <= i < rights@.len() ==> upiece(rights@[i]),
        decreases weight(Some(cur)),
    {
        proof {
            lemma_bucket(cur);
        }
        let ghost c0 = cur;
        let ghost l0 = lefts@;
        let ghost r0 = rights@;
        let node = *cur;
        if x < node.lo {
            let l = match node.left {
                Some(l) => l,
                None => {
                    proof {
                        assert(covers(None) =~= Set::<usize>::empty());
                    }
                    return mk_bucket(node.lo, node.hi, node.size, None, node.right);
                },
            };
            proof {
                lemma_bucket(l);
            }
            if x < l.lo {
                let lnode = *l;
                let a = match lnode.left {
                    Some(a) => a,
                    None => {
                        proof {
                            assert(covers(None) =~= Set::<usize>::empty());
                        }
                        return mk_bucket(node.lo, node.hi, node.size, None, node.right);
                    },
                };
                let t2 = mk_bucket(node.lo, node.hi, node.size, lnode.right, node.right);
                let p: Piece = (lnode.lo, lnode.hi, lnode.size, Some(t2));
                rights.push(p);
                cur = a;
                proof {
                    lemma_bucket(cur);
                    assert(rights@ == r0.push(p));
                    assert(rights@.drop_last() =~= r0);
                    assert(pcov(p) =~= covers(Some(c0)).difference(covers(Some(cur)))
                        .intersect(covers(Some(c0)))) by {
                        assert forall|b: usize| pcov(p).contains(b) implies !covers(Some(cur)).contains(b) by {}
                    }
                    assert(punion(lefts@).union(punion(rights@)).union(covers(Some(cur))) =~= s0);
                    lemma_rchain_push(r0, p);
                    if u {
                        lemma_unit(c0);
                        lemma_unit(l);
                        assert forall|i: int| 0 <= i < rights@.len() implies upiece(rights@[i]) by {
                            if i < r0.len() {
                                assert(rights@[i] == r0[i]);
                            }
                        }
                        assert(lefts@ == l0);
                    }
                }
            } else {
                let p: Piece = (node.lo, node.hi, node.size, node.right);
                rights.push(p);
                cur = l;
                proof {
                    assert(rights@ == r0.push(p));
                    assert(rights@.drop_last() =~= r0);
                    assert(punion(lefts@).union(punion(rights@)).union(covers(Some(cur))) =~= s0);
                    lemma_rchain_push(r0, p);
                    if u {
                        lemma_unit(c0);
                        assert forall|i: int| 0 <= i < rights@.len() implies upiece(rights@[i]) by {
                            if i < r0.len() {
                                assert(rights@[i] == r0[i]);
                            }
                        }
                        assert(lefts@ == l0);
                    }
                }
            }
        } else {
            let r = match node.right {
                Some(r) => r,
                None => {
                    proof {
                        assert(covers(None) =~= Set::<usize>::empty());
                    }
                    return mk_bucket(node.lo, node.hi, node.size, node.left, None);
                },
            };
            proof {
                lemma_bucket(r);
            }
            if x > r.hi {
                let rnode = *r;
                let a = match rnode.right {
                    Some(a) => a,
                    None => {
                        proof {
                            assert(covers(None) =~= Set::<usize>::empty());
                        }
                        return mk_bucket(node.lo, node.hi, node.size, node.left, None);
                    },
                };
                let t2 = mk_bucket(node.lo, node.hi, node.size, node.left, rnode.left);
                let p: Piece = (rnode.lo, rnode.hi, rnode.size, Some(t2));
                lefts.push(p);
                cur = a;
                proof {
                    lemma_bucket(cur);
                    assert(lefts@ == l0.push(p));
                    assert(lefts@.drop_last() =~= l0);
                    assert(punion(lefts@).union(punion(rights@)).union(covers(Some(cur))) =~= s0);
                    lemma_lchain_push(l0, p);
                    if u {
                        lemma_unit(c0);
                        lemma_unit(r);
                        assert forall|i: int| 0 <= i < lefts@.len() implies upiece(lefts@[i]) by {
                            if i < l0.len() {
                                assert(lefts@[i] == l0[i]);
                            }
                        }
                        assert(rights@ == r0);
                    }
                }
            } else {
                let p: Piece = (node.lo, node.hi, node.size, node.left);
                lefts.push(p);
                cur = r;
                proof {
                    assert(lefts@ == l0.push(p));
                    assert(lefts@.drop_last() =~= l0);
                    assert(punion(lefts@).union(punion(rights@)).union(covers(Some(cur))) =~= s0);
                    lemma_lchain_push(l0, p);
                    if u {
                        lemma_unit(c0);
                        assert forall|i: int| 0 <= i < lefts@.len() implies upiece(lefts@[i]) by {
                            if i < l0.len() {
                                assert(lefts@[i] == l0[i]);
                            }
                        }
                        assert(rights@ == r0);
                    }
                }
            }
        }
    }
    proof {
        lemma_bucket(cur);
    }
    let ghost lv = lefts@;
    let ghost rv = rights@;
    let node = *cur;
    let lt = assemble_left(lefts, node.left);
    let rt = assemble_right(rights, node.right);
    proof {
        assert forall|b: usize| covers(lt).contains(b) implies b < node.lo by {
            if punion(lv).contains(b) {
                lemma_punion_has(lv, b);
                assert(covers(Some(cur)).contains(node.lo));
            }
        }
        assert forall|b: usize| covers(rt).contains(b) implies b > node.hi by {
            if punion(rv).contains(b) {
                lemma_punion_has(rv, b);
                assert(covers(Some(cur)).contains(node.hi));
            }
        }
    }
    let r = mk_bucket(node.lo, node.hi, node.size, lt, rt);
    proof {
        assert(covers(Some(r)) =~= s0);
    }
    r
}

/// A stamp of a sequence of pieces is a stamp of one of them.
proof fn lemma_punion_has(ps: Seq<Piece>, b: usize)
    requires
        punion(ps).contains(b),
    ensures
        exists|i: int| 0 <= i < ps.len() && #[trigger] pcov(ps[i]).contains(b),
    decreases ps.len(),
{
    if pcov(ps.last()).contains(b) {
        assert(pcov(ps[ps.len() - 1]).contains(b));
    } else {
        lemma_punion_has(ps.drop_last(), b);
        let i = choose|i: int| 0 <= i < ps.drop_last().len() && #[trigger] pcov(ps.drop_last()[i]).contains(b);
        assert(ps.drop_last()[i] == ps[i]);
        assert(pcov(ps[i]).contains(b));
    }
}

/// Pushing a left piece above everything before it keeps the chain.
proof fn lemma_lchain_push(ps: Seq<Piece>, p: Piece)
    requires
        lchain(ps),
        lpiece(p),
        ps.len() > 0 ==> forall|b: usize| pcov(p).contains(b) ==> b > ps.last().1,
    ensures
        lchain(ps.push(p)),
{
    let q = ps.push(p);
    assert(pcov(p).contains(p.1));
    assert forall|i: int, b: usize| 0 <= i < q.len() && #[trigger] pcov(q[i]).contains(b) implies b <= q.last().1 by {
        if i < ps.len() {
            assert(q[i] == ps[i]);
            assert(b <= ps.last().1);
        }
    }
    assert forall|j: int, b: usize| 0 < j < q.len() && #[trigger] pcov(q[j]).contains(b) implies b > q[j - 1].1 by {
        if j < ps.len() {
            assert(q[j] == ps[j]);
            assert(q[j - 1] == ps[j - 1]);
        }
    }
}

/// Pushing a right piece below everything before it keeps the chain.
proof fn lemma_rchain_push(ps: Seq<Piece>, p: Piece)
    requires
        rchain(ps),
        rpiece(p),
        ps.len() > 0 ==> forall|b: usize| pcov(p).contains(b) ==> b < ps.last().0,
    ensures
        rchain(ps.push(p)),
{
    let q = ps.push(p);
    assert(pcov(p).contains(p.0));
    assert forall|i: int, b: usize| 0 <= i < q.len() && #[trigger] pcov(q[i]).contains(b) implies b >= q.last().0 by {
        if i < ps.len() {
            assert(q[i] == ps[i]);
            assert(b >= ps.last().0);
        }
    }
    assert forall|j: int, b: usize| 0 < j < q.len() && #[trigger] pcov(q[j]).contains(b) implies b < q[j - 1].0 by {
        if j < ps.len() {
            assert(q[j] == ps[j]);
            assert(q[j - 1] == ps[j - 1]);
        }
    }
}

/// Whether some range of the tree holds `x`, by search-tree descent.
pub fn covers_stamp(t: &BTree, x: usize) -> (r: bool)
    requires
        bwf(*t),
    ensures
        r == covers(*t).contains(x),
{
    let mut cur: &BTree = t;
    let mut found = false;
    let mut done = false;
    while !done
        invariant
            bwf(*cur),
            bwf(*t),
            found ==> covers(*t).contains(x),
            !done ==> (covers(*t).contains(x) == covers(*cur).contains(x)),
            done && !found ==> !covers(*t).contains(x),
        decreases weight(*cur) + if done { 0nat } else { 1nat },
    {
        match cur {
            None => {
                proof {
                    assert(covers(None) =~= Set::<usize>::empty());
                }
                done = true;
            },
            Some(n) => {
                proof {
                    lemma_bucket(*n);
                }
                if n.lo <= x && x <= n.hi {
                    found = true;
                    done = true;
                } else if x < n.lo {
                    cur = &n.left;
                } else {
                    cur = &n.right;
                }
            },
        }
    }
    found
}

/// The least stamp covered by a non-empty tree: the `lo` of its leftmost bucket.
pub fn min_stamp(t: &Box<Bucket>) -> (r: usize)
    requires
        bwf(Some(*t)),
    ensures
        covers(Some(*t)).contains(r),
        forall|x: usize| covers(Some(*t)).contains(x) ==> r <= x,
{
    let mut cur: &Box<Bucket> = t;
    let mut done = false;
    proof {
        lemma_bucket(*cur);
    }
    while !done
        invariant
            bwf(Some(*cur)),
            forall|y: usize| covers(Some(*cur)).contains(y) ==> covers(Some(*t)).contains(y),
            forall|y: usize| covers(Some(*t)).contains(y) ==> covers(Some(*cur)).contains(y) || y > cur.hi,
            done ==> cur.left is None,
        decreases weight(Some(*cur)) + if done { 0nat } else { 1nat },
    {
        proof {
            lemma_bucket(*cur);
        }
        match &cur.left {
            None => {
                done = true;
            },
            Some(l) => {
                proof {
                    lemma_bucket(*l);
                }
                cur = l;
            },
        }
    }
    proof {
        lemma_bucket(*cur);
        assert(covers(None) =~= Set::<usize>::empty());
    }
    cur.lo
}

/// The greatest stamp covered by a non-empty tree: the `hi` of its rightmost bucket.
pub fn max_stamp(t: &Box<Bucket>) -> (r: usize)
    requires
        bwf(Some(*t)),
    ensures
        covers(Some(*t)).contains(r),
        forall|x: usize| covers(Some(*t)).contains(x) ==> x <= r,
{
    let mut cur: &Box<Bucket> = t;
    let mut done = false;
    proof {
        lemma_bucket(*cur);
    }
    while !done
        invariant
            bwf(Some(*cur)),
            forall|y: usize| covers(Some(*cur)).contains(y) ==> covers(Some(*t)).contains(y),
            forall|y: usize| covers(Some(*t)).contains(y) ==> covers(Some(*cur)).contains(y) || y < cur.lo,
            done ==> cur.right is None,
        decreases weight(Some(*cur)) + if done { 0nat } else { 1nat },
    {
        proof {
            lemma_bucket(*cur);
        }
        match &cur.right {
            None => {
                done = true;
            },
            Some(r) => {
                proof {
                    lemma_bucket(*r);
                }
                cur = r;
            },
        }
    }
    proof {
        lemma_bucket(*cur);
        assert(covers(None) =~= Set::<usize>::empty());
    }
    cur.hi
}

/// A tree that covers nothing is empty.
pub proof fn lemma_uncovered_is_empty(t: BTree)
    requires
        bwf(t),
        forall|x: usize| !covers(t).contains(x),
    ensures
        t is None,
{
    if let Some(n) = t {
        lemma_bucket(n);
    }
}

/// Joins two trees whose ranges are ordered: all of `l` below all of `r`.
pub fn join_buckets(l: BTree, r: BTree) -> (res: BTree)
    requires
        bwf(l),
        bwf(r),
        forall|x: usize, y: usize| covers(l).contains(x) && covers(r).contains(y) ==> x < y,
        weight(l) + weight(r) <= usize::MAX,
    ensures
        bwf(res),
        covers(res) == covers(l).union(covers(r)),
        weight(res) == weight(l) + weight(r),
        unit(l) && unit(r) ==> unit(res),
{
    match r {
        None => {
            proof {
                assert(covers(l).union(covers(None)) =~= covers(l));
            }
            l
        },
        Some(rt) => {
            let m = min_stamp(&rt);
            let s = splay_bucket(rt, m);
            proof {
                lemma_bucket(s);
                assert forall|x: usize| !covers(s.left).contains(x) by {
                    if covers(s.left).contains(x) {
                        assert(covers(Some(s)).contains(x));
                    }
                }
                lemma_uncovered_is_empty(s.left);
                assert(covers(None) =~= Set::<usize>::empty());
            }
            let node = *s;
            let res = mk_bucket(node.lo, node.hi, node.size, l, node.right);
            proof {
                assert(covers(Some(res)) =~= covers(l).union(covers(Some(rt))));
            }
            Some(res)
        },
    }
}

/// The weight of the first subtree on the left spine of `t` (`t`, then its left child,
/// and so on) that weighs at most `budget`, if there is one.
pub open spec fn spine_cut(t: BTree, budget: usize) -> Option<nat>
    decreases t,
{
    match t {
        None => None,
        Some(n) => if weight(t) <= budget {
            Some(weight(t))
        } else {
            spine_cut(n.left, budget)
        },
    }
}

/// Whether some subtree on the left spine of `t` weighs at most `budget`.
pub fn spine_fits(t: &BTree, budget: usize) -> (r: bool)
    requires
        bwf(*t),
    ensures
        r == spine_cut(*t, budget) is Some,
{
    let mut cur: &BTree = t;
    let mut done = false;
    let mut found = false;
    while !done
        invariant
            bwf(*cur),
            !done ==> spine_cut(*t, budget) == spine_cut(*cur, budget),
            found ==> spine_cut(*t, budget) is Some,
            done && !found ==> spine_cut(*t, budget) is None,
        decreases weight(*cur) + if done { 0nat } else { 1nat },
    {
        match cur {
            None => {
                proof {
                    assert(spine_cut(None, budget) is None);
                }
                done = true;
            },
            Some(n) => {
                proof {
                    lemma_bucket(*n);
                }
                proof {
                    assert(spine_cut(Some(*n), budget) == if weight(Some(*n)) <= budget {
                        Some(weight(Some(*n)))
                    } else {
                        spine_cut(n.left, budget)
                    });
                }
                if n.weight <= budget {
                    found = true;
                    done = true;
                } else {
                    cur = &n.left;
                }
            },
        }
    }
    found
}

/// Whether `t` is a non-empty tree heavier than `budget`.
fn heavier(t: &BTree, budget: usize) -> (r: bool)
    requires
        bwf(*t),
    ensures
        r == (t is Some && weight(*t) > budget),
{
    match t {
        None => false,
        Some(n) => n.weight > budget,
    }
}

/// Cuts from `t` the block of buckets that lie first in stamp order, down its left
/// spine: the first subtree met whose weight is at most `budget`. Returns what is left,
/// and the greatest stamp and the weight of the block cut, if any.
pub fn cut_front(t: BTree, budget: usize) -> (r: (BTree, Option<(usize, usize)>))
    requires
        bwf(t),
    ensures
        bwf(r.0),
        forall|x: usize| #[trigger] covers(r.0).contains(x) ==> covers(t).contains(x),
        (r.1 is None) == (spine_cut(t, budget) is None),
        r.1 matches Some((mhi, mw)) ==> spine_cut(t, budget) == Some(mw as nat),
        match r.1 {
            None => covers(r.0) == covers(t) && weight(r.0) == weight(t),
            Some((mhi, mw)) => {
                &&& 1 <= mw <= budget
                &&& weight(r.0) + mw == weight(t)
                &&& covers(t).contains(mhi)
                &&& forall|x: usize| covers(r.0).contains(x) ==> x > mhi
                &&& forall|x: usize| covers(t).contains(x) && !covers(r.0).contains(x) ==> x <= mhi
            },
        },
{
    let ghost s0 = covers(t);
    let ghost w0 = weight(t);
    let mut spine: Vec<Piece> = Vec::new();
    let mut cur: BTree = t;
    let mut go = heavier(&cur, budget);
    proof {
        assert(punion(spine@) =~= Set::<usize>::empty());
        assert(punion(spine@).union(covers(cur)) =~= s0);
    }
    while go
        invariant
            bwf(cur),
            rchain(spine@),
            go == (cur is Some && weight(cur) > budget),
            spine@.len() > 0 ==> forall|b: usize| covers(cur).contains(b) ==> b < spine@.last().0,
            punion(spine@).union(covers(cur)) == s0,
            pweight(spine@) + weight(cur) == w0,
            w0 <= usize::MAX,
            spine_cut(t, budget) == spine_cut(cur, budget),
        decreases weight(cur),
    {
        let ghost sp0 = spine@;
        let n = match cur {
            Some(n) => n,
            None => {
                return (None, None);
            },
        };
        proof {
            lemma_bucket(n);
        }
        let node = *n;
        let p: Piece = (node.lo, node.hi, node.size, node.right);
        spine.push(p);
        cur = node.left;
        proof {
            assert(spine@ == sp0.push(p));
            assert(spine@.drop_last() =~= sp0);
            assert(punion(spine@).union(covers(cur)) =~= s0);
            lemma_rchain_push(sp0, p);
        }
        go = heavier(&cur, budget);
    }
    let ghost sv = spine@;
    proof {
        assert(covers(None) =~= Set::<usize>::empty());
        assert(punion(sv).union(covers(None)) =~= punion(sv));
    }
    match cur {
        None => {
            let rest = assemble_right(spine, None);
            (rest, None)
        },
        Some(c) => {
            proof {
                lemma_bucket(c);
            }
            let mhi = max_stamp(&c);
            let mw = c.weight;
            let rest = assemble_right(spine, None);
            proof {
                assert forall|x: usize| covers(rest).contains(x) implies x > mhi by {
                    lemma_punion_has(sv, x);
                    assert(covers(Some(c)).contains(mhi));
                }
            }
            (rest, Some((mhi, mw)))
        },
    }
}

/// The number of buckets of a tree.
pub open spec fn node_total(t: BTree) -> nat
    decreases t,
{
    match t {
        None => 0,
        Some(n) => 1 + node_total(n.left) + node_total(n.right),
    }
}

/// The sum, over the buckets of a tree, of the sizes of their left subtrees.
pub open spec fn left_load(t: BTree) -> nat
    decreases t,
{
    match t {
        None => 0,
        Some(n) => node_total(n.left) + left_load(n.left) + left_load(n.right),
    }
}

/// Frees a tree one bucket at a time, rotating left children up until the top bucket
/// has none, so that no chain of nested frees runs deep.
pub fn dismantle(t: BTree)
    opens_invariants none
    no_unwind
{
    let mut cur = t;
    let mut more = match &cur {
        Some(_) => true,
        None => false,
    };
    while more
        invariant
            more == (cur is Some),
        decreases node_total(cur) + left_load(cur),
    {
        let ghost before = cur;
        let mut hold: BTree = None;
        core::mem::swap(&mut hold, &mut cur);
        match hold {
            Some(mut n) => {
                let ghost n0 = n;
                let mut l: BTree = None;
                core::mem::swap(&mut l, &mut n.left);
                match l {
                    Some(mut lb) => {
                        let ghost l0 = lb;
                        let mut b: BTree = None;
                        core::mem::swap(&mut b, &mut lb.right);
                        core::mem::swap(&mut n.left, &mut b);
                        let mut top: BTree = Some(n);
                        core::mem::swap(&mut lb.right, &mut top);
                        let mut up: BTree = Some(lb);
                        core::mem::swap(&mut cur, &mut up);
                        proof {
                            let a = l0.left;
                            let bb = l0.right;
                            let c = n0.right;
                            assert(node_total(before) == 2 + node_total(a) + node_total(bb) + node_total(c));
                            assert(left_load(Some(l0)) == node_total(a) + left_load(a) + left_load(bb));
                            assert(left_load(before) == node_total(Some(l0)) + left_load(Some(l0)) + left_load(c));
                            assert(left_load(lb.right) == node_total(bb) + left_load(bb) + left_load(c));
                            assert(node_total(lb.right) == 1 + node_total(bb) + node_total(c));
                            assert(left_load(cur) == node_total(a) + left_load(a) + left_load(lb.right));
                            assert(node_total(cur) == 1 + node_total(a) + node_total(lb.right));
                        }
                    },
                    None => {
                        let mut r: BTree = None;
                        core::mem::swap(&mut r, &mut n.right);
                        core::mem::swap(&mut cur, &mut r);
                        proof {
                            assert(node_total(before) == 1 + node_total(n0.right));
                            assert(left_load(before) == left_load(n0.right));
                        }
                    },
                }
            },
            None => {},
        }
        more = match &cur {
            Some(_) => true,
            None => false,
        };
    }
}

} // verus!
