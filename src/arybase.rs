use vstd::prelude::*;
use crate::ast::{Node, Stmt};

verus! {

/// An entry of the base table: array name, base offset, element count.
pub type BaseEntry = (Seq<char>, nat, nat);

/// The number of elements of an array with dimensions `d`.
pub open spec fn elem_count(d: Seq<usize>) -> nat
    decreases d.len(),
{
    if d.len() == 0 {
        1
    } else {
        elem_count(d.drop_last()) * (d.last() as nat)
    }
}

/// Whether the table already holds array `name`.
pub open spec fn has_name(tbl: Seq<BaseEntry>, name: Seq<char>) -> bool {
    exists|i: int| 0 <= i < tbl.len() && tbl[i].0 == name
}

/// The table and next free offset after the references of `n` in pre-order, starting
/// from table `tbl` and offset `cur`: an array seen for the first time gets `cur` as
/// its base, and `cur` moves past its elements.
pub open spec fn assign_node(n: Node, tbl: Seq<BaseEntry>, cur: nat) -> (Seq<BaseEntry>, nat)
    decreases n, 1int, 0int,
{
    match n.stmt {
        Stmt::Ref(r) => if has_name(tbl, r.name@) {
            (tbl, cur)
        } else {
            (tbl.push((r.name@, cur, elem_count(r.dim@))), cur + elem_count(r.dim@))
        },
        Stmt::Loop(l) => assign_list(l.body, l.body@.len() as int, tbl, cur),
        Stmt::Block(v) => assign_list(v, v@.len() as int, tbl, cur),
        Stmt::Branch(b) => {
            let t = assign_node(*b.then_body, tbl, cur);
            match b.else_body {
                Some(e) => assign_node(*e, t.0, t.1),
                None => t,
            }
        },
    }
}

/// The same over the first `j` trees of `v`.
pub open spec fn assign_list(v: Vec<Node>, j: int, tbl: Seq<BaseEntry>, cur: nat) -> (Seq<BaseEntry>, nat)
    decreases v, 0int, j,
{
    if j <= 0 || j > v@.len() {
        (tbl, cur)
    } else {
        let t = assign_list(v, j - 1, tbl, cur);
        assign_node(v@[j - 1], t.0, t.1)
    }
}

/// The table of a whole tree, starting empty at offset 0.
pub open spec fn bases_of(n: Node) -> (Seq<BaseEntry>, nat) {
    assign_node(n, Seq::empty(), 0)
}

/// Entries in order of increasing base, ranges not overlapping and below `cur`,
/// names distinct.
pub open spec fn table_ok(tbl: Seq<BaseEntry>, cur: nat) -> bool {
    &&& forall|i: int, j: int| 0 <= i < j < tbl.len() ==> tbl[i].1 + tbl[i].2 <= tbl[j].1
    &&& forall|i: int| 0 <= i < tbl.len() ==> tbl[i].1 + tbl[i].2 <= cur
    &&& forall|i: int, j: int| 0 <= i < j < tbl.len() ==> tbl[i].0 != tbl[j].0
}

/// Assignment keeps the table well ordered, only appends, and never moves `cur` back.
pub proof fn lemma_assign_ok(n: Node, tbl: Seq<BaseEntry>, cur: nat)
    requires
        table_ok(tbl, cur),
    ensures
        table_ok(assign_node(n, tbl, cur).0, assign_node(n, tbl, cur).1),
        assign_node(n, tbl, cur).1 >= cur,
        tbl.is_prefix_of(assign_node(n, tbl, cur).0),
    decreases n, 1int, 0int,
{
    match n.stmt {
        Stmt::Ref(r) => {
            if !has_name(tbl, r.name@) {
                let t2 = tbl.push((r.name@, cur, elem_count(r.dim@)));
                assert(tbl.is_prefix_of(t2)) by {
                    assert(t2.subrange(0, tbl.len() as int) =~= tbl);
                }
                assert forall|i: int, j: int| 0 <= i < j < t2.len() implies t2[i].0 != t2[j].0 by {
                    if j == tbl.len() {
                        assert(tbl[i].0 != r.name@);
                    }
                }
            } else {
                assert(tbl.is_prefix_of(tbl)) by {
                    assert(tbl.subrange(0, tbl.len() as int) =~= tbl);
                }
            }
        },
        Stmt::Loop(l) => {
            lemma_assign_list_ok(l.body, l.body@.len() as int, tbl, cur);
        },
        Stmt::Block(v) => {
            lemma_assign_list_ok(v, v@.len() as int, tbl, cur);
        },
        Stmt::Branch(b) => {
            lemma_assign_ok(*b.then_body, tbl, cur);
            let t = assign_node(*b.then_body, tbl, cur);
            match b.else_body {
                Some(e) => {
                    lemma_assign_ok(*e, t.0, t.1);
                    let t2 = assign_node(*e, t.0, t.1);
                    lemma_prefix_trans(tbl, t.0, t2.0);
                },
                None => {},
            }
        },
    }
}

pub proof fn lemma_assign_list_ok(v: Vec<Node>, j: int, tbl: Seq<BaseEntry>, cur: nat)
    requires
        table_ok(tbl, cur),
    ensures
        table_ok(assign_list(v, j, tbl, cur).0, assign_list(v, j, tbl, cur).1),
        assign_list(v, j, tbl, cur).1 >= cur,
        tbl.is_prefix_of(assign_list(v, j, tbl, cur).0),
    decreases v, 0int, j,
{
    if j <= 0 || j > v@.len() {
        assert(tbl.subrange(0, tbl.len() as int) =~= tbl);
    } else {
        lemma_assign_list_ok(v, j - 1, tbl, cur);
        let t = assign_list(v, j - 1, tbl, cur);
        assert(decreases_to!(v => v@[j - 1]));
        lemma_assign_ok(v@[j - 1], t.0, t.1);
        lemma_prefix_trans(tbl, t.0, assign_node(v@[j - 1], t.0, t.1).0);
    }
}

proof fn lemma_prefix_trans(a: Seq<BaseEntry>, b: Seq<BaseEntry>, c: Seq<BaseEntry>)
    requires
        a.is_prefix_of(b),
        b.is_prefix_of(c),
    ensures
        a.is_prefix_of(c),
{
    assert forall|i: int| 0 <= i < a.len() implies a[i] == c[i] by {
        assert(a[i] == b.subrange(0, a.len() as int)[i]);
        assert(b[i] == c.subrange(0, b.len() as int)[i]);
    }
    assert(c.subrange(0, a.len() as int) =~= a);
}

/// Address-space disjointness: the ranges `[base, base + size)` that assignment gives
/// to two different arrays of a tree never overlap, and all lie below the total size.
pub proof fn lemma_bases_disjoint(n: Node)
    ensures
        ({
            let (tbl, total) = bases_of(n);
            &&& forall|i: int, j: int|
                0 <= i < tbl.len() && 0 <= j < tbl.len() && i != j ==> tbl[i].0 != tbl[j].0 && (
                tbl[i].1 + tbl[i].2 <= tbl[j].1 || tbl[j].1 + tbl[j].2 <= tbl[i].1)
            &&& forall|i: int| 0 <= i < tbl.len() ==> tbl[i].1 + tbl[i].2 <= total
        }),
{
    lemma_assign_ok(n, Seq::empty(), 0);
    let (tbl, total) = bases_of(n);
    assert forall|i: int, j: int| 0 <= i < tbl.len() && 0 <= j < tbl.len() && i != j
        implies tbl[i].0 != tbl[j].0 && (tbl[i].1 + tbl[i].2 <= tbl[j].1 || tbl[j].1 + tbl[j].2 <= tbl[i].1) by {
        if i < j {
        } else {
        }
    }
}

/// The table of a base table held as `(name, base, size)` triples.
pub open spec fn table_view(t: Seq<(String, usize, usize)>) -> Seq<BaseEntry> {
    t.map_values(|e: (String, usize, usize)| (e.0@, e.1 as nat, e.2 as nat))
}

/// Assignment never moves the next free offset back.
pub proof fn lemma_assign_mono(n: Node, tbl: Seq<BaseEntry>, cur: nat)
    ensures
        assign_node(n, tbl, cur).1 >= cur,
    decreases n, 1int, 0int,
{
    match n.stmt {
        Stmt::Ref(r) => {},
        Stmt::Loop(l) => lemma_assign_list_mono(l.body, l.body@.len() as int, 0, tbl, cur),
        Stmt::Block(v) => lemma_assign_list_mono(v, v@.len() as int, 0, tbl, cur),
        Stmt::Branch(b) => {
            lemma_assign_mono(*b.then_body, tbl, cur);
            let t = assign_node(*b.then_body, tbl, cur);
            match b.else_body {
                Some(e) => lemma_assign_mono(*e, t.0, t.1),
                None => {},
            }
        },
    }
}

/// Over a list, more trees never move the next free offset back.
pub proof fn lemma_assign_list_mono(v: Vec<Node>, k: int, j: int, tbl: Seq<BaseEntry>, cur: nat)
    requires
        0 <= j <= k <= v@.len(),
    ensures
        assign_list(v, k, tbl, cur).1 >= assign_list(v, j, tbl, cur).1,
        assign_list(v, k, tbl, cur).1 >= cur,
    decreases v, 0int, k,
{
    if k <= 0 || k > v@.len() {
    } else {
        lemma_assign_list_mono(v, k - 1, if j == k { k - 1 } else { j }, tbl, cur);
        let t = assign_list(v, k - 1, tbl, cur);
        assert(decreases_to!(v => v@[k - 1]));
        lemma_assign_mono(v@[k - 1], t.0, t.1);
    }
}

/// A branch ends no lower than its `then` part.
proof fn lemma_branch_mono(n: Node, tbl: Seq<BaseEntry>, cur: nat)
    requires
        n.stmt is Branch,
    ensures
        n.stmt matches Stmt::Branch(b) && assign_node(n, tbl, cur).1 >= assign_node(*b.then_body, tbl, cur).1,
{
    if let Stmt::Branch(b) = n.stmt {
        let t = assign_node(*b.then_body, tbl, cur);
        if let Some(e) = b.else_body {
            lemma_assign_mono(*e, t.0, t.1);
        }
    }
}

/// The number of elements of an array with dimensions `dim`, if it fits a `usize`.
fn ary_size(dim: &Vec<usize>) -> (r: Option<usize>)
    ensures
        match r {
            Some(c) => c == elem_count(dim@),
            None => elem_count(dim@) > usize::MAX,
        },
{
    let n = dim.len();
    let mut i: usize = 0;
    while i < n
        invariant
            n == dim@.len(),
            i <= n,
            forall|k: int| 0 <= k < i ==> dim@[k] != 0,
        decreases n - i,
    {
        if dim[i] == 0 {
            proof {
                lemma_elem_count_zero(dim@, i as int, n as int);
            }
            return Some(0);
        }
        i = i + 1;
    }
    let mut acc: usize = 1;
    i = 0;
    while i < n
        invariant
            n == dim@.len(),
            i <= n,
            acc == elem_count(dim@.take(i as int)),
            forall|k: int| 0 <= k < n ==> dim@[k] != 0,
        decreases n - i,
    {
        assert(dim@.take(i + 1).drop_last() =~= dim@.take(i as int));
        match acc.checked_mul(dim[i]) {
            Some(c) => {
                acc = c;
            },
            None => {
                proof {
                    lemma_elem_count_grows(dim@, i as int + 1, n as int);
                }
                return None;
            },
        }
        i = i + 1;
    }
    assert(dim@.take(n as int) =~= dim@);
    Some(acc)
}

/// A zero dimension empties the array.
proof fn lemma_elem_count_zero(d: Seq<usize>, z: int, n: int)
    requires
        0 <= z < n,
        n == d.len(),
        d[z] == 0,
    ensures
        elem_count(d) == 0,
    decreases n,
{
    if z < n - 1 {
        assert(d.drop_last()[z] == 0);
        lemma_elem_count_zero(d.drop_last(), z, n - 1);
    } else {
        assert(d.last() == 0);
    }
    assert(elem_count(d) == elem_count(d.drop_last()) * (d.last() as nat));
}

/// Without zero dimensions, a product that has passed `usize::MAX` stays above it.
proof fn lemma_elem_count_grows(d: Seq<usize>, i: int, n: int)
    requires
        0 < i <= n,
        n == d.len(),
        elem_count(d.take(i)) > usize::MAX,
        forall|k: int| 0 <= k < n ==> d[k] != 0,
    ensures
        elem_count(d) > usize::MAX,
    decreases n - i,
{
    if i == n {
        assert(d.take(n) =~= d);
    } else {
        assert(d.take(i + 1).drop_last() =~= d.take(i));
        assert(elem_count(d.take(i)) * (d[i] as nat) >= elem_count(d.take(i))) by (nonlinear_arith)
            requires d[i] as nat >= 1;
        lemma_elem_count_grows(d, i + 1, n);
    }
}

/// Whether the table holds array `name`, by linear search.
fn find_name(tbl: &Vec<(String, usize, usize)>, name: &String) -> (r: bool)
    ensures
        r == has_name(table_view(tbl@), name@),
{
    let n = tbl.len();
    let mut i: usize = 0;
    while i < n
        invariant
            n == tbl@.len(),
            i <= n,
            forall|k: int| 0 <= k < i ==> tbl@[k].0@ != name@,
        decreases n - i,
    {
        if tbl[i].0 == *name {
            proof {
                assert(table_view(tbl@)[i as int].0 == name@);
            }
            return true;
        }
        i = i + 1;
    }
    proof {
        assert forall|k: int| 0 <= k < table_view(tbl@).len() implies table_view(tbl@)[k].0 != name@ by {
            assert(table_view(tbl@)[k].0 == tbl@[k].0@);
        }
    }
    false
}

/// Assigns bases to the arrays of `n`, appending to `tbl`; returns the next free offset,
/// or `None` where an offset would pass `usize::MAX`.
fn assign_rec(n: &Node, tbl: &mut Vec<(String, usize, usize)>, cur: usize) -> (r: Option<usize>)
    ensures
        match r {
            Some(c) => {
                &&& c == assign_node(*n, table_view(old(tbl)@), cur as nat).1
                &&& table_view(final(tbl)@) == assign_node(*n, table_view(old(tbl)@), cur as nat).0
            },
            None => assign_node(*n, table_view(old(tbl)@), cur as nat).1 > usize::MAX,
        },
    decreases *n, 1int,
{
    match &n.stmt {
        Stmt::Ref(r) => {
            if find_name(tbl, &r.name) {
                Some(cur)
            } else {
                match ary_size(&r.dim) {
                    Some(sz) => match cur.checked_add(sz) {
                        Some(next) => {
                            let ghost t0 = tbl@;
                            tbl.push((r.name.clone(), cur, sz));
                            proof {
                                assert(table_view(tbl@) =~= table_view(t0).push((r.name@, cur as nat, elem_count(r.dim@))));
                            }
                            Some(next)
                        },
                        None => None,
                    },
                    None => None,
                }
            }
        },
        Stmt::Loop(l) => assign_children(&l.body, tbl, cur),
        Stmt::Block(v) => assign_children(v, tbl, cur),
        Stmt::Branch(b) => {
            let ghost t0 = table_view(tbl@);
            match assign_rec(&b.then_body, tbl, cur) {
                Some(c) => match &b.else_body {
                    Some(e) => assign_rec(e, tbl, c),
                    None => Some(c),
                },
                None => {
                    proof {
                        lemma_branch_mono(*n, t0, cur as nat);
                    }
                    None
                },
            }
        },
    }
}

/// The same over the trees of `v`, in order.
fn assign_children(v: &Vec<Node>, tbl: &mut Vec<(String, usize, usize)>, cur: usize) -> (r: Option<usize>)
    ensures
        match r {
            Some(c) => {
                &&& c == assign_list(*v, v@.len() as int, table_view(old(tbl)@), cur as nat).1
                &&& table_view(final(tbl)@) == assign_list(*v, v@.len() as int, table_view(old(tbl)@), cur as nat).0
            },
            None => assign_list(*v, v@.len() as int, table_view(old(tbl)@), cur as nat).1 > usize::MAX,
        },
    decreases *v, 0int,
{
    let ghost t0 = table_view(tbl@);
    let n = v.len();
    let mut i: usize = 0;
    let mut c = cur;
    while i < n
        invariant
            t0 == table_view(old(tbl)@),
            n == v@.len(),
            i <= n,
            c == assign_list(*v, i as int, t0, cur as nat).1,
            table_view(tbl@) == assign_list(*v, i as int, t0, cur as nat).0,
        decreases n - i,
    {
        assert(decreases_to!(*v => v@[i as int]));
        match assign_rec(&v[i], tbl, c) {
            Some(c2) => {
                c = c2;
            },
            None => {
                proof {
                    lemma_assign_list_mono(*v, n as int, i + 1, t0, cur as nat);
                }
                return None;
            },
        }
        i = i + 1;
    }
    Some(c)
}

/// Address assignment: gives each distinct array name, in pre-order of first reference,
/// the running total as its base and moves the total past its elements. Returns the
/// `(name, base, size)` table and the total size, or `None` where the total would pass
/// `usize::MAX`.
pub fn set_arybase(aloop: &Node) -> (r: Option<(Vec<(String, usize, usize)>, usize)>)
    ensures
        match r {
            Some((t, c)) => table_view(t@) == bases_of(*aloop).0 && c == bases_of(*aloop).1,
            None => bases_of(*aloop).1 > usize::MAX,
        },
{
    let mut tbl: Vec<(String, usize, usize)> = Vec::new();
    proof {
        assert(table_view(tbl@) =~= Seq::<BaseEntry>::empty());
    }
    match assign_rec(aloop, &mut tbl, 0) {
        Some(c) => Some((tbl, c)),
        None => None,
    }
}

} // verus!
