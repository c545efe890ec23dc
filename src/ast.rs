use vstd::prelude::*;

verus! {

/// An affine expression over the iteration vector: `constant + Σ coeff * iv[var]`
/// for each `(var, coeff)` of `terms`.
#[derive(Clone, Debug)]
pub struct Affine {
    pub constant: i64,
    pub terms: Vec<(usize, i32)>,
}

/// The value of the terms from index `k` on, or `None` where one reads past the
/// iteration vector.
pub open spec fn terms_value(t: Seq<(usize, i32)>, iv: Seq<i32>, k: int) -> Option<int>
    decreases t.len() - k,
{
    if k < 0 || k >= t.len() {
        Some(0)
    } else if t[k].0 >= iv.len() {
        None
    } else {
        match terms_value(t, iv, k + 1) {
            Some(rest) => Some(t[k].1 * iv[t[k].0 as int] + rest),
            None => None,
        }
    }
}

/// The value of `a` at the iteration vector `iv`.
pub open spec fn affine_value(a: Affine, iv: Seq<i32>) -> Option<int> {
    match terms_value(a.terms@, iv, 0) {
        Some(s) => Some(a.constant + s),
        None => None,
    }
}

proof fn lemma_terms_bound(t: Seq<(usize, i32)>, iv: Seq<i32>, k: int)
    requires
        0 <= k <= t.len(),
        terms_value(t, iv, k) is Some,
    ensures
        -(t.len() - k) * 0x4000_0000_0000_0000 <= terms_value(t, iv, k).unwrap(),
        terms_value(t, iv, k).unwrap() <= (t.len() - k) * 0x4000_0000_0000_0000,
    decreases t.len() - k,
{
    if k < t.len() {
        lemma_terms_bound(t, iv, k + 1);
        let c = t[k].1 as int;
        let v = iv[t[k].0 as int] as int;
        assert(-0x4000_0000_0000_0000 <= c * v <= 0x4000_0000_0000_0000) by (nonlinear_arith)
            requires
                -0x8000_0000 <= c <= 0x7fff_ffff,
                -0x8000_0000 <= v <= 0x7fff_ffff,
        ;
    }
}

proof fn lemma_none_propagates(t: Seq<(usize, i32)>, iv: Seq<i32>, j: int)
    requires
        0 <= j < t.len(),
        terms_value(t, iv, j) is None,
    ensures
        terms_value(t, iv, 0) is None,
    decreases j,
{
    if j > 0 {
        lemma_none_propagates(t, iv, j - 1);
    }
}

impl Affine {
    /// The constant `c`.
    pub fn constant(c: i64) -> (r: Affine)
        ensures
            forall|iv: Seq<i32>| affine_value(r, iv) == Some(c as int),
    {
        let r = Affine { constant: c, terms: Vec::new() };
        assert forall|iv: Seq<i32>| affine_value(r, iv) == Some(c as int) by {
            assert(terms_value(r.terms@, iv, 0) == Some(0int));
        }
        r
    }

    /// `coeff * iv[var] + c`.
    pub fn var(var: usize, coeff: i32, c: i64) -> (r: Affine)
        ensures
            forall|iv: Seq<i32>| var < iv.len() ==> affine_value(r, iv) == Some(coeff * iv[var as int] + c),
            forall|iv: Seq<i32>| var >= iv.len() ==> affine_value(r, iv) is None,
    {
        let r = Affine { constant: c, terms: vec![(var, coeff)] };
        assert forall|iv: Seq<i32>| var < iv.len() implies affine_value(r, iv) == Some(coeff * iv[var as int] + c) by {
            assert(terms_value(r.terms@, iv, 1) == Some(0int));
        }
        assert forall|iv: Seq<i32>| var >= iv.len() implies affine_value(r, iv) is None by {
            assert(terms_value(r.terms@, iv, 0) is None);
        }
        r
    }

    /// The value at `iv`, or `None` where a term reads past the iteration vector.
    pub fn eval(&self, iv: &Vec<i32>) -> (r: Option<i128>)
        ensures
            match affine_value(*self, iv@) {
                Some(v) => r == Some(v as i128) && i128::MIN <= v <= i128::MAX,
                None => r is None,
            },
    {
        let n = self.terms.len();
        let mut k: usize = n;
        let mut acc: i128 = 0;
        while k > 0
            invariant
                k <= n,
                n == self.terms@.len(),
                terms_value(self.terms@, iv@, k as int) is Some,
                acc == terms_value(self.terms@, iv@, k as int).unwrap(),
            decreases k,
        {
            let (var, coeff) = self.terms[k - 1];
            if var >= iv.len() {
                proof {
                    lemma_none_propagates(self.terms@, iv@, k - 1);
                }
                return None;
            }
            proof {
                lemma_terms_bound(self.terms@, iv@, k as int);
                assert(n <= usize::MAX);
            }
            let x = iv[var];
            assert(-0x4000_0000_0000_0000 <= coeff as int * x as int <= 0x4000_0000_0000_0000)
                by (nonlinear_arith)
                requires
                    -0x8000_0000 <= coeff <= 0x7fff_ffff,
                    -0x8000_0000 <= x <= 0x7fff_ffff,
            ;
            let p = (coeff as i128) * (x as i128);
            proof {
                let w = (n - k) * 0x4000_0000_0000_0000;
                assert(w <= 0x1_0000_0000_0000_0000 * 0x4000_0000_0000_0000) by (nonlinear_arith)
                    requires w == (n - k) * 0x4000_0000_0000_0000, n - k <= 0x1_0000_0000_0000_0000, 0 <= n - k;
                assert(-w <= acc <= w);
                assert(-0x4000_0000_0000_0000_0000_0000_0000_0000 <= acc <= 0x4000_0000_0000_0000_0000_0000_0000_0000);
            }
            acc = p + acc;
            k = k - 1;
        }
        proof {
            lemma_terms_bound(self.terms@, iv@, 0);
            assert(n * 0x4000_0000_0000_0000 <= 0x1_0000_0000_0000_0000 * 0x4000_0000_0000_0000) by (nonlinear_arith)
                requires n <= 0x1_0000_0000_0000_0000, 0 <= n;
        }
        Some(self.constant as i128 + acc)
    }
}

/// A predicate over the iteration vector, for a branch.
#[derive(Debug)]
pub enum Cond {
    /// `a < b`
    Less(Affine, Affine),
    /// `a` is even.
    Even(Affine),
    And(Box<Cond>, Box<Cond>),
    Not(Box<Cond>),
}

/// The truth of `c` at `iv`, or `None` where it reads past the iteration vector.
pub open spec fn cond_value(c: Cond, iv: Seq<i32>) -> Option<bool>
    decreases c,
{
    match c {
        Cond::Less(a, b) => match (affine_value(a, iv), affine_value(b, iv)) {
            (Some(x), Some(y)) => Some(x < y),
            _ => None,
        },
        Cond::Even(a) => match affine_value(a, iv) {
            Some(x) => Some(x % 2 == 0),
            None => None,
        },
        Cond::And(p, q) => match (cond_value(*p, iv), cond_value(*q, iv)) {
            (Some(x), Some(y)) => Some(x && y),
            _ => None,
        },
        Cond::Not(p) => match cond_value(*p, iv) {
            Some(x) => Some(!x),
            None => None,
        },
    }
}

impl Cond {
    /// Evaluates the predicate at `iv`.
    pub fn holds(&self, iv: &Vec<i32>) -> (r: Option<bool>)
        ensures
            r == cond_value(*self, iv@),
        decreases self,
    {
        match self {
            Cond::Less(a, b) => match (a.eval(iv), b.eval(iv)) {
                (Some(x), Some(y)) => Some(x < y),
                _ => None,
            },
            Cond::Even(a) => match a.eval(iv) {
                Some(x) => Some(x % 2 == 0),
                None => None,
            },
            Cond::And(p, q) => match (p.holds(iv), q.holds(iv)) {
                (Some(x), Some(y)) => Some(x && y),
                _ => None,
            },
            Cond::Not(p) => match p.holds(iv) {
                Some(x) => Some(!x),
                None => None,
            },
        }
    }
}

/// A loop bound: a constant, or an affine function of the enclosing loop indices.
#[derive(Debug)]
pub enum LoopBound {
    Fixed(i32),
    Dynamic(Affine),
}

/// The value of a bound at `iv`, if it reads only indices in scope and fits an `i32`.
pub open spec fn bound_value(b: LoopBound, iv: Seq<i32>) -> Option<i32> {
    match b {
        LoopBound::Fixed(x) => Some(x),
        LoopBound::Dynamic(a) => match affine_value(a, iv) {
            Some(v) => if i32::MIN <= v <= i32::MAX {
                Some(v as i32)
            } else {
                None
            },
            None => None,
        },
    }
}

impl LoopBound {
    /// Resolves the bound at `iv`.
    pub fn resolve(&self, iv: &Vec<i32>) -> (r: Option<i32>)
        ensures
            r == bound_value(*self, iv@),
    {
        match self {
            LoopBound::Fixed(x) => Some(*x),
            LoopBound::Dynamic(a) => match a.eval(iv) {
                Some(v) => if i32::MIN as i128 <= v && v <= i32::MAX as i128 {
                    Some(v as i32)
                } else {
                    None
                },
                None => None,
            },
        }
    }
}

/// An array reference: the array's name, its dimension sizes, and one subscript
/// expression per dimension.
#[derive(Debug)]
pub struct AryRef {
    pub name: String,
    /// array dimensions, e.g. [5, 5]
    pub dim: Vec<usize>,
    pub sub: Vec<Affine>,
}

/// A single loop over `[lb, ub)` with step 1.
#[derive(Debug)]
pub struct LoopStmt {
    pub iv: String,
    pub lb: LoopBound,
    pub ub: LoopBound,
    pub body: Vec<Node>,
}

/// A conditional: `then_body` where `cond` holds, else `else_body` if there is one.
#[derive(Debug)]
pub struct BranchStmt {
    pub cond: Cond,
    pub then_body: Box<Node>,
    pub else_body: Option<Box<Node>>,
}

/// Statements in the loop tree.
#[derive(Debug)]
pub enum Stmt {
    /// A single loop
    Loop(LoopStmt),
    /// An array reference
    Ref(AryRef),
    /// Statements run one after another under the same indices
    Block(Vec<Node>),
    Branch(BranchStmt),
}

/// Each loop and statement is a node in a loop tree.
#[derive(Debug)]
pub struct Node {
    pub stmt: Stmt,
}

/// A loop-tree node, under the name the loop-tree builders also use.
pub type LoopTNode = Node;

/// The number of nodes of a tree.
pub open spec fn count_nodes(n: Node) -> nat
    decreases n, 1int,
{
    match n.stmt {
        Stmt::Loop(l) => 1 + count_list(l.body, 0),
        Stmt::Ref(_) => 1,
        Stmt::Block(v) => 1 + count_list(v, 0),
        Stmt::Branch(b) => 1 + count_nodes(*b.then_body) + match b.else_body {
            Some(e) => count_nodes(*e),
            None => 0,
        },
    }
}

/// The number of nodes of the trees `v[i..]`.
pub open spec fn count_list(v: Vec<Node>, i: int) -> nat
    decreases v, 0int, v@.len() - i,
{
    if 0 <= i < v@.len() {
        count_nodes(v@[i]) + count_list(v, i + 1)
    } else {
        0
    }
}

impl Node {
    /// Create a new Node with a given statement.
    pub fn new_node(a_stmt: Stmt) -> (r: Node)
        ensures
            r.stmt == a_stmt,
    {
        Node { stmt: a_stmt }
    }

    /// A reference to array `ary_nm` of dimensions `ary_dim`, subscripted by `ary_sub`.
    pub fn new_ref(ary_nm: &str, ary_dim: Vec<usize>, ary_sub: Vec<Affine>) -> (r: Node)
        ensures
            r.stmt matches Stmt::Ref(a) && a.name@ == ary_nm@ && a.dim == ary_dim && a.sub == ary_sub,
            count_nodes(r) == 1,
    {
        Node { stmt: Stmt::Ref(AryRef { name: ary_nm.to_owned(), dim: ary_dim, sub: ary_sub }) }
    }

    /// A loop over `[low, high)` with an empty body.
    pub fn new_single_loop(ivar: &str, low: i32, high: i32) -> (r: Node)
        ensures
            r.stmt matches Stmt::Loop(l) && l.iv@ == ivar@ && l.lb == LoopBound::Fixed(low)
                && l.ub == LoopBound::Fixed(high) && l.body@.len() == 0,
            count_nodes(r) == 1,
    {
        Node::new_single_loop_general(ivar, LoopBound::Fixed(low), LoopBound::Fixed(high))
    }

    /// A loop over `[low, ub(iv))` with an empty body.
    pub fn new_single_loop_dyn_ub(ivar: &str, low: i32, ub: Affine) -> (r: Node)
        ensures
            r.stmt matches Stmt::Loop(l) && l.iv@ == ivar@ && l.lb == LoopBound::Fixed(low)
                && l.ub == LoopBound::Dynamic(ub) && l.body@.len() == 0,
            count_nodes(r) == 1,
    {
        Node::new_single_loop_general(ivar, LoopBound::Fixed(low), LoopBound::Dynamic(ub))
    }

    /// A loop over `[lb, ub)` with an empty body.
    pub fn new_single_loop_general(ivar: &str, lb: LoopBound, ub: LoopBound) -> (r: Node)
        ensures
            r.stmt matches Stmt::Loop(l) && l.iv@ == ivar@ && l.lb == lb && l.ub == ub
                && l.body@.len() == 0,
            count_nodes(r) == 1,
    {
        let body: Vec<Node> = Vec::new();
        proof {
            assert(count_list(body, 0) == 0);
        }
        Node { stmt: Stmt::Loop(LoopStmt { iv: ivar.to_owned(), lb, ub, body }) }
    }

    /// A branch on `cond`.
    pub fn new_branch(cond: Cond, then_body: Node, else_body: Option<Node>) -> (r: Node)
        ensures
            r.stmt matches Stmt::Branch(b) && b.cond == cond && *b.then_body == then_body
                && match else_body {
                Some(e) => b.else_body matches Some(x) && *x == e,
                None => b.else_body is None,
            },
            count_nodes(r) == 1 + count_nodes(then_body) + match else_body {
                Some(e) => count_nodes(e),
                None => 0,
            },
    {
        let e = match else_body {
            Some(e) => Some(Box::new(e)),
            None => None,
        };
        Node { stmt: Stmt::Branch(BranchStmt { cond, then_body: Box::new(then_body), else_body: e }) }
    }

    /// Appends `stmt` to the body of the loop `lup`; any other node is left as it is.
    pub fn extend_loop_body(lup: &mut Node, stmt: Node)
        ensures
            match old(lup).stmt {
                Stmt::Loop(l) => final(lup).stmt matches Stmt::Loop(l2) && l2.iv == l.iv
                    && l2.lb == l.lb && l2.ub == l.ub && l2.body@ == l.body@.push(stmt),
                _ => *final(lup) == *old(lup),
            },
            old(lup).stmt is Loop ==> count_nodes(*final(lup)) == count_nodes(*old(lup)) + count_nodes(stmt),
    {
        let ghost n0 = *lup;
        let ghost s0 = stmt;
        match &mut lup.stmt {
            Stmt::Loop(l) => {
                let ghost b0 = l.body;
                l.body.push(stmt);
                proof {
                    lemma_count_list_push(b0, l.body, s0, 0);
                }
            },
            _ => {},
        }
    }

    /// `f` applied to the loop of a loop node; `None` for any other node.
    pub fn loop_only<U, F: FnOnce(&LoopStmt) -> U>(&self, f: F) -> (r: Option<U>)
        requires
            self.stmt matches Stmt::Loop(l) ==> f.requires((&l,)),
        ensures
            match self.stmt {
                Stmt::Loop(l) => r matches Some(u) && f.ensures((&l,), u),
                _ => r is None,
            },
    {
        match &self.stmt {
            Stmt::Loop(l) => Some(f(l)),
            _ => None,
        }
    }

    /// `f` applied to the array reference of a reference node; `None` for any other node.
    pub fn ref_only<U, F: FnOnce(&AryRef) -> U>(&self, f: F) -> (r: Option<U>)
        requires
            self.stmt matches Stmt::Ref(a) ==> f.requires((&a,)),
        ensures
            match self.stmt {
                Stmt::Ref(a) => r matches Some(u) && f.ensures((&a,), u),
                _ => r is None,
            },
    {
        match &self.stmt {
            Stmt::Ref(a) => Some(f(a)),
            _ => None,
        }
    }

    /// `f` applied to the array reference of a reference node, for a part of it that
    /// `f` picks; `None` for any other node.
    pub fn ref_only_ref<'a, U, F: FnOnce(&'a AryRef) -> &'a U>(&'a self, f: F) -> (r: Option<&'a U>)
        requires
            self.stmt matches Stmt::Ref(a) ==> f.requires((&a,)),
        ensures
            match self.stmt {
                Stmt::Ref(a) => r matches Some(u) && f.ensures((&a,), u),
                _ => r is None,
            },
    {
        match &self.stmt {
            Stmt::Ref(a) => Some(f(a)),
            _ => None,
        }
    }

    /// `f` applied, with leave to change it, to the loop of a loop node; `None` for any
    /// other node, which is left as it is.
    pub fn loop_only_mut<U, F: FnOnce(&mut LoopStmt) -> U>(&mut self, f: F) -> (r: Option<U>)
        requires
            forall|l: &mut LoopStmt| f.requires((l,)),
        ensures
            (old(self).stmt is Loop) == (r is Some),
            !(old(self).stmt is Loop) ==> *final(self) == *old(self),
    {
        match &mut self.stmt {
            Stmt::Loop(l) => Some(f(l)),
            _ => None,
        }
    }

    /// A part of the array reference of a reference node that `f` picks, to change in
    /// place; `None` for any other node.
    pub fn ref_only_mut_ref<'a, U, F: FnOnce(&'a mut AryRef) -> &'a mut U>(&'a mut self, f: F) -> (r: Option<&'a mut U>)
        requires
            forall|a: &'a mut AryRef| f.requires((a,)),
        ensures
            (old(self).stmt is Ref) == (r is Some),
    {
        match &mut self.stmt {
            Stmt::Ref(a) => Some(f(a)),
            _ => None,
        }
    }

    /// The lower bound of a loop with a fixed lower bound; `None` for any other node.
    pub fn get_lb(&self) -> (r: Option<i32>)
        requires
            self.stmt matches Stmt::Loop(l) ==> l.lb is Fixed,
        ensures
            match self.stmt {
                Stmt::Loop(l) => l.lb matches LoopBound::Fixed(x) && r == Some(x),
                _ => r is None,
            },
    {
        match &self.stmt {
            Stmt::Loop(l) => match &l.lb {
                LoopBound::Fixed(x) => Some(*x),
                LoopBound::Dynamic(_) => None,
            },
            _ => None,
        }
    }

    /// The upper bound of a loop with a fixed upper bound; `None` for any other node.
    pub fn get_ub(&self) -> (r: Option<i32>)
        requires
            self.stmt matches Stmt::Loop(l) ==> l.ub is Fixed,
        ensures
            match self.stmt {
                Stmt::Loop(l) => l.ub matches LoopBound::Fixed(x) && r == Some(x),
                _ => r is None,
            },
    {
        match &self.stmt {
            Stmt::Loop(l) => match &l.ub {
                LoopBound::Fixed(x) => Some(*x),
                LoopBound::Dynamic(_) => None,
            },
            _ => None,
        }
    }

    /// The number of nodes in the tree.
    pub fn node_count(&self) -> (r: u32)
        requires
            count_nodes(*self) <= u32::MAX,
        ensures
            r == count_nodes(*self),
        decreases *self, 1int,
    {
        match &self.stmt {
            Stmt::Loop(l) => 1 + count_children(&l.body),
            Stmt::Ref(_) => 1,
            Stmt::Block(v) => 1 + count_children(v),
            Stmt::Branch(b) => {
                let t = b.then_body.node_count();
                let e = match &b.else_body {
                    Some(e) => e.node_count(),
                    None => 0,
                };
                1 + t + e
            },
        }
    }
}

/// The number of nodes of the trees in `v`.
fn count_children(v: &Vec<Node>) -> (r: u32)
    requires
        count_list(*v, 0) < u32::MAX,
    ensures
        r == count_list(*v, 0),
    decreases *v, 0int,
{
    let n = v.len();
    let mut i: usize = n;
    let mut acc: u32 = 0;
    proof {
        lemma_count_list_mono(*v, 0, n as int);
    }
    while i > 0
        invariant
            i <= n,
            n == v@.len(),
            acc == count_list(*v, i as int),
            count_list(*v, 0) < u32::MAX,
        decreases i,
    {
        proof {
            lemma_count_list_mono(*v, 0, i - 1);
            assert(decreases_to!(*v => v@[i - 1]));
        }
        let c = v[i - 1].node_count();
        acc = c + acc;
        i = i - 1;
    }
    acc
}

/// Appending a tree to a list adds its count.
pub proof fn lemma_count_list_push(v: Vec<Node>, w: Vec<Node>, x: Node, i: int)
    requires
        w@ == v@.push(x),
        0 <= i <= v@.len(),
    ensures
        count_list(w, i) == count_list(v, i) + count_nodes(x),
    decreases v@.len() - i,
{
    if i < v@.len() {
        lemma_count_list_push(v, w, x, i + 1);
        assert(w@[i] == v@[i]);
    } else {
        assert(w@[i] == x);
        assert(count_list(w, i + 1) == 0);
        assert(count_list(v, i) == 0);
    }
}

proof fn lemma_count_list_mono(v: Vec<Node>, i: int, j: int)
    requires
        0 <= i <= j,
    ensures
        count_list(v, j) <= count_list(v, i),
    decreases j - i,
{
    if i < j {
        lemma_count_list_mono(v, i + 1, j);
    }
}

} // verus!
