use vstd::prelude::*;
use crate::ast::{Node, Stmt};

verus! {

/// The nodes of a tree in pre-order: a node, then its loop body or block children in
/// order, or its `then` and `else` parts.
pub open spec fn preorder(n: Node) -> Seq<Node>
    decreases n, 1int, 0int,
{
    seq![n] + match n.stmt {
        Stmt::Loop(l) => preorder_list(l.body, l.body@.len() as int),
        Stmt::Ref(_) => Seq::empty(),
        Stmt::Block(v) => preorder_list(v, v@.len() as int),
        Stmt::Branch(b) => preorder(*b.then_body) + match b.else_body {
            Some(e) => preorder(*e),
            None => Seq::empty(),
        },
    }
}

/// The pre-order of the first `j` trees of `v`, one after another.
pub open spec fn preorder_list(v: Vec<Node>, j: int) -> Seq<Node>
    decreases v, 0int, j,
{
    if j <= 0 || j > v@.len() {
        Seq::empty()
    } else {
        preorder_list(v, j - 1) + preorder(v@[j - 1])
    }
}

/// A pre-order walk over the nodes of a loop tree.
pub struct Walk<'a> {
    order: Vec<&'a Node>,
    next: usize,
}

fn collect<'a>(n: &'a Node, out: &mut Vec<&'a Node>)
    ensures
        final(out)@.map_values(|r: &Node| *r) == old(out)@.map_values(|r: &Node| *r) + preorder(*n),
    decreases *n, 1int,
{
    let ghost o0 = out@.map_values(|r: &Node| *r);
    out.push(n);
    proof {
        assert(out@.map_values(|r: &Node| *r) =~= o0 + seq![*n]);
    }
    match &n.stmt {
        Stmt::Loop(l) => collect_list(&l.body, out),
        Stmt::Ref(_) => {},
        Stmt::Block(v) => collect_list(v, out),
        Stmt::Branch(b) => {
            collect(&b.then_body, out);
            match &b.else_body {
                Some(e) => collect(e, out),
                None => {},
            }
        },
    }
    proof {
        assert(out@.map_values(|r: &Node| *r) =~= o0 + preorder(*n));
    }
}

fn collect_list<'a>(v: &'a Vec<Node>, out: &mut Vec<&'a Node>)
    ensures
        final(out)@.map_values(|r: &Node| *r) == old(out)@.map_values(|r: &Node| *r)
            + preorder_list(*v, v@.len() as int),
    decreases *v, 0int,
{
    let ghost o0 = out@.map_values(|r: &Node| *r);
    let n = v.len();
    let mut i: usize = 0;
    proof {
        assert(o0 + preorder_list(*v, 0) =~= o0);
    }
    while i < n
        invariant
            n == v@.len(),
            i <= n,
            out@.map_values(|r: &Node| *r) == o0 + preorder_list(*v, i as int),
        decreases n - i,
    {
        assert(decreases_to!(*v => v@[i as int]));
        collect(&v[i], out);
        proof {
            assert(out@.map_values(|r: &Node| *r) =~= o0 + preorder_list(*v, i + 1));
        }
        i = i + 1;
    }
}

impl<'a> Walk<'a> {
    /// The nodes not yet handed out, in order.
    pub closed spec fn remaining(&self) -> Seq<Node> {
        self.order@.map_values(|r: &Node| *r).skip(self.next as int)
    }

    pub closed spec fn wf(&self) -> bool {
        self.next <= self.order@.len()
    }

    /// A walk over `root` and all nodes below it.
    pub fn new(root: &'a Node) -> (r: Walk<'a>)
        ensures
            r.wf(),
            r.remaining() == preorder(*root),
    {
        let mut order: Vec<&'a Node> = Vec::new();
        collect(root, &mut order);
        let r = Walk { order, next: 0 };
        proof {
            assert(r.remaining() =~= preorder(*root));
        }
        r
    }

    /// The next node in pre-order, or `None` when all have been visited.
    pub fn step(&mut self) -> (r: Option<&'a Node>)
        requires
            old(self).wf(),
        ensures
            final(self).wf(),
            old(self).remaining().len() == 0 ==> r is None && final(self).remaining().len() == 0,
            old(self).remaining().len() > 0 ==> (r matches Some(x) && *x == old(self).remaining()[0]
                && final(self).remaining() == old(self).remaining().drop_first()),
    {
        if self.next < self.order.len() {
            let x = self.order[self.next];
            self.next = self.next + 1;
            proof {
                assert(self.remaining() =~= old(self).remaining().drop_first());
            }
            Some(x)
        } else {
            None
        }
    }

    /// The number of nodes left to visit.
    pub fn count_remaining(&self) -> (r: usize)
        requires
            self.wf(),
        ensures
            r == self.remaining().len(),
    {
        self.order.len() - self.next
    }
}

} // verus!
