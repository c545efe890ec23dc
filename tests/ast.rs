use reuse_dist::ast::{Affine, AryRef, Cond, LoopBound, LoopTNode, Node, Stmt};
use reuse_dist::iter::Walk;
use reuse_dist::polybench::iv;

#[test]
fn ast_acc_ref() {
    let ar = AryRef { name: "X".to_string(), dim: vec![10], sub: vec![Affine::var(0, 1, 1)] };
    assert_eq!(ar.sub[0].eval(&vec![1]), Some(2));
}

#[test]
fn ast_matmul() {
    let n: usize = 100;
    let ubound = n as i32;
    let ref_c = Node::new_ref("C", vec![n, n], vec![iv(0), iv(1)]);
    let ref_a = Node::new_ref("A", vec![n, n], vec![iv(0), iv(2)]);
    let ref_b = Node::new_ref("B", vec![n, n], vec![iv(2), iv(1)]);
    let mut k_loop = Node::new_single_loop("k", 0, ubound);
    for s in [ref_c, ref_a, ref_b] {
        Node::extend_loop_body(&mut k_loop, s);
    }
    let mut j_loop = Node::new_single_loop("j", 0, ubound);
    Node::extend_loop_body(&mut j_loop, k_loop);
    let mut i_loop = Node::new_single_loop("i", 0, ubound);
    Node::extend_loop_body(&mut i_loop, j_loop);
    assert_eq!(i_loop.node_count(), 6);
}

#[test]
fn example_dyn() {
    // for i in 0..n
    //     for j in 0 .. n - i
    let n: usize = 100;
    let ubound = n as i32;
    let j_loop = Node::new_single_loop_dyn_ub("j", 0, Affine::var(0, -1, ubound as i64));
    let mut i_loop = Node::new_single_loop("i", 0, ubound);
    Node::extend_loop_body(&mut i_loop, j_loop);
    assert_eq!(i_loop.node_count(), 2);
}

#[test]
fn example_macro() {
    let n: usize = 100;
    let ubound = n as i32;
    let j_loop = Node::new_single_loop_general(
        "j",
        LoopBound::Fixed(0),
        LoopBound::Dynamic(Affine::var(0, -1, ubound as i64)),
    );
    let mut i_loop =
        Node::new_single_loop_general("i", LoopBound::Fixed(0), LoopBound::Fixed(ubound));
    Node::extend_loop_body(&mut i_loop, j_loop);
    assert_eq!(i_loop.node_count(), 2);
}

#[test]
fn example_if_then() {
    let ubound = 100;
    let ref_a = Node::new_ref("A", vec![100], vec![iv(0)]);
    let branch = Node::new_branch(Cond::Even(iv(0)), ref_a, None);
    let mut i_loop = Node::new_single_loop("i", 0, ubound);
    Node::extend_loop_body(&mut i_loop, branch);
    assert_eq!(i_loop.node_count(), 3);
}

#[test]
fn example_if_then_else() {
    let ubound = 100;
    let ref_a = Node::new_ref("A", vec![100], vec![iv(0)]);
    let ref_b = Node::new_ref("B", vec![100], vec![iv(0)]);
    let branch = Node::new_branch(Cond::Even(iv(0)), ref_a, Some(ref_b));
    let mut i_loop = Node::new_single_loop("i", 0, ubound);
    Node::extend_loop_body(&mut i_loop, branch);
    assert_eq!(i_loop.node_count(), 4);
}

#[test]
fn ast_mat_transpose1() {
    let n: usize = 1024;
    let ubound = n as i32;
    let ref_x1 = Node::new_ref("x1", vec![n], vec![iv(0)]);
    let ref_a = Node::new_ref("a", vec![n, n], vec![iv(0), iv(1)]);
    let ref_y1 = Node::new_ref("y1", vec![n], vec![iv(1)]);
    let mut j_loop = Node::new_single_loop("j", 0, ubound);
    for s in [ref_x1, ref_a, ref_y1] {
        Node::extend_loop_body(&mut j_loop, s);
    }
    let mut i_loop = Node::new_single_loop("i", 0, ubound);
    Node::extend_loop_body(&mut i_loop, j_loop);
    assert_eq!(i_loop.node_count(), 5);
}

#[test]
fn bounds_of_fixed_loops() {
    let l = Node::new_single_loop("i", 3, 9);
    assert_eq!(l.get_lb(), Some(3));
    assert_eq!(l.get_ub(), Some(9));
    let r = Node::new_ref("A", vec![4], vec![iv(0)]);
    assert_eq!(r.get_lb(), None);
    assert_eq!(r.get_ub(), None);
}

#[test]
fn conditions_evaluate() {
    let c = Cond::And(
        Box::new(Cond::Less(Affine::constant(0), iv(1))),
        Box::new(Cond::Not(Box::new(Cond::Even(iv(0))))),
    );
    assert_eq!(c.holds(&vec![3, 1]), Some(true));
    assert_eq!(c.holds(&vec![2, 1]), Some(false));
    assert_eq!(c.holds(&vec![3, 0]), Some(false));
    assert_eq!(c.holds(&vec![3]), None);
    let a = Affine { constant: -4, terms: vec![(0, 3), (1, -2)] };
    assert_eq!(a.eval(&vec![5, 1]), Some(9));
    assert_eq!(a.eval(&vec![5]), None);
}

fn walk_count(root: &Node) -> usize {
    let mut w = Walk::new(root);
    let mut cnt = 0;
    while let Some(_) = w.step() {
        cnt += 1;
    }
    cnt
}

#[test]
fn iter_loop_a_0() {
    // i = 0, n { a[0] }
    let aref = Node::new_ref("A", vec![1], vec![Affine::constant(0)]);
    let mut aloop = Node::new_single_loop("i", 0, 10);
    Node::extend_loop_body(&mut aloop, aref);
    assert_eq!(walk_count(&aloop), 2);
}

#[test]
fn iter_loop_ij() {
    // i = 0, 1, {j = 0, 0 n { a[0] }; b[0]
    let aref = Node::new_ref("A", vec![1], vec![Affine::constant(0)]);
    let mut jloop = Node::new_single_loop("j", 0, 10);
    Node::extend_loop_body(&mut jloop, aref);
    let bref = Node::new_ref("B", vec![1], vec![Affine::constant(0)]);
    let mut iloop = Node::new_single_loop("i", 0, 1);
    Node::extend_loop_body(&mut iloop, jloop);
    Node::extend_loop_body(&mut iloop, bref);
    assert_eq!(walk_count(&iloop), 4);
}

#[test]
fn tree_walk_loop_a_0() {
    // i = 0, n { a[0] }
    let aref = LoopTNode::new_ref("A", vec![1], vec![Affine::constant(0)]);
    let mut aloop = LoopTNode::new_single_loop("i", 0, 10);
    LoopTNode::extend_loop_body(&mut aloop, aref);
    let w = Walk::new(&aloop);
    assert_eq!(w.count_remaining(), 2);
}

#[test]
fn walk_is_preorder() {
    let mut jloop = Node::new_single_loop("j", 0, 2);
    Node::extend_loop_body(&mut jloop, Node::new_ref("A", vec![2], vec![iv(0)]));
    let mut iloop = Node::new_single_loop("i", 0, 2);
    Node::extend_loop_body(&mut iloop, jloop);
    Node::extend_loop_body(&mut iloop, Node::new_ref("B", vec![2], vec![iv(0)]));
    let mut w = Walk::new(&iloop);
    let mut names = Vec::new();
    while let Some(n) = w.step() {
        names.push(match &n.stmt {
            Stmt::Loop(l) => l.iv.clone(),
            Stmt::Ref(r) => r.name.clone(),
            _ => String::new(),
        });
    }
    assert_eq!(names, ["i", "j", "A", "B"]);
}

#[test]
fn loop_tree_acc_ref() {
    let ar = AryRef { name: "X".to_string(), dim: vec![10], sub: vec![Affine::var(0, 1, 1)] };
    assert_eq!(ar.sub[0].eval(&vec![1]), Some(2));
}

#[test]
fn loop_tree_matmul() {
    let n: usize = 100;
    let ubound = n as i32;
    let s_ref_c = LoopTNode::new_ref("C", vec![n, n], vec![iv(0), iv(1)]);
    let s_ref_a = LoopTNode::new_ref("A", vec![n, n], vec![iv(0), iv(2)]);
    let s_ref_b = LoopTNode::new_ref("B", vec![n, n], vec![iv(2), iv(1)]);
    let mut k_loop_ref = LoopTNode::new_single_loop("k", 0, ubound);
    LoopTNode::extend_loop_body(&mut k_loop_ref, s_ref_c);
    LoopTNode::extend_loop_body(&mut k_loop_ref, s_ref_a);
    LoopTNode::extend_loop_body(&mut k_loop_ref, s_ref_b);
    let mut j_loop_ref = LoopTNode::new_single_loop("j", 0, ubound);
    LoopTNode::extend_loop_body(&mut j_loop_ref, k_loop_ref);
    let mut i_loop_ref = LoopTNode::new_single_loop("i", 0, ubound);
    LoopTNode::extend_loop_body(&mut i_loop_ref, j_loop_ref);
    assert_eq!(i_loop_ref.node_count(), 6);
}

#[test]
fn loop_tree_mat_transpose1() {
    let n: usize = 1024;
    let ubound = n as i32;
    let s_ref_x1 = LoopTNode::new_ref("x1", vec![n], vec![iv(0)]);
    let s_ref_a = LoopTNode::new_ref("a", vec![n, n], vec![iv(0), iv(1)]);
    let s_ref_y1 = LoopTNode::new_ref("y1", vec![n], vec![iv(1)]);
    let mut j_loop_ref = LoopTNode::new_single_loop("j", 0, ubound);
    LoopTNode::extend_loop_body(&mut j_loop_ref, s_ref_x1);
    LoopTNode::extend_loop_body(&mut j_loop_ref, s_ref_a);
    LoopTNode::extend_loop_body(&mut j_loop_ref, s_ref_y1);
    let mut i_loop_ref = LoopTNode::new_single_loop("i", 0, ubound);
    LoopTNode::extend_loop_body(&mut i_loop_ref, j_loop_ref);
    assert_eq!(i_loop_ref.node_count(), 5);
}

#[test]
fn closure_accessors() {
    let mut l = Node::new_single_loop("i", 0, 4);
    assert_eq!(l.loop_only(|lp| lp.iv.clone()), Some("i".to_string()));
    assert_eq!(l.ref_only(|r| r.dim.len()), None);
    assert_eq!(l.loop_only_mut(|lp| lp.body.push(Node::new_ref("A", vec![4], vec![iv(0)]))), Some(()));
    assert_eq!(l.node_count(), 2);
    let mut r = Node::new_ref("A", vec![3], vec![iv(0)]);
    assert_eq!(r.ref_only_ref(|a| &a.name).map(|s| s.as_str()), Some("A"));
    assert_eq!(r.loop_only_mut(|lp| lp.body.len()), None);
    *r.ref_only_mut_ref(|a| &mut a.dim).unwrap() = vec![5];
    assert_eq!(r.ref_only(|a| a.dim.clone()), Some(vec![5]));
}
