use vstd::prelude::*;
use crate::ast::{Affine, Cond, LoopBound, Node, Stmt};

verus! {

/// The loop index at depth `k` of the iteration vector.
pub fn iv(k: usize) -> (r: Affine)
    ensures
        forall|v: Seq<i32>| k < v.len() ==> crate::ast::affine_value(r, v) == Some(v[k as int] as int),
{
    Affine::var(k, 1, 0)
}

/// The loop index at depth `k`, plus `c`.
pub fn iv_plus(k: usize, c: i64) -> (r: Affine)
    ensures
        forall|v: Seq<i32>| k < v.len() ==> crate::ast::affine_value(r, v) == Some(v[k as int] + c),
{
    Affine::var(k, 1, c)
}

/// The loop tree of c[i][j] += A[i][k] * B[k][j] over an n x n x n loop nest.
pub fn matmul(n: usize) -> (r: Node)
    requires
        n <= 0x7fff_0000,
    ensures
        r.stmt is Loop,
        crate::ast::count_nodes(r) == 6,
{
    let ubound: i32 = n as i32;
    let s_ref_c = Node::new_ref("C", vec![n, n], vec![iv(0), iv(1)]);
    let s_ref_a = Node::new_ref("A", vec![n, n], vec![iv(0), iv(2)]);
    let s_ref_b = Node::new_ref("B", vec![n, n], vec![iv(2), iv(1)]);
    let mut k_loop_ref = Node::new_single_loop_general("k", LoopBound::Fixed(0), LoopBound::Fixed(ubound));
    Node::extend_loop_body(&mut k_loop_ref, s_ref_c);
    Node::extend_loop_body(&mut k_loop_ref, s_ref_a);
    Node::extend_loop_body(&mut k_loop_ref, s_ref_b);
    let mut j_loop_ref = Node::new_single_loop_general("j", LoopBound::Fixed(0), LoopBound::Fixed(ubound));
    Node::extend_loop_body(&mut j_loop_ref, k_loop_ref);
    let mut i_loop_ref = Node::new_single_loop_general("i", LoopBound::Fixed(0), LoopBound::Fixed(ubound));
    Node::extend_loop_body(&mut i_loop_ref, j_loop_ref);
    i_loop_ref
}

/// The loop tree of lU decomposition of an n x n matrix.
pub fn lu(n: usize) -> (r: Node)
    requires
        n <= 0x7fff_0000,
    ensures
        r.stmt is Loop,
        crate::ast::count_nodes(r) == 16,
{
    let ubound: i32 = n as i32;
    let ref_a_ik = Node::new_ref("A", vec![n, n], vec![iv(0), iv(2)]);
    let ref_a_kj = Node::new_ref("A", vec![n, n], vec![iv(2), iv(1)]);
    let ref_a_ij = Node::new_ref("A", vec![n, n], vec![iv(0), iv(1)]);
    let ref_a_ij_2 = Node::new_ref("A", vec![n, n], vec![iv(0), iv(1)]);
    let mut k_loop_ref_j = Node::new_single_loop_general("k", LoopBound::Fixed(0), LoopBound::Dynamic(iv(1)));
    Node::extend_loop_body(&mut k_loop_ref_j, ref_a_ik);
    Node::extend_loop_body(&mut k_loop_ref_j, ref_a_kj);
    Node::extend_loop_body(&mut k_loop_ref_j, ref_a_ij);
    Node::extend_loop_body(&mut k_loop_ref_j, ref_a_ij_2);
    let ref_a_jj = Node::new_ref("A", vec![n, n], vec![iv(1), iv(1)]);
    let ref_a_ij_3 = Node::new_ref("A", vec![n, n], vec![iv(0), iv(1)]);
    let ref_a_ij_4 = Node::new_ref("A", vec![n, n], vec![iv(0), iv(1)]);
    let mut j_loop_lower_ref = Node::new_single_loop_general("j", LoopBound::Fixed(0), LoopBound::Dynamic(iv(0)));
    Node::extend_loop_body(&mut j_loop_lower_ref, k_loop_ref_j);
    Node::extend_loop_body(&mut j_loop_lower_ref, ref_a_jj);
    Node::extend_loop_body(&mut j_loop_lower_ref, ref_a_ij_3);
    Node::extend_loop_body(&mut j_loop_lower_ref, ref_a_ij_4);
    let ref_a_ik_2 = Node::new_ref("A", vec![n, n], vec![iv(0), iv(2)]);
    let ref_a_kj_2 = Node::new_ref("A", vec![n, n], vec![iv(2), iv(1)]);
    let ref_a_ij_5 = Node::new_ref("A", vec![n, n], vec![iv(0), iv(1)]);
    let ref_a_ij_6 = Node::new_ref("A", vec![n, n], vec![iv(0), iv(1)]);
    let mut k_loop_ref_i = Node::new_single_loop_general("k", LoopBound::Fixed(0), LoopBound::Dynamic(iv(0)));
    Node::extend_loop_body(&mut k_loop_ref_i, ref_a_ik_2);
    Node::extend_loop_body(&mut k_loop_ref_i, ref_a_kj_2);
    Node::extend_loop_body(&mut k_loop_ref_i, ref_a_ij_5);
    Node::extend_loop_body(&mut k_loop_ref_i, ref_a_ij_6);
    let mut j_loop_upper_ref = Node::new_single_loop_general("j", LoopBound::Dynamic(iv(0)), LoopBound::Fixed(ubound));
    Node::extend_loop_body(&mut j_loop_upper_ref, k_loop_ref_i);
    let mut i_loop_ref = Node::new_single_loop_general("i", LoopBound::Fixed(0), LoopBound::Fixed(ubound));
    Node::extend_loop_body(&mut i_loop_ref, j_loop_lower_ref);
    Node::extend_loop_body(&mut i_loop_ref, j_loop_upper_ref);
    i_loop_ref
}

/// The loop tree of triangular matrix multiply, B of m x n.
pub fn trmm_trace(m: usize, n: usize) -> (r: Node)
    requires
        m <= 0x7fff_0000,
        n <= 0x7fff_0000,
    ensures
        r.stmt is Loop,
        crate::ast::count_nodes(r) == 8,
{
    let b3_ref = Node::new_ref("B", vec![m, n], vec![iv(0), iv(1)]);
    let a_ref = Node::new_ref("A", vec![n, m], vec![iv(2), iv(0)]);
    let b1_ref = Node::new_ref("B", vec![m, n], vec![iv(2), iv(1)]);
    let b2_ref = Node::new_ref("B", vec![m, n], vec![iv(0), iv(1)]);
    let b3_ref_2 = Node::new_ref("B", vec![m, n], vec![iv(0), iv(1)]);
    let mut k_loop_ref = Node::new_single_loop_general("k", LoopBound::Fixed(1), LoopBound::Fixed(m as i32));
    Node::extend_loop_body(&mut k_loop_ref, a_ref);
    Node::extend_loop_body(&mut k_loop_ref, b1_ref);
    Node::extend_loop_body(&mut k_loop_ref, b2_ref);
    Node::extend_loop_body(&mut k_loop_ref, b3_ref_2);
    let mut j_loop_ref = Node::new_single_loop_general("j", LoopBound::Fixed(0), LoopBound::Fixed(n as i32));
    Node::extend_loop_body(&mut j_loop_ref, b3_ref);
    Node::extend_loop_body(&mut j_loop_ref, k_loop_ref);
    let mut i_loop_ref = Node::new_single_loop_general("i", LoopBound::Fixed(0), LoopBound::Fixed(m as i32));
    Node::extend_loop_body(&mut i_loop_ref, j_loop_ref);
    i_loop_ref
}

/// The loop tree of matrix-vector product and transpose, two separate n x n nests.
pub fn mvt(n: usize) -> (r: Node)
    requires
        n <= 0x7fff_0000,
    ensures
        r.stmt is Block,
        crate::ast::count_nodes(r) == 13,
{
    let ubound: i32 = n as i32;
    let s_ref_x1 = Node::new_ref("x1", vec![n], vec![iv(0)]);
    let s_ref_a1 = Node::new_ref("a1", vec![n, n], vec![iv(0), iv(1)]);
    let s_ref_y1 = Node::new_ref("y1", vec![n], vec![iv(1)]);
    let s_ref_x1_2 = Node::new_ref("x1", vec![n], vec![iv(0)]);
    let mut j_loop_ref = Node::new_single_loop_general("j", LoopBound::Fixed(0), LoopBound::Fixed(ubound));
    Node::extend_loop_body(&mut j_loop_ref, s_ref_x1);
    Node::extend_loop_body(&mut j_loop_ref, s_ref_a1);
    Node::extend_loop_body(&mut j_loop_ref, s_ref_y1);
    Node::extend_loop_body(&mut j_loop_ref, s_ref_x1_2);
    let mut i_loop_ref = Node::new_single_loop_general("i", LoopBound::Fixed(0), LoopBound::Fixed(ubound));
    Node::extend_loop_body(&mut i_loop_ref, j_loop_ref);
    let s_ref_x2 = Node::new_ref("x2", vec![n], vec![iv(0)]);
    let s_ref_a2 = Node::new_ref("a2", vec![n, n], vec![iv(1), iv(0)]);
    let s_ref_y2 = Node::new_ref("y2", vec![n], vec![iv(1)]);
    let s_ref_x2_2 = Node::new_ref("x2", vec![n], vec![iv(0)]);
    let mut k_loop_ref = Node::new_single_loop_general("k", LoopBound::Fixed(0), LoopBound::Fixed(ubound));
    Node::extend_loop_body(&mut k_loop_ref, s_ref_x2);
    Node::extend_loop_body(&mut k_loop_ref, s_ref_a2);
    Node::extend_loop_body(&mut k_loop_ref, s_ref_y2);
    Node::extend_loop_body(&mut k_loop_ref, s_ref_x2_2);
    let mut m_loop_ref = Node::new_single_loop_general("m", LoopBound::Fixed(0), LoopBound::Fixed(ubound));
    Node::extend_loop_body(&mut m_loop_ref, k_loop_ref);
    let ghost c1_0 = crate::ast::count_nodes(i_loop_ref);
    let ghost c1_1 = crate::ast::count_nodes(m_loop_ref);
    let kids = vec![i_loop_ref, m_loop_ref];
    proof {
        assert(crate::ast::count_list(kids, 2) == 0);
        assert(crate::ast::count_list(kids, 1) == c1_1 + crate::ast::count_list(kids, 2));
        assert(crate::ast::count_list(kids, 0) == c1_0 + crate::ast::count_list(kids, 1));
    }
    let root = Node::new_node(Stmt::Block(kids));
    root
}

/// The loop tree of triangular solver of size n.
pub fn trisolv(n: usize) -> (r: Node)
    requires
        n <= 0x7fff_0000,
    ensures
        r.stmt is Loop,
        crate::ast::count_nodes(r) == 11,
{
    let ubound: i32 = n as i32;
    let s_ref_b = Node::new_ref("b", vec![n], vec![iv(0)]);
    let s_ref_x1 = Node::new_ref("x", vec![n], vec![iv(0)]);
    let s_ref_L1 = Node::new_ref("L", vec![n, n], vec![iv(0), iv(1)]);
    let s_ref_x2 = Node::new_ref("x", vec![n], vec![iv(1)]);
    let s_ref_x3 = Node::new_ref("x", vec![n], vec![iv(0)]);
    let s_ref_x3_2 = Node::new_ref("x", vec![n], vec![iv(0)]);
    let mut j_loop_ref = Node::new_single_loop_general("j", LoopBound::Fixed(0), LoopBound::Dynamic(iv(0)));
    Node::extend_loop_body(&mut j_loop_ref, s_ref_L1);
    Node::extend_loop_body(&mut j_loop_ref, s_ref_x2);
    Node::extend_loop_body(&mut j_loop_ref, s_ref_x3);
    Node::extend_loop_body(&mut j_loop_ref, s_ref_x3_2);
    let s_ref_x1_2 = Node::new_ref("x", vec![n], vec![iv(0)]);
    let s_ref_L2 = Node::new_ref("L", vec![n, n], vec![iv(0), iv(0)]);
    let s_ref_x1_3 = Node::new_ref("x", vec![n], vec![iv(0)]);
    let mut i_loop_ref = Node::new_single_loop_general("i", LoopBound::Fixed(0), LoopBound::Fixed(ubound));
    Node::extend_loop_body(&mut i_loop_ref, s_ref_b);
    Node::extend_loop_body(&mut i_loop_ref, s_ref_x1);
    Node::extend_loop_body(&mut i_loop_ref, j_loop_ref);
    Node::extend_loop_body(&mut i_loop_ref, s_ref_x1_2);
    Node::extend_loop_body(&mut i_loop_ref, s_ref_L2);
    Node::extend_loop_body(&mut i_loop_ref, s_ref_x1_3);
    i_loop_ref
}

/// The loop tree of symmetric rank-k update, C of n x n and A of n x m.
pub fn syrk(n: usize, m: usize) -> (r: Node)
    requires
        n <= 0x7fff_0000,
        m <= 0x7fff_0000,
    ensures
        r.stmt is Block,
        crate::ast::count_nodes(r) == 12,
{
    let ubound1: i32 = n as i32;
    let ubound2: i32 = m as i32;
    let s_ref_c1 = Node::new_ref("c", vec![n, n], vec![iv(0), iv(1)]);
    let s_ref_c1_2 = Node::new_ref("c", vec![n, n], vec![iv(0), iv(1)]);
    let mut j_loop_ref = Node::new_single_loop_general("j", LoopBound::Fixed(0), LoopBound::Fixed(ubound1));
    Node::extend_loop_body(&mut j_loop_ref, s_ref_c1);
    Node::extend_loop_body(&mut j_loop_ref, s_ref_c1_2);
    let mut i_loop_ref = Node::new_single_loop_general("i", LoopBound::Fixed(0), LoopBound::Fixed(ubound1));
    Node::extend_loop_body(&mut i_loop_ref, j_loop_ref);
    let s_ref_a1 = Node::new_ref("a1", vec![n, m], vec![iv(0), iv(2)]);
    let s_ref_a2 = Node::new_ref("a2", vec![n, m], vec![iv(1), iv(2)]);
    let s_ref_c2 = Node::new_ref("c", vec![n, n], vec![iv(0), iv(1)]);
    let s_ref_c2_2 = Node::new_ref("c", vec![n, n], vec![iv(0), iv(1)]);
    let mut m_loop_ref = Node::new_single_loop_general("m", LoopBound::Fixed(0), LoopBound::Fixed(ubound2));
    Node::extend_loop_body(&mut m_loop_ref, s_ref_a1);
    Node::extend_loop_body(&mut m_loop_ref, s_ref_a2);
    Node::extend_loop_body(&mut m_loop_ref, s_ref_c2);
    Node::extend_loop_body(&mut m_loop_ref, s_ref_c2_2);
    let mut l_loop_ref = Node::new_single_loop_general("l", LoopBound::Fixed(0), LoopBound::Fixed(ubound1));
    Node::extend_loop_body(&mut l_loop_ref, m_loop_ref);
    let mut k_loop_ref = Node::new_single_loop_general("k", LoopBound::Fixed(0), LoopBound::Fixed(ubound1));
    Node::extend_loop_body(&mut k_loop_ref, l_loop_ref);
    let ghost c2_0 = crate::ast::count_nodes(i_loop_ref);
    let ghost c2_1 = crate::ast::count_nodes(k_loop_ref);
    let kids2 = vec![i_loop_ref, k_loop_ref];
    proof {
        assert(crate::ast::count_list(kids2, 2) == 0);
        assert(crate::ast::count_list(kids2, 1) == c2_1 + crate::ast::count_list(kids2, 2));
        assert(crate::ast::count_list(kids2, 0) == c2_0 + crate::ast::count_list(kids2, 1));
    }
    let root = Node::new_node(Stmt::Block(kids2));
    root
}

/// The loop tree of symmetric rank-2k update, C of n x n and A, B of n x m.
pub fn syr2d(n: usize, m: usize) -> (r: Node)
    requires
        n <= 0x7fff_0000,
        m <= 0x7fff_0000,
    ensures
        r.stmt is Loop,
        crate::ast::count_nodes(r) == 12,
{
    let ubound1: i32 = n as i32;
    let ubound2: i32 = m as i32;
    let s_ref_c = Node::new_ref("c", vec![n, n], vec![iv(0), iv(1)]);
    let s_ref_c_2 = Node::new_ref("c", vec![n, n], vec![iv(0), iv(1)]);
    let mut j_loop_ref = Node::new_single_loop_general("j", LoopBound::Fixed(0), LoopBound::Dynamic(iv(0)));
    Node::extend_loop_body(&mut j_loop_ref, s_ref_c);
    Node::extend_loop_body(&mut j_loop_ref, s_ref_c_2);
    let s_ref_a1 = Node::new_ref("a1", vec![n, m], vec![iv(3), iv(2)]);
    let s_ref_b1 = Node::new_ref("b1", vec![n, m], vec![iv(0), iv(2)]);
    let s_ref_b2 = Node::new_ref("b2", vec![n, m], vec![iv(3), iv(2)]);
    let s_ref_a2 = Node::new_ref("a2", vec![n, m], vec![iv(0), iv(2)]);
    let s_ref_c1 = Node::new_ref("c1", vec![n, n], vec![iv(0), iv(3)]);
    let s_ref_c2 = Node::new_ref("c2", vec![n, n], vec![iv(0), iv(3)]);
    let mut l_loop_ref = Node::new_single_loop_general("l", LoopBound::Fixed(0), LoopBound::Dynamic(iv(0)));
    Node::extend_loop_body(&mut l_loop_ref, s_ref_a1);
    Node::extend_loop_body(&mut l_loop_ref, s_ref_b1);
    Node::extend_loop_body(&mut l_loop_ref, s_ref_b2);
    Node::extend_loop_body(&mut l_loop_ref, s_ref_a2);
    Node::extend_loop_body(&mut l_loop_ref, s_ref_c1);
    Node::extend_loop_body(&mut l_loop_ref, s_ref_c2);
    let mut k_loop_ref = Node::new_single_loop_general("k", LoopBound::Fixed(0), LoopBound::Fixed(ubound2));
    Node::extend_loop_body(&mut k_loop_ref, l_loop_ref);
    let mut i_loop_ref = Node::new_single_loop_general("i", LoopBound::Fixed(0), LoopBound::Fixed(ubound1));
    Node::extend_loop_body(&mut i_loop_ref, j_loop_ref);
    Node::extend_loop_body(&mut i_loop_ref, k_loop_ref);
    i_loop_ref
}

/// The loop tree of general matrix multiply of n x n matrices.
pub fn gemm(n: usize) -> (r: Node)
    requires
        n <= 0x7fff_0000,
    ensures
        r.stmt is Loop,
        crate::ast::count_nodes(r) == 9,
{
    let ubound: i32 = n as i32;
    let C0 = Node::new_ref("C", vec![n, n], vec![iv(0), iv(1)]);
    let C0_2 = Node::new_ref("C", vec![n, n], vec![iv(0), iv(1)]);
    let A0 = Node::new_ref("A", vec![n, n], vec![iv(0), iv(2)]);
    let B0 = Node::new_ref("B", vec![n, n], vec![iv(2), iv(1)]);
    let C0_3 = Node::new_ref("C", vec![n, n], vec![iv(0), iv(1)]);
    let C0_4 = Node::new_ref("C", vec![n, n], vec![iv(0), iv(1)]);
    let mut k_loop_ref = Node::new_single_loop_general("k", LoopBound::Fixed(0), LoopBound::Fixed(ubound));
    Node::extend_loop_body(&mut k_loop_ref, A0);
    Node::extend_loop_body(&mut k_loop_ref, B0);
    Node::extend_loop_body(&mut k_loop_ref, C0_3);
    Node::extend_loop_body(&mut k_loop_ref, C0_4);
    let mut j_loop_ref = Node::new_single_loop_general("j", LoopBound::Fixed(0), LoopBound::Fixed(ubound));
    Node::extend_loop_body(&mut j_loop_ref, C0);
    Node::extend_loop_body(&mut j_loop_ref, C0_2);
    Node::extend_loop_body(&mut j_loop_ref, k_loop_ref);
    let mut i_loop_ref = Node::new_single_loop_general("i", LoopBound::Fixed(0), LoopBound::Fixed(ubound));
    Node::extend_loop_body(&mut i_loop_ref, j_loop_ref);
    i_loop_ref
}

/// The loop tree of two chained matrix multiplies.
pub fn _2mm(ni: usize, nj: usize, nk: usize, nl: usize) -> (r: Node)
    requires
        ni <= 0x7fff_0000,
        nj <= 0x7fff_0000,
        nk <= 0x7fff_0000,
        nl <= 0x7fff_0000,
    ensures
        r.stmt is Block,
        crate::ast::count_nodes(r) == 10,
{
    let s_ref_d = Node::new_ref("d", vec![ni, nl], vec![iv(0), iv(3)]);
    let s_ref_tmp = Node::new_ref("tmp", vec![ni, nj], vec![iv(0), iv(1)]);
    let s_ref_c = Node::new_ref("c", vec![nl, nj], vec![iv(3), iv(1)]);
    let s_ref_d_2 = Node::new_ref("d", vec![ni, nl], vec![iv(0), iv(3)]);
    let mut knj_loop_ref = Node::new_single_loop_general("k", LoopBound::Fixed(0), LoopBound::Fixed(nj as i32));
    Node::extend_loop_body(&mut knj_loop_ref, s_ref_tmp);
    Node::extend_loop_body(&mut knj_loop_ref, s_ref_c);
    Node::extend_loop_body(&mut knj_loop_ref, s_ref_d_2);
    let mut jnj_loop_ref = Node::new_single_loop_general("j", LoopBound::Fixed(0), LoopBound::Fixed(nj as i32));
    Node::extend_loop_body(&mut jnj_loop_ref, s_ref_d);
    Node::extend_loop_body(&mut jnj_loop_ref, knj_loop_ref);
    let mut ini_loop_ref1 = Node::new_single_loop_general("i", LoopBound::Fixed(0), LoopBound::Fixed(ni as i32));
    Node::extend_loop_body(&mut ini_loop_ref1, jnj_loop_ref);
    let jnl_loop_ref = Node::new_single_loop_general("j", LoopBound::Fixed(0), LoopBound::Fixed(nl as i32));
    let mut ini_loop_ref2 = Node::new_single_loop_general("i", LoopBound::Fixed(0), LoopBound::Fixed(ni as i32));
    Node::extend_loop_body(&mut ini_loop_ref2, jnl_loop_ref);
    let ghost c3_0 = crate::ast::count_nodes(ini_loop_ref1);
    let ghost c3_1 = crate::ast::count_nodes(ini_loop_ref2);
    let kids3 = vec![ini_loop_ref1, ini_loop_ref2];
    proof {
        assert(crate::ast::count_list(kids3, 2) == 0);
        assert(crate::ast::count_list(kids3, 1) == c3_1 + crate::ast::count_list(kids3, 2));
        assert(crate::ast::count_list(kids3, 0) == c3_0 + crate::ast::count_list(kids3, 1));
    }
    let root = Node::new_node(Stmt::Block(kids3));
    root
}

/// The loop tree of cholesky decomposition of an n x n matrix.
pub fn cholesky(n: usize) -> (r: Node)
    requires
        n <= 0x7fff_0000,
    ensures
        r.stmt is Loop,
        crate::ast::count_nodes(r) == 17,
{
    let ubound: i32 = n as i32;
    let s_ref_aik1 = Node::new_ref("a", vec![n, n], vec![iv(0), iv(2)]);
    let s_ref_ajk = Node::new_ref("a", vec![n, n], vec![iv(1), iv(2)]);
    let s_ref_aij1 = Node::new_ref("a", vec![n, n], vec![iv(0), iv(1)]);
    let s_ref_aij1_2 = Node::new_ref("a", vec![n, n], vec![iv(0), iv(1)]);
    let mut k1_loop_ref = Node::new_single_loop_general("k", LoopBound::Fixed(0), LoopBound::Dynamic(iv(0)));
    Node::extend_loop_body(&mut k1_loop_ref, s_ref_aik1);
    Node::extend_loop_body(&mut k1_loop_ref, s_ref_ajk);
    Node::extend_loop_body(&mut k1_loop_ref, s_ref_aij1);
    Node::extend_loop_body(&mut k1_loop_ref, s_ref_aij1_2);
    let s_ref_ajj = Node::new_ref("a", vec![n], vec![iv(1)]);
    let s_ref_aij2 = Node::new_ref("a", vec![n, n], vec![iv(0), iv(1)]);
    let s_ref_aij2_2 = Node::new_ref("a", vec![n, n], vec![iv(0), iv(1)]);
    let mut j_loop_ref = Node::new_single_loop_general("j", LoopBound::Fixed(0), LoopBound::Dynamic(iv(0)));
    Node::extend_loop_body(&mut j_loop_ref, k1_loop_ref);
    Node::extend_loop_body(&mut j_loop_ref, s_ref_ajj);
    Node::extend_loop_body(&mut j_loop_ref, s_ref_aij2);
    Node::extend_loop_body(&mut j_loop_ref, s_ref_aij2_2);
    let s_ref_aik2 = Node::new_ref("a", vec![n, n], vec![iv(0), iv(2)]);
    let s_ref_aik2_2 = Node::new_ref("a", vec![n, n], vec![iv(0), iv(2)]);
    let s_ref_aii1 = Node::new_ref("a", vec![n], vec![iv(0)]);
    let s_ref_aii1_2 = Node::new_ref("a", vec![n], vec![iv(0)]);
    let mut k2_loop_ref = Node::new_single_loop_general("k", LoopBound::Fixed(0), LoopBound::Dynamic(iv(0)));
    Node::extend_loop_body(&mut k2_loop_ref, s_ref_aik2);
    Node::extend_loop_body(&mut k2_loop_ref, s_ref_aik2_2);
    Node::extend_loop_body(&mut k2_loop_ref, s_ref_aii1);
    Node::extend_loop_body(&mut k2_loop_ref, s_ref_aii1_2);
    let s_ref_aii2 = Node::new_ref("a", vec![n], vec![iv(0)]);
    let s_ref_aii2_2 = Node::new_ref("a", vec![n], vec![iv(0)]);
    let mut i_loop_ref = Node::new_single_loop_general("i", LoopBound::Fixed(0), LoopBound::Fixed(ubound));
    Node::extend_loop_body(&mut i_loop_ref, j_loop_ref);
    Node::extend_loop_body(&mut i_loop_ref, k2_loop_ref);
    Node::extend_loop_body(&mut i_loop_ref, s_ref_aii2);
    Node::extend_loop_body(&mut i_loop_ref, s_ref_aii2_2);
    i_loop_ref
}

/// The loop tree of gram-Schmidt process over arrays flattened by hand.
pub fn gramschmidt_trace(n: usize, m: usize) -> (r: Node)
    requires
        n <= 0x7fff_0000,
        m <= 0x7fff_0000,
    ensures
        r.stmt is Loop,
        crate::ast::count_nodes(r) == 21,
{
    let s_ref_a1 = Node::new_ref("a1", vec![n], vec![Affine { constant: 0, terms: vec![(1, n as i32), (0, 1)] }]);
    let s_ref_a1_2 = Node::new_ref("a1", vec![n], vec![Affine { constant: 0, terms: vec![(1, n as i32), (0, 1)] }]);
    let mut i_loop_ref = Node::new_single_loop_general("i", LoopBound::Fixed(0), LoopBound::Fixed(m as i32));
    Node::extend_loop_body(&mut i_loop_ref, s_ref_a1);
    Node::extend_loop_body(&mut i_loop_ref, s_ref_a1_2);
    let s_ref_r1 = Node::new_ref("r1", vec![n], vec![Affine { constant: 0, terms: vec![(0, n as i32), (0, 1)] }]);
    let s_ref_a2 = Node::new_ref("a2", vec![n], vec![Affine { constant: 0, terms: vec![(1, n as i32), (0, 1)] }]);
    let s_ref_r1_copy = Node::new_ref("r1", vec![n], vec![Affine { constant: 0, terms: vec![(0, n as i32), (0, 1)] }]);
    let s_ref_q1 = Node::new_ref("q1", vec![n], vec![Affine { constant: 0, terms: vec![(1, n as i32), (0, 1)] }]);
    let mut i_loop_ref2 = Node::new_single_loop_general("i", LoopBound::Fixed(0), LoopBound::Fixed(m as i32));
    Node::extend_loop_body(&mut i_loop_ref2, s_ref_a2);
    Node::extend_loop_body(&mut i_loop_ref2, s_ref_r1_copy);
    Node::extend_loop_body(&mut i_loop_ref2, s_ref_q1);
    let s_ref_r2 = Node::new_ref("r2", vec![n], vec![Affine { constant: 0, terms: vec![(0, n as i32), (1, 1)] }]);
    let s_ref_q2 = Node::new_ref("q2", vec![n], vec![Affine { constant: 0, terms: vec![(2, n as i32), (0, 1)] }]);
    let s_ref_a3 = Node::new_ref("a3", vec![n], vec![Affine { constant: 0, terms: vec![(2, n as i32), (1, 1)] }]);
    let s_ref_r3 = Node::new_ref("r3", vec![n], vec![Affine { constant: 0, terms: vec![(0, n as i32), (1, 1)] }]);
    let s_ref_r3_2 = Node::new_ref("r3", vec![n], vec![Affine { constant: 0, terms: vec![(0, n as i32), (1, 1)] }]);
    let mut i_loop_ref3 = Node::new_single_loop_general("i", LoopBound::Fixed(0), LoopBound::Fixed(m as i32));
    Node::extend_loop_body(&mut i_loop_ref3, s_ref_q2);
    Node::extend_loop_body(&mut i_loop_ref3, s_ref_a3);
    Node::extend_loop_body(&mut i_loop_ref3, s_ref_r3);
    Node::extend_loop_body(&mut i_loop_ref3, s_ref_r3_2);
    let s_ref_a3_2 = Node::new_ref("a3", vec![n], vec![Affine { constant: 0, terms: vec![(2, n as i32), (1, 1)] }]);
    let s_ref_q2_2 = Node::new_ref("q2", vec![n], vec![Affine { constant: 0, terms: vec![(2, n as i32), (0, 1)] }]);
    let s_ref_r3_3 = Node::new_ref("r3", vec![n], vec![Affine { constant: 0, terms: vec![(0, n as i32), (1, 1)] }]);
    let s_ref_a3_3 = Node::new_ref("a3", vec![n], vec![Affine { constant: 0, terms: vec![(2, n as i32), (1, 1)] }]);
    let mut i_loop_ref4 = Node::new_single_loop_general("i", LoopBound::Fixed(0), LoopBound::Fixed(m as i32));
    Node::extend_loop_body(&mut i_loop_ref4, s_ref_a3_2);
    Node::extend_loop_body(&mut i_loop_ref4, s_ref_q2_2);
    Node::extend_loop_body(&mut i_loop_ref4, s_ref_r3_3);
    Node::extend_loop_body(&mut i_loop_ref4, s_ref_a3_3);
    let mut j_loop_ref = Node::new_single_loop_general("j", LoopBound::Dynamic(iv_plus(0, 1)), LoopBound::Fixed(n as i32));
    Node::extend_loop_body(&mut j_loop_ref, s_ref_r2);
    Node::extend_loop_body(&mut j_loop_ref, i_loop_ref3);
    Node::extend_loop_body(&mut j_loop_ref, i_loop_ref4);
    let mut k_loop_ref = Node::new_single_loop_general("k", LoopBound::Fixed(0), LoopBound::Fixed(n as i32));
    Node::extend_loop_body(&mut k_loop_ref, i_loop_ref);
    Node::extend_loop_body(&mut k_loop_ref, s_ref_r1);
    Node::extend_loop_body(&mut k_loop_ref, i_loop_ref2);
    Node::extend_loop_body(&mut k_loop_ref, j_loop_ref);
    k_loop_ref
}

/// The loop tree of heat equation over an n x n x n grid for m time steps.
pub fn heat_3d(m: usize, n: usize) -> (r: Node)
    requires
        m <= 0x7fff_0000,
        n <= 0x7fff_0000,
    ensures
        r.stmt is Loop,
        crate::ast::count_nodes(r) == 29,
{
    let ubound: i32 = n as i32;
    let tsteps: i32 = m as i32;
    let s_ref_a_1 = Node::new_ref("A", vec![n, n, n], vec![iv_plus(0, 1), iv(1), iv(2)]);
    let s_ref_a_2 = Node::new_ref("A", vec![n, n, n], vec![iv(0), iv(1), iv(2)]);
    let s_ref_a_3 = Node::new_ref("A", vec![n, n, n], vec![iv_plus(0, -1), iv(1), iv(2)]);
    let s_ref_a_4 = Node::new_ref("A", vec![n, n, n], vec![iv(0), iv_plus(1, 1), iv(2)]);
    let s_ref_a_5 = Node::new_ref("A", vec![n, n, n], vec![iv(0), iv(1), iv(2)]);
    let s_ref_a_6 = Node::new_ref("A", vec![n, n, n], vec![iv(0), iv_plus(1, -1), iv(2)]);
    let s_ref_a_7 = Node::new_ref("A", vec![n, n, n], vec![iv(0), iv(1), iv_plus(2, 1)]);
    let s_ref_a_8 = Node::new_ref("A", vec![n, n, n], vec![iv(0), iv(1), iv(2)]);
    let s_ref_a_9 = Node::new_ref("A", vec![n, n, n], vec![iv(0), iv(1), iv_plus(2, -1)]);
    let s_ref_a_10 = Node::new_ref("A", vec![n, n, n], vec![iv(0), iv(1), iv(2)]);
    let s_ref_b = Node::new_ref("B", vec![n, n, n], vec![iv(0), iv(1), iv(2)]);
    let mut k_loop_ref_1 = Node::new_single_loop_general("k_1", LoopBound::Fixed(0), LoopBound::Fixed(ubound));
    Node::extend_loop_body(&mut k_loop_ref_1, s_ref_a_1);
    Node::extend_loop_body(&mut k_loop_ref_1, s_ref_a_2);
    Node::extend_loop_body(&mut k_loop_ref_1, s_ref_a_3);
    Node::extend_loop_body(&mut k_loop_ref_1, s_ref_a_4);
    Node::extend_loop_body(&mut k_loop_ref_1, s_ref_a_5);
    Node::extend_loop_body(&mut k_loop_ref_1, s_ref_a_6);
    Node::extend_loop_body(&mut k_loop_ref_1, s_ref_a_7);
    Node::extend_loop_body(&mut k_loop_ref_1, s_ref_a_8);
    Node::extend_loop_body(&mut k_loop_ref_1, s_ref_a_9);
    Node::extend_loop_body(&mut k_loop_ref_1, s_ref_a_10);
    Node::extend_loop_body(&mut k_loop_ref_1, s_ref_b);
    let mut j_loop_ref_1 = Node::new_single_loop_general("j_1", LoopBound::Fixed(0), LoopBound::Fixed(ubound));
    Node::extend_loop_body(&mut j_loop_ref_1, k_loop_ref_1);
    let mut i_loop_ref_1 = Node::new_single_loop_general("i_1", LoopBound::Fixed(0), LoopBound::Fixed(ubound));
    Node::extend_loop_body(&mut i_loop_ref_1, j_loop_ref_1);
    let s_ref_b_1 = Node::new_ref("B", vec![n, n, n], vec![iv_plus(0, 1), iv(1), iv(2)]);
    let s_ref_b_2 = Node::new_ref("B", vec![n, n, n], vec![iv(0), iv(1), iv(2)]);
    let s_ref_b_3 = Node::new_ref("B", vec![n, n, n], vec![iv_plus(0, -1), iv(1), iv(2)]);
    let s_ref_b_4 = Node::new_ref("B", vec![n, n, n], vec![iv(0), iv_plus(1, 1), iv(2)]);
    let s_ref_b_5 = Node::new_ref("B", vec![n, n, n], vec![iv(0), iv(1), iv(2)]);
    let s_ref_b_6 = Node::new_ref("B", vec![n, n, n], vec![iv(0), iv_plus(1, -1), iv(2)]);
    let s_ref_b_7 = Node::new_ref("B", vec![n, n, n], vec![iv(0), iv(1), iv_plus(2, 1)]);
    let s_ref_b_8 = Node::new_ref("B", vec![n, n, n], vec![iv(0), iv(1), iv(2)]);
    let s_ref_b_9 = Node::new_ref("B", vec![n, n, n], vec![iv(0), iv(1), iv_plus(2, -1)]);
    let s_ref_b_10 = Node::new_ref("B", vec![n, n, n], vec![iv(0), iv(1), iv(2)]);
    let s_ref_a = Node::new_ref("A", vec![n, n, n], vec![iv(0), iv(1), iv(2)]);
    let mut k_loop_ref_2 = Node::new_single_loop_general("k_2", LoopBound::Fixed(0), LoopBound::Fixed(ubound));
    Node::extend_loop_body(&mut k_loop_ref_2, s_ref_b_1);
    Node::extend_loop_body(&mut k_loop_ref_2, s_ref_b_2);
    Node::extend_loop_body(&mut k_loop_ref_2, s_ref_b_3);
    Node::extend_loop_body(&mut k_loop_ref_2, s_ref_b_4);
    Node::extend_loop_body(&mut k_loop_ref_2, s_ref_b_5);
    Node::extend_loop_body(&mut k_loop_ref_2, s_ref_b_6);
    Node::extend_loop_body(&mut k_loop_ref_2, s_ref_b_7);
    Node::extend_loop_body(&mut k_loop_ref_2, s_ref_b_8);
    Node::extend_loop_body(&mut k_loop_ref_2, s_ref_b_9);
    Node::extend_loop_body(&mut k_loop_ref_2, s_ref_b_10);
    Node::extend_loop_body(&mut k_loop_ref_2, s_ref_a);
    let mut j_loop_ref_2 = Node::new_single_loop_general("j_2", LoopBound::Fixed(0), LoopBound::Fixed(ubound));
    Node::extend_loop_body(&mut j_loop_ref_2, k_loop_ref_2);
    let mut i_loop_ref_2 = Node::new_single_loop_general("i_2", LoopBound::Fixed(0), LoopBound::Fixed(ubound));
    Node::extend_loop_body(&mut i_loop_ref_2, j_loop_ref_2);
    let mut t_loop_ref = Node::new_single_loop_general("t", LoopBound::Fixed(0), LoopBound::Fixed(tsteps));
    Node::extend_loop_body(&mut t_loop_ref, i_loop_ref_1);
    Node::extend_loop_body(&mut t_loop_ref, i_loop_ref_2);
    t_loop_ref
}

/// The loop tree of two-dimensional convolution over the interior of an ni x nj grid.
pub fn convolution_2d(ni: usize, nj: usize) -> (r: Node)
    requires
        1 <= ni <= 0x7fff_0000,
        1 <= nj <= 0x7fff_0000,
    ensures
        r.stmt is Block,
        crate::ast::count_nodes(r) == 5,
{
    let mat_a_ref = Node::new_ref("A", vec![ni, nj], vec![iv(0), iv(1)]);
    let mat_b_ref = Node::new_ref("B", vec![ni, nj], vec![iv(0), iv(1)]);
    let mut j_nj_loop_ref = Node::new_single_loop_general("j", LoopBound::Fixed(1), LoopBound::Fixed((nj - 1) as i32));
    Node::extend_loop_body(&mut j_nj_loop_ref, mat_a_ref);
    Node::extend_loop_body(&mut j_nj_loop_ref, mat_b_ref);
    let mut i_ni_loop_ref = Node::new_single_loop_general("i", LoopBound::Fixed(1), LoopBound::Fixed((ni - 1) as i32));
    Node::extend_loop_body(&mut i_ni_loop_ref, j_nj_loop_ref);
    let ghost c4_0 = crate::ast::count_nodes(i_ni_loop_ref);
    let kids4 = vec![i_ni_loop_ref];
    proof {
        assert(crate::ast::count_list(kids4, 1) == 0);
        assert(crate::ast::count_list(kids4, 0) == c4_0 + crate::ast::count_list(kids4, 1));
    }
    let root = Node::new_node(Stmt::Block(kids4));
    root
}

/// The loop tree of symmetric matrix multiply.
pub fn symm(n: usize, m: usize) -> (r: Node)
    requires
        n <= 0x7fff_0000,
        m <= 0x7fff_0000,
    ensures
        r.stmt is Loop,
        crate::ast::count_nodes(r) == 13,
{
    let ubound1: i32 = n as i32;
    let ubound2: i32 = m as i32;
    let s_ref_b1 = Node::new_ref("b1", vec![m, n], vec![iv(0), iv(1)]);
    let s_ref_a1 = Node::new_ref("a1", vec![m, m], vec![iv(0), iv(2)]);
    let s_ref_c1 = Node::new_ref("c1", vec![m, n], vec![iv(2), iv(1)]);
    let s_ref_c2 = Node::new_ref("c2", vec![m, n], vec![iv(2), iv(1)]);
    let s_ref_b2 = Node::new_ref("b2", vec![m, n], vec![iv(2), iv(1)]);
    let s_ref_a2 = Node::new_ref("a2", vec![m, m], vec![iv(0), iv(2)]);
    let mut k_loop_ref = Node::new_single_loop_general("k", LoopBound::Fixed(0), LoopBound::Dynamic(iv(0)));
    Node::extend_loop_body(&mut k_loop_ref, s_ref_b1);
    Node::extend_loop_body(&mut k_loop_ref, s_ref_a1);
    Node::extend_loop_body(&mut k_loop_ref, s_ref_c1);
    Node::extend_loop_body(&mut k_loop_ref, s_ref_c2);
    Node::extend_loop_body(&mut k_loop_ref, s_ref_b2);
    Node::extend_loop_body(&mut k_loop_ref, s_ref_a2);
    let s_ref_c3 = Node::new_ref("c3", vec![m, n], vec![iv(0), iv(1)]);
    let s_ref_b3 = Node::new_ref("b3", vec![m, n], vec![iv(0), iv(1)]);
    let s_ref_a3 = Node::new_ref("a3", vec![m, m], vec![iv(0), iv(0)]);
    let s_ref_c4 = Node::new_ref("c4", vec![m, n], vec![iv(0), iv(1)]);
    let mut j_loop_ref = Node::new_single_loop_general("j", LoopBound::Fixed(0), LoopBound::Fixed(ubound1));
    Node::extend_loop_body(&mut j_loop_ref, k_loop_ref);
    Node::extend_loop_body(&mut j_loop_ref, s_ref_c3);
    Node::extend_loop_body(&mut j_loop_ref, s_ref_b3);
    Node::extend_loop_body(&mut j_loop_ref, s_ref_a3);
    Node::extend_loop_body(&mut j_loop_ref, s_ref_c4);
    let mut i_loop_ref = Node::new_single_loop_general("i", LoopBound::Fixed(0), LoopBound::Fixed(ubound2));
    Node::extend_loop_body(&mut i_loop_ref, j_loop_ref);
    i_loop_ref
}

/// The loop tree of five-point stencil over an n x n grid.
pub fn stencil(n: usize) -> (r: Node)
    requires
        n <= 0x7fff_0000,
    ensures
        r.stmt is Loop,
        crate::ast::count_nodes(r) == 8,
{
    let ubound: i32 = n as i32;
    let s_ref_a1 = Node::new_ref("a1", vec![n, n], vec![iv(0), iv(1)]);
    let s_ref_a2 = Node::new_ref("a2", vec![n, n], vec![iv(0), iv(1)]);
    let s_ref_a3 = Node::new_ref("a3", vec![n, n], vec![iv(0), iv(1)]);
    let s_ref_a4 = Node::new_ref("a4", vec![n, n], vec![iv(0), iv(1)]);
    let s_ref_a5 = Node::new_ref("a5", vec![n, n], vec![iv(0), iv(1)]);
    let s_ref_b = Node::new_ref("b", vec![n, n], vec![iv(0), iv(1)]);
    let mut j_loop_ref = Node::new_single_loop_general("j", LoopBound::Fixed(0), LoopBound::Fixed(ubound + 1));
    Node::extend_loop_body(&mut j_loop_ref, s_ref_a1);
    Node::extend_loop_body(&mut j_loop_ref, s_ref_a2);
    Node::extend_loop_body(&mut j_loop_ref, s_ref_a3);
    Node::extend_loop_body(&mut j_loop_ref, s_ref_a4);
    Node::extend_loop_body(&mut j_loop_ref, s_ref_a5);
    Node::extend_loop_body(&mut j_loop_ref, s_ref_b);
    let mut i_loop_ref = Node::new_single_loop_general("i", LoopBound::Fixed(0), LoopBound::Fixed(ubound + 1));
    Node::extend_loop_body(&mut i_loop_ref, j_loop_ref);
    i_loop_ref
}

/// The loop tree of gauss-Seidel sweeps over an n x n grid for m time steps.
pub fn seidel_2d(m: usize, n: usize) -> (r: Node)
    requires
        m <= 0x7fff_0000,
        n <= 0x7fff_0000,
    ensures
        r.stmt is Loop,
        crate::ast::count_nodes(r) == 13,
{
    let ubound: i32 = n as i32;
    let tsteps: i32 = m as i32;
    let s_ref_a1 = Node::new_ref("a1", vec![n, n], vec![iv(1), iv(2)]);
    let s_ref_a2 = Node::new_ref("a2", vec![n, n], vec![iv(1), iv(2)]);
    let s_ref_a3 = Node::new_ref("a3", vec![n, n], vec![iv(1), iv(2)]);
    let s_ref_a4 = Node::new_ref("a4", vec![n, n], vec![iv(1), iv(2)]);
    let s_ref_a5 = Node::new_ref("a5", vec![n, n], vec![iv(1), iv(2)]);
    let s_ref_a6 = Node::new_ref("a6", vec![n, n], vec![iv(1), iv(2)]);
    let s_ref_a7 = Node::new_ref("a7", vec![n, n], vec![iv(1), iv(2)]);
    let s_ref_a8 = Node::new_ref("a8", vec![n, n], vec![iv(1), iv(2)]);
    let s_ref_a9 = Node::new_ref("a9", vec![n, n], vec![iv(1), iv(2)]);
    let s_ref_a0 = Node::new_ref("a0", vec![n, n], vec![iv(1), iv(2)]);
    let mut j_loop_ref = Node::new_single_loop_general("j", LoopBound::Fixed(1), LoopBound::Fixed(ubound - 2));
    Node::extend_loop_body(&mut j_loop_ref, s_ref_a1);
    Node::extend_loop_body(&mut j_loop_ref, s_ref_a2);
    Node::extend_loop_body(&mut j_loop_ref, s_ref_a3);
    Node::extend_loop_body(&mut j_loop_ref, s_ref_a4);
    Node::extend_loop_body(&mut j_loop_ref, s_ref_a5);
    Node::extend_loop_body(&mut j_loop_ref, s_ref_a6);
    Node::extend_loop_body(&mut j_loop_ref, s_ref_a7);
    Node::extend_loop_body(&mut j_loop_ref, s_ref_a8);
    Node::extend_loop_body(&mut j_loop_ref, s_ref_a9);
    Node::extend_loop_body(&mut j_loop_ref, s_ref_a0);
    let mut i_loop_ref = Node::new_single_loop_general("i", LoopBound::Fixed(1), LoopBound::Fixed(ubound - 2));
    Node::extend_loop_body(&mut i_loop_ref, j_loop_ref);
    let mut t_loop_ref = Node::new_single_loop_general("t", LoopBound::Fixed(0), LoopBound::Fixed(tsteps - 1));
    Node::extend_loop_body(&mut t_loop_ref, i_loop_ref);
    t_loop_ref
}

/// The loop tree of lU decomposition followed by forward and back substitution.
pub fn ludcmp(n: usize) -> (r: Node)
    requires
        n <= 0x7fff_0000,
    ensures
        r.stmt is Block,
        crate::ast::count_nodes(r) == 28,
{
    let ubound: i32 = n as i32;
    let s_ref_a1 = Node::new_ref("a1", vec![n, n], vec![iv(0), iv(1)]);
    let s_ref_a2 = Node::new_ref("a2", vec![n, n], vec![iv(0), iv(2)]);
    let s_ref_a3 = Node::new_ref("a3", vec![n, n], vec![iv(2), iv(1)]);
    let mut k_loop_upper = Node::new_single_loop_general("k", LoopBound::Fixed(0), LoopBound::Dynamic(iv(0)));
    Node::extend_loop_body(&mut k_loop_upper, s_ref_a2);
    Node::extend_loop_body(&mut k_loop_upper, s_ref_a3);
    let s_ref_a4 = Node::new_ref("a4", vec![n, n], vec![iv(1), iv(1)]);
    let s_ref_a5 = Node::new_ref("a5", vec![n, n], vec![iv(0), iv(1)]);
    let mut j_loop_upper = Node::new_single_loop_general("j", LoopBound::Fixed(0), LoopBound::Dynamic(iv(0)));
    Node::extend_loop_body(&mut j_loop_upper, s_ref_a1);
    Node::extend_loop_body(&mut j_loop_upper, k_loop_upper);
    Node::extend_loop_body(&mut j_loop_upper, s_ref_a4);
    Node::extend_loop_body(&mut j_loop_upper, s_ref_a5);
    let s_ref_a6 = Node::new_ref("a6", vec![n, n], vec![iv(0), iv(1)]);
    let s_ref_a7 = Node::new_ref("a7", vec![n, n], vec![iv(0), iv(2)]);
    let s_ref_a8 = Node::new_ref("a8", vec![n, n], vec![iv(2), iv(1)]);
    let mut k_loop_lower = Node::new_single_loop_general("k", LoopBound::Fixed(0), LoopBound::Dynamic(iv(0)));
    Node::extend_loop_body(&mut k_loop_lower, s_ref_a7);
    Node::extend_loop_body(&mut k_loop_lower, s_ref_a8);
    let s_ref_a9 = Node::new_ref("a9", vec![n, n], vec![iv(0), iv(1)]);
    let mut j_loop_lower = Node::new_single_loop_general("j", LoopBound::Dynamic(iv(0)), LoopBound::Fixed(ubound));
    Node::extend_loop_body(&mut j_loop_lower, s_ref_a6);
    Node::extend_loop_body(&mut j_loop_lower, k_loop_lower);
    Node::extend_loop_body(&mut j_loop_lower, s_ref_a9);
    let mut i_loop_upper = Node::new_single_loop_general("i", LoopBound::Fixed(0), LoopBound::Fixed(ubound));
    Node::extend_loop_body(&mut i_loop_upper, j_loop_upper);
    Node::extend_loop_body(&mut i_loop_upper, j_loop_lower);
    let s_ref_b1 = Node::new_ref("b1", vec![n], vec![iv(0)]);
    let s_ref_a10 = Node::new_ref("a10", vec![n, n], vec![iv(0), iv(1)]);
    let s_ref_y1 = Node::new_ref("y1", vec![n], vec![iv(1)]);
    let mut j_loop2 = Node::new_single_loop_general("j", LoopBound::Fixed(0), LoopBound::Dynamic(iv(0)));
    Node::extend_loop_body(&mut j_loop2, s_ref_a10);
    Node::extend_loop_body(&mut j_loop2, s_ref_y1);
    let s_ref_y2 = Node::new_ref("y2", vec![n], vec![iv(0)]);
    let mut i_loop_middle = Node::new_single_loop_general("i", LoopBound::Fixed(0), LoopBound::Fixed(ubound));
    Node::extend_loop_body(&mut i_loop_middle, s_ref_b1);
    Node::extend_loop_body(&mut i_loop_middle, j_loop2);
    Node::extend_loop_body(&mut i_loop_middle, s_ref_y2);
    let s_ref_y3 = Node::new_ref("y3", vec![n], vec![iv(0)]);
    let s_ref_a11 = Node::new_ref("a11", vec![n, n], vec![iv(0), iv(1)]);
    let s_ref_x1 = Node::new_ref("x1", vec![n], vec![iv(1)]);
    let mut j_loop3 = Node::new_single_loop_general("j", LoopBound::Dynamic(iv_plus(0, 1)), LoopBound::Fixed(ubound));
    Node::extend_loop_body(&mut j_loop3, s_ref_a11);
    Node::extend_loop_body(&mut j_loop3, s_ref_x1);
    let s_ref_a12 = Node::new_ref("a12", vec![n, n], vec![iv(0), iv(0)]);
    let s_ref_x2 = Node::new_ref("x2", vec![n], vec![iv(0)]);
    let mut i_loop_lower = Node::new_single_loop_general("i", LoopBound::Fixed(ubound-1), LoopBound::Fixed(0));
    Node::extend_loop_body(&mut i_loop_lower, s_ref_y3);
    Node::extend_loop_body(&mut i_loop_lower, j_loop3);
    Node::extend_loop_body(&mut i_loop_lower, s_ref_a12);
    Node::extend_loop_body(&mut i_loop_lower, s_ref_x2);
    let ghost c5_0 = crate::ast::count_nodes(i_loop_upper);
    let ghost c5_1 = crate::ast::count_nodes(i_loop_middle);
    let ghost c5_2 = crate::ast::count_nodes(i_loop_lower);
    let kids5 = vec![i_loop_upper, i_loop_middle, i_loop_lower];
    proof {
        assert(crate::ast::count_list(kids5, 3) == 0);
        assert(crate::ast::count_list(kids5, 2) == c5_2 + crate::ast::count_list(kids5, 3));
        assert(crate::ast::count_list(kids5, 1) == c5_1 + crate::ast::count_list(kids5, 2));
        assert(crate::ast::count_list(kids5, 0) == c5_0 + crate::ast::count_list(kids5, 1));
    }
    let root = Node::new_node(Stmt::Block(kids5));
    root
}

/// The loop tree of one-dimensional Jacobi sweeps for m time steps.
pub fn jacobi_1d(m: usize, n: usize) -> (r: Node)
    requires
        m <= 0x7fff_0000,
        n <= 0x7fff_0000,
    ensures
        r.stmt is Loop,
        crate::ast::count_nodes(r) == 11,
{
    let ubound: i32 = n as i32;
    let tsteps: i32 = m as i32;
    let s_ref_a1 = Node::new_ref("a1", vec![n], vec![iv_plus(1, -1)]);
    let s_ref_a2 = Node::new_ref("a2", vec![n], vec![iv(1)]);
    let s_ref_a3 = Node::new_ref("a3", vec![n], vec![iv_plus(1, 1)]);
    let s_ref_b1 = Node::new_ref("b1", vec![n], vec![iv(1)]);
    let mut i_loop1 = Node::new_single_loop_general("i", LoopBound::Fixed(1), LoopBound::Fixed(ubound - 1));
    Node::extend_loop_body(&mut i_loop1, s_ref_a1);
    Node::extend_loop_body(&mut i_loop1, s_ref_a2);
    Node::extend_loop_body(&mut i_loop1, s_ref_a3);
    Node::extend_loop_body(&mut i_loop1, s_ref_b1);
    let s_ref_b2 = Node::new_ref("b2", vec![n], vec![iv_plus(1, -1)]);
    let s_ref_b3 = Node::new_ref("b3", vec![n], vec![iv(1)]);
    let s_ref_b4 = Node::new_ref("b4", vec![n], vec![iv_plus(1, 1)]);
    let s_ref_a4 = Node::new_ref("a4", vec![n], vec![iv(1)]);
    let mut i_loop2 = Node::new_single_loop_general("i", LoopBound::Fixed(1), LoopBound::Fixed(ubound - 1));
    Node::extend_loop_body(&mut i_loop2, s_ref_b2);
    Node::extend_loop_body(&mut i_loop2, s_ref_b3);
    Node::extend_loop_body(&mut i_loop2, s_ref_b4);
    Node::extend_loop_body(&mut i_loop2, s_ref_a4);
    let mut t_loop = Node::new_single_loop_general("t", LoopBound::Fixed(0), LoopBound::Fixed(tsteps));
    Node::extend_loop_body(&mut t_loop, i_loop1);
    Node::extend_loop_body(&mut t_loop, i_loop2);
    t_loop
}

/// The loop tree of two-dimensional Jacobi sweeps for m time steps.
pub fn jacobi_2d(m: usize, n: usize) -> (r: Node)
    requires
        m <= 0x7fff_0000,
        n <= 0x7fff_0000,
    ensures
        r.stmt is Loop,
        crate::ast::count_nodes(r) == 17,
{
    let ubound: i32 = n as i32;
    let tsteps: i32 = m as i32;
    let s_ref_a1 = Node::new_ref("a1", vec![n, n], vec![iv(1), iv(2)]);
    let s_ref_a2 = Node::new_ref("a2", vec![n, n], vec![iv(1), iv_plus(2, -1)]);
    let s_ref_a3 = Node::new_ref("a3", vec![n, n], vec![iv(1), iv_plus(2, 1)]);
    let s_ref_a4 = Node::new_ref("a4", vec![n, n], vec![iv_plus(1, 1), iv(2)]);
    let s_ref_a5 = Node::new_ref("a5", vec![n, n], vec![iv_plus(1, -1), iv(2)]);
    let s_ref_b1 = Node::new_ref("b1", vec![n, n], vec![iv(1), iv(2)]);
    let mut j_loop1 = Node::new_single_loop_general("j", LoopBound::Fixed(1), LoopBound::Fixed(ubound - 1));
    Node::extend_loop_body(&mut j_loop1, s_ref_a1);
    Node::extend_loop_body(&mut j_loop1, s_ref_a2);
    Node::extend_loop_body(&mut j_loop1, s_ref_a3);
    Node::extend_loop_body(&mut j_loop1, s_ref_a4);
    Node::extend_loop_body(&mut j_loop1, s_ref_a5);
    Node::extend_loop_body(&mut j_loop1, s_ref_b1);
    let mut i_loop1 = Node::new_single_loop_general("j", LoopBound::Fixed(1), LoopBound::Fixed(ubound - 1));
    Node::extend_loop_body(&mut i_loop1, j_loop1);
    let s_ref_b2 = Node::new_ref("b2", vec![n, n], vec![iv(1), iv(2)]);
    let s_ref_b3 = Node::new_ref("b3", vec![n, n], vec![iv(1), iv_plus(2, -1)]);
    let s_ref_b4 = Node::new_ref("b4", vec![n, n], vec![iv(1), iv_plus(2, 1)]);
    let s_ref_b5 = Node::new_ref("b5", vec![n, n], vec![iv_plus(1, 1), iv(2)]);
    let s_ref_b6 = Node::new_ref("b6", vec![n, n], vec![iv_plus(1, -1), iv(2)]);
    let s_ref_a6 = Node::new_ref("a6", vec![n, n], vec![iv(1), iv(2)]);
    let mut j_loop2 = Node::new_single_loop_general("j", LoopBound::Fixed(1), LoopBound::Fixed(ubound - 1));
    Node::extend_loop_body(&mut j_loop2, s_ref_b2);
    Node::extend_loop_body(&mut j_loop2, s_ref_b3);
    Node::extend_loop_body(&mut j_loop2, s_ref_b4);
    Node::extend_loop_body(&mut j_loop2, s_ref_b5);
    Node::extend_loop_body(&mut j_loop2, s_ref_b6);
    Node::extend_loop_body(&mut j_loop2, s_ref_a6);
    let mut i_loop2 = Node::new_single_loop_general("j", LoopBound::Fixed(1), LoopBound::Fixed(ubound - 1));
    Node::extend_loop_body(&mut i_loop2, j_loop2);
    let mut t_loop = Node::new_single_loop_general("t", LoopBound::Fixed(0), LoopBound::Fixed(tsteps));
    Node::extend_loop_body(&mut t_loop, i_loop1);
    Node::extend_loop_body(&mut t_loop, i_loop2);
    t_loop
}

/// The loop tree of scalar, vector and matrix multiplication.
pub fn gesummv(n: usize) -> (r: Node)
    requires
        n <= 0x7fff_0000,
    ensures
        r.stmt is Loop,
        crate::ast::count_nodes(r) == 15,
{
    let ubound: i32 = n as i32;
    let s_ref_tmp1 = Node::new_ref("tmp1", vec![n], vec![iv(0)]);
    let s_ref_y1 = Node::new_ref("y1", vec![n], vec![iv(0)]);
    let s_ref_a = Node::new_ref("a", vec![n, n], vec![iv(0), iv(1)]);
    let s_ref_x1 = Node::new_ref("x1", vec![n], vec![iv(1)]);
    let s_ref_tmp2 = Node::new_ref("tmp2", vec![n], vec![iv(0)]);
    let s_ref_tmp3 = Node::new_ref("tmp3", vec![n], vec![iv(0)]);
    let s_ref_b = Node::new_ref("b", vec![n, n], vec![iv(0), iv(1)]);
    let s_ref_x2 = Node::new_ref("x2", vec![n], vec![iv(1)]);
    let s_ref_y2 = Node::new_ref("y2", vec![n], vec![iv(0)]);
    let s_ref_y3 = Node::new_ref("y3", vec![n], vec![iv(0)]);
    let mut j_loop = Node::new_single_loop_general("j", LoopBound::Fixed(0), LoopBound::Fixed(ubound));
    Node::extend_loop_body(&mut j_loop, s_ref_a);
    Node::extend_loop_body(&mut j_loop, s_ref_x1);
    Node::extend_loop_body(&mut j_loop, s_ref_tmp2);
    Node::extend_loop_body(&mut j_loop, s_ref_tmp3);
    Node::extend_loop_body(&mut j_loop, s_ref_b);
    Node::extend_loop_body(&mut j_loop, s_ref_x2);
    Node::extend_loop_body(&mut j_loop, s_ref_y2);
    Node::extend_loop_body(&mut j_loop, s_ref_y3);
    let s_ref_tmp4 = Node::new_ref("tmp4", vec![n], vec![iv(0)]);
    let s_ref_y4 = Node::new_ref("y4", vec![n], vec![iv(0)]);
    let s_ref_y5 = Node::new_ref("y5", vec![n], vec![iv(0)]);
    let mut i_loop = Node::new_single_loop_general("i", LoopBound::Fixed(0), LoopBound::Fixed(ubound));
    Node::extend_loop_body(&mut i_loop, s_ref_tmp1);
    Node::extend_loop_body(&mut i_loop, s_ref_y1);
    Node::extend_loop_body(&mut i_loop, j_loop);
    Node::extend_loop_body(&mut i_loop, s_ref_tmp4);
    Node::extend_loop_body(&mut i_loop, s_ref_y4);
    Node::extend_loop_body(&mut i_loop, s_ref_y5);
    i_loop
}

/// The loop tree of vector multiplication and matrix addition.
pub fn gemver(n: usize) -> (r: Node)
    requires
        n <= 0x7fff_0000,
    ensures
        r.stmt is Block,
        crate::ast::count_nodes(r) == 25,
{
    let ubound: i32 = n as i32;
    let s_ref_a1 = Node::new_ref("a1", vec![n, n], vec![iv(0), iv(1)]);
    let s_ref_u1 = Node::new_ref("u1", vec![n], vec![iv(0)]);
    let s_ref_v1 = Node::new_ref("v1", vec![n], vec![iv(1)]);
    let s_ref_u2 = Node::new_ref("u2", vec![n], vec![iv(0)]);
    let s_ref_v2 = Node::new_ref("v2", vec![n, n], vec![iv(1)]);
    let s_ref_a2 = Node::new_ref("a2", vec![n, n], vec![iv(0), iv(1)]);
    let mut j_loop1 = Node::new_single_loop_general("j", LoopBound::Fixed(0), LoopBound::Fixed(ubound));
    Node::extend_loop_body(&mut j_loop1, s_ref_a1);
    Node::extend_loop_body(&mut j_loop1, s_ref_u1);
    Node::extend_loop_body(&mut j_loop1, s_ref_v1);
    Node::extend_loop_body(&mut j_loop1, s_ref_u2);
    Node::extend_loop_body(&mut j_loop1, s_ref_v2);
    Node::extend_loop_body(&mut j_loop1, s_ref_a2);
    let mut i_loop1 = Node::new_single_loop_general("i", LoopBound::Fixed(0), LoopBound::Fixed(ubound));
    Node::extend_loop_body(&mut i_loop1, j_loop1);
    let s_ref_x1 = Node::new_ref("x1", vec![n], vec![iv(0)]);
    let s_ref_a3 = Node::new_ref("a3", vec![n, n], vec![iv(1), iv(0)]);
    let s_ref_y = Node::new_ref("y", vec![n], vec![iv(1)]);
    let s_ref_x2 = Node::new_ref("x2", vec![n], vec![iv(0)]);
    let mut j_loop2 = Node::new_single_loop_general("j", LoopBound::Fixed(0), LoopBound::Fixed(ubound));
    Node::extend_loop_body(&mut j_loop2, s_ref_x1);
    Node::extend_loop_body(&mut j_loop2, s_ref_a3);
    Node::extend_loop_body(&mut j_loop2, s_ref_y);
    Node::extend_loop_body(&mut j_loop2, s_ref_x2);
    let mut i_loop2 = Node::new_single_loop_general("i", LoopBound::Fixed(0), LoopBound::Fixed(ubound));
    Node::extend_loop_body(&mut i_loop2, j_loop2);
    let s_ref_x3 = Node::new_ref("x3", vec![n], vec![iv(0)]);
    let s_ref_z = Node::new_ref("z", vec![n], vec![iv(0)]);
    let s_ref_x4 = Node::new_ref("x4", vec![n], vec![iv(0)]);
    let mut i_loop3 = Node::new_single_loop_general("i", LoopBound::Fixed(0), LoopBound::Fixed(ubound));
    Node::extend_loop_body(&mut i_loop3, s_ref_x3);
    Node::extend_loop_body(&mut i_loop3, s_ref_z);
    Node::extend_loop_body(&mut i_loop3, s_ref_x4);
    let s_ref_w1 = Node::new_ref("w1", vec![n], vec![iv(0)]);
    let s_ref_a4 = Node::new_ref("a4", vec![n, n], vec![iv(0), iv(1)]);
    let s_ref_x5 = Node::new_ref("x5", vec![n], vec![iv(1)]);
    let s_ref_w2 = Node::new_ref("w2", vec![n, n], vec![iv(0)]);
    let mut j_loop4 = Node::new_single_loop_general("j", LoopBound::Fixed(0), LoopBound::Fixed(ubound));
    Node::extend_loop_body(&mut j_loop4, s_ref_w1);
    Node::extend_loop_body(&mut j_loop4, s_ref_a4);
    Node::extend_loop_body(&mut j_loop4, s_ref_x5);
    Node::extend_loop_body(&mut j_loop4, s_ref_w2);
    let mut i_loop4 = Node::new_single_loop_general("i", LoopBound::Fixed(0), LoopBound::Fixed(ubound));
    Node::extend_loop_body(&mut i_loop4, j_loop4);
    let ghost c6_0 = crate::ast::count_nodes(i_loop1);
    let ghost c6_1 = crate::ast::count_nodes(i_loop2);
    let ghost c6_2 = crate::ast::count_nodes(i_loop3);
    let ghost c6_3 = crate::ast::count_nodes(i_loop4);
    let kids6 = vec![i_loop1, i_loop2, i_loop3, i_loop4];
    proof {
        assert(crate::ast::count_list(kids6, 4) == 0);
        assert(crate::ast::count_list(kids6, 3) == c6_3 + crate::ast::count_list(kids6, 4));
        assert(crate::ast::count_list(kids6, 2) == c6_2 + crate::ast::count_list(kids6, 3));
        assert(crate::ast::count_list(kids6, 1) == c6_1 + crate::ast::count_list(kids6, 2));
        assert(crate::ast::count_list(kids6, 0) == c6_0 + crate::ast::count_list(kids6, 1));
    }
    let root = Node::new_node(Stmt::Block(kids6));
    root
}

/// The loop tree of Nussinov's RNA folding, with its branches.
pub fn nussinov(n: usize) -> (r: Node)
    requires
        n <= 0x7fff_0000,
    ensures
        r.stmt is Loop,
        crate::ast::count_nodes(r) == 29,
{
    let ubound: i32 = n as i32;
    let s_ref_if1_t1 = Node::new_ref("if1_t1", vec![n, n], vec![iv(0), iv(1)]);
    let s_ref_if1_t2 = Node::new_ref("if1_t2", vec![n, n], vec![iv(0), iv_plus(1, -1)]);
    let s_ref_if1_t3 = Node::new_ref("if1_t3", vec![n, n], vec![iv(0), iv(1)]);
    let s_ref_if2_t1 = Node::new_ref("if2_t1", vec![n, n], vec![iv(0), iv(1)]);
    let s_ref_if2_t2 = Node::new_ref("if2_t2", vec![n, n], vec![iv_plus(0, 1), iv(1)]);
    let s_ref_if2_t3 = Node::new_ref("if2_t3", vec![n, n], vec![iv(0), iv(1)]);
    let s_ref_if3_t1 = Node::new_ref("if3_t1", vec![n, n], vec![iv(0), iv(1)]);
    let s_ref_if3_t2 = Node::new_ref("if3_t2", vec![n, n], vec![iv_plus(0, 1), iv_plus(1, -1)]);
    let s_ref_if3_s1 = Node::new_ref("if3_s1", vec![n], vec![iv(0)]);
    let s_ref_if3_s2 = Node::new_ref("if3_s2", vec![n], vec![iv(1)]);
    let s_ref_if3_t3 = Node::new_ref("if3_t3", vec![n, n], vec![iv(0), iv(1)]);
    let s_ref_else3_t1 = Node::new_ref("else3_t1", vec![n, n], vec![iv(0), iv(1)]);
    let s_ref_else3_t2 = Node::new_ref("else3_t2", vec![n, n], vec![iv_plus(0, 1), iv_plus(1, -1)]);
    let s_ref_else3_t3 = Node::new_ref("else3_t3", vec![n, n], vec![iv(0), iv(1)]);
    let s_ref_t1 = Node::new_ref("t1", vec![n, n], vec![iv(0), iv(1)]);
    let s_ref_t2 = Node::new_ref("t2", vec![n, n], vec![iv(0), iv(2)]);
    let s_ref_t3 = Node::new_ref("t3", vec![n, n], vec![iv_plus(2, 1), iv(1)]);
    let s_ref_t4 = Node::new_ref("t4", vec![n, n], vec![iv(0), iv(1)]);
    let ghost c7_0 = crate::ast::count_nodes(s_ref_if1_t1);
    let ghost c7_1 = crate::ast::count_nodes(s_ref_if1_t2);
    let ghost c7_2 = crate::ast::count_nodes(s_ref_if1_t3);
    let kids7 = vec![s_ref_if1_t1, s_ref_if1_t2, s_ref_if1_t3];
    proof {
        assert(crate::ast::count_list(kids7, 3) == 0);
        assert(crate::ast::count_list(kids7, 2) == c7_2 + crate::ast::count_list(kids7, 3));
        assert(crate::ast::count_list(kids7, 1) == c7_1 + crate::ast::count_list(kids7, 2));
        assert(crate::ast::count_list(kids7, 0) == c7_0 + crate::ast::count_list(kids7, 1));
    }
    let q1 = Node::new_node(Stmt::Block(kids7));
    let branch1 = Node::new_branch(Cond::Less(Affine::constant(0), iv(1)), q1, None);
    let ghost c8_0 = crate::ast::count_nodes(s_ref_if2_t1);
    let ghost c8_1 = crate::ast::count_nodes(s_ref_if2_t2);
    let ghost c8_2 = crate::ast::count_nodes(s_ref_if2_t3);
    let kids8 = vec![s_ref_if2_t1, s_ref_if2_t2, s_ref_if2_t3];
    proof {
        assert(crate::ast::count_list(kids8, 3) == 0);
        assert(crate::ast::count_list(kids8, 2) == c8_2 + crate::ast::count_list(kids8, 3));
        assert(crate::ast::count_list(kids8, 1) == c8_1 + crate::ast::count_list(kids8, 2));
        assert(crate::ast::count_list(kids8, 0) == c8_0 + crate::ast::count_list(kids8, 1));
    }
    let q2 = Node::new_node(Stmt::Block(kids8));
    let branch2 = Node::new_branch(
        Cond::Less(iv_plus(0, 1), Affine::constant(ubound as i64)),
        q2,
        None,
    );
    let ghost c9_0 = crate::ast::count_nodes(s_ref_if3_t1);
    let ghost c9_1 = crate::ast::count_nodes(s_ref_if3_t2);
    let ghost c9_2 = crate::ast::count_nodes(s_ref_if3_s1);
    let ghost c9_3 = crate::ast::count_nodes(s_ref_if3_s2);
    let ghost c9_4 = crate::ast::count_nodes(s_ref_if3_t3);
    let kids9 = vec![s_ref_if3_t1, s_ref_if3_t2, s_ref_if3_s1, s_ref_if3_s2, s_ref_if3_t3];
    proof {
        assert(crate::ast::count_list(kids9, 5) == 0);
        assert(crate::ast::count_list(kids9, 4) == c9_4 + crate::ast::count_list(kids9, 5));
        assert(crate::ast::count_list(kids9, 3) == c9_3 + crate::ast::count_list(kids9, 4));
        assert(crate::ast::count_list(kids9, 2) == c9_2 + crate::ast::count_list(kids9, 3));
        assert(crate::ast::count_list(kids9, 1) == c9_1 + crate::ast::count_list(kids9, 2));
        assert(crate::ast::count_list(kids9, 0) == c9_0 + crate::ast::count_list(kids9, 1));
    }
    let q3 = Node::new_node(Stmt::Block(kids9));
    let ghost c10_0 = crate::ast::count_nodes(s_ref_else3_t1);
    let ghost c10_1 = crate::ast::count_nodes(s_ref_else3_t2);
    let ghost c10_2 = crate::ast::count_nodes(s_ref_else3_t3);
    let kids10 = vec![s_ref_else3_t1, s_ref_else3_t2, s_ref_else3_t3];
    proof {
        assert(crate::ast::count_list(kids10, 3) == 0);
        assert(crate::ast::count_list(kids10, 2) == c10_2 + crate::ast::count_list(kids10, 3));
        assert(crate::ast::count_list(kids10, 1) == c10_1 + crate::ast::count_list(kids10, 2));
        assert(crate::ast::count_list(kids10, 0) == c10_0 + crate::ast::count_list(kids10, 1));
    }
    let q4 = Node::new_node(Stmt::Block(kids10));
    let branch3 = Node::new_branch(Cond::Less(iv(0), iv_plus(1, -1)), q3, Some(q4));
    let branch4 = Node::new_branch(
        Cond::And(
            Box::new(Cond::Less(Affine::constant(0), iv(1))),
            Box::new(Cond::Less(iv_plus(0, 1), Affine::constant(ubound as i64))),
        ),
        branch3,
        None,
    );
    let mut k_loop = Node::new_single_loop_general("k", LoopBound::Dynamic(iv_plus(0, 1)), LoopBound::Dynamic(iv(0)));
    Node::extend_loop_body(&mut k_loop, s_ref_t1);
    Node::extend_loop_body(&mut k_loop, s_ref_t2);
    Node::extend_loop_body(&mut k_loop, s_ref_t3);
    Node::extend_loop_body(&mut k_loop, s_ref_t4);
    let mut j_loop = Node::new_single_loop_general("j", LoopBound::Dynamic(iv_plus(0, 1)), LoopBound::Fixed(ubound));
    Node::extend_loop_body(&mut j_loop, branch1);
    Node::extend_loop_body(&mut j_loop, branch2);
    Node::extend_loop_body(&mut j_loop, branch4);
    Node::extend_loop_body(&mut j_loop, k_loop);
    let mut i_loop = Node::new_single_loop_general("i", LoopBound::Fixed(ubound - 1), LoopBound::Fixed(0));
    Node::extend_loop_body(&mut i_loop, j_loop);
    i_loop
}

} // verus!
