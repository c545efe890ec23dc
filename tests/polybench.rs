use reuse_dist::polybench::{
    _2mm, cholesky, gemm, gemver, gesummv, gramschmidt_trace, heat_3d, jacobi_1d, jacobi_2d, lu,
    ludcmp, matmul, mvt, nussinov, seidel_2d, stencil, symm, syr2d, syrk, trisolv, trmm_trace,
};
use reuse_dist::list_serializable::ListSerializable;
use reuse_dist::olken::LRUSplay;
use reuse_dist::scale_tree::LRUScaleTree;
use reuse_dist::trace::trace;

#[test]
fn matmul_test() {
    let mm = matmul(100);
    assert_eq!(mm.node_count(), 6);
}

#[test]
fn trmm_trace_test() {
    assert_eq!(trmm_trace(1024, 1024).node_count(), 8);
}

#[test]
fn test_mvt() {
    assert_eq!(mvt(1024).node_count(), 13);
}

#[test]
fn test_trisolv() {
    assert_eq!(trisolv(1024).node_count(), 11);
}

#[test]
fn test_syrk() {
    assert_eq!(syrk(256, 256).node_count(), 12);
}

#[test]
fn test_syr2d() {
    assert_eq!(syr2d(1024, 1024).node_count(), 12);
}

#[test]
fn test_gemm_rd_olken() {
    let code = gemm(128);
    let hist = trace(&code, LRUSplay::new(), &mut ListSerializable::new()).unwrap();
    assert_eq!(hist.total(), 128 * 128 * (2 + 128 * 4));
}

#[test]
fn test_gemm_rd_scale_tree() {
    let code = gemm(128);
    let exact = trace(&code, LRUSplay::new(), &mut ListSerializable::new()).unwrap();
    let hist = trace(&code, LRUScaleTree::new(1, 10, 10000), &mut ListSerializable::new()).unwrap();
    assert_eq!(hist.total(), exact.total());
    let cold = |h: &Vec<(Option<usize>, usize)>| h.iter().find(|x| x.0.is_none()).map(|x| x.1);
    assert_eq!(cold(&hist.to_vec()), cold(&exact.to_vec()));
}

#[test]
fn _2mm_test() {
    assert_eq!(_2mm(1024, 1024, 1024, 1024).node_count(), 10);
}

#[test]
fn lu_test() {
    let mm = lu(100);
    assert_eq!(mm.node_count(), 16);
}

#[test]
fn test_cholesky() {
    assert_eq!(cholesky(1024).node_count(), 17)
}

#[test]
fn gram_schmidt_test() {
    assert_eq!(gramschmidt_trace(1024, 1024).node_count(), 21);
}

#[test]
fn heat_3d_test() {
    let mm = heat_3d(5, 100);
    assert_eq!(mm.node_count(), 29);
}

#[test]
fn test_symm() {
    assert_eq!(symm(1024, 1024).node_count(), 13)
}

#[test]
fn test_stencil() {
    assert_eq!(stencil(1024).node_count(), 8)
}

#[test]
fn test_seidel_2d() {
    assert_eq!(seidel_2d(10, 1024).node_count(), 13)
}

#[test]
fn test_ludcmp() {
    assert_eq!(ludcmp(1024).node_count(), 28)
}

#[test]
fn test_nussinov() {
    assert_eq!(nussinov(1024).node_count(), 29)
}

#[test]
fn test_jacobi_1d() {
    assert_eq!(jacobi_1d(10, 1024).node_count(), 11)
}

#[test]
fn test_jacobi_2d() {
    assert_eq!(jacobi_2d(10, 1024).node_count(), 17)
}

#[test]
fn test_gesummv() {
    assert_eq!(gesummv(1024).node_count(), 15)
}

#[test]
fn test_gemver() {
    assert_eq!(gemver(1024).node_count(), 25)
}
