use reuse_dist::arybase::set_arybase;
use reuse_dist::ast::{Affine, AryRef, Cond, Node};
use reuse_dist::list_serializable::ListSerializable;
use reuse_dist::olken::LRUSplay;
use reuse_dist::polybench::{iv, iv_plus};
use reuse_dist::ri::{reuse_intervals, tracing_ri};
use reuse_dist::stack::LRUStack;
use reuse_dist::calculate::{calculate_trace, Algorithm};
use reuse_dist::trace::{access2addr, access3addr, trace, TraceError};
use reuse_dist::vec::LRUVec;

#[test]
fn trace_test_access2addr() {
    let aij = AryRef { name: "x".to_string(), dim: vec![10, 10], sub: vec![iv(0), iv(1)] };
    let tbl = vec![("x".to_string(), 0usize, 100usize)];
    assert_eq!(access2addr(&aij, &vec![0, 0], &tbl).unwrap(), 0);
    assert_eq!(access2addr(&aij, &vec![9, 9], &tbl).unwrap(), 99);
}

#[test]
fn trace_loop_a_i() {
    // i = 0, 10 { a[i] }
    let aref = Node::new_ref("A", vec![10], vec![iv(0)]);
    let mut aloop = Node::new_single_loop("i", 0, 10);
    Node::extend_loop_body(&mut aloop, aref);
    let hist = trace(&aloop, LRUStack::new(), &mut ListSerializable::new()).unwrap();
    assert_eq!(hist.to_vec()[0], (None, 10));
}

#[test]
fn trace_loop_a_0() {
    // i = 0, 10 { a[0] }
    let aref = Node::new_ref("A", vec![1], vec![Affine::constant(0)]);
    let mut aloop = Node::new_single_loop("i", 0, 10);
    Node::extend_loop_body(&mut aloop, aref);
    let hist = trace(&aloop, LRUStack::new(), &mut ListSerializable::new()).unwrap();
    assert_eq!(hist.to_vec()[0], (Some(1), 9));
    assert_eq!(hist.to_vec()[1], (None, 1));
}

#[test]
fn arybase_ary3() {
    let n: usize = 100;
    let ubound = n as i32;
    let ref_a = Node::new_ref("A", vec![n], vec![iv(0)]);
    let ref_b = Node::new_ref("B", vec![n, n], vec![iv(0), iv_plus(0, 1)]);
    let ref_c = Node::new_ref("C", vec![n, n, n], vec![iv(0), iv_plus(0, 1), iv_plus(0, 2)]);
    let mut iloop = Node::new_single_loop("i", 0, ubound);
    for s in [ref_a, ref_b, ref_c] {
        Node::extend_loop_body(&mut iloop, s);
    }
    let (tbl, size) = set_arybase(&iloop).unwrap();
    assert_eq!(tbl.len(), 3);
    assert_eq!(size, n + n * n + n * n * n);
    assert_eq!(tbl[0].1, 0);
    assert_eq!(tbl[1].1, n);
    assert_eq!(tbl[2].1, n + n * n);
}

#[test]
fn two_arrays_get_disjoint_bases() {
    let mut block_loop = Node::new_single_loop("i", 0, 5);
    Node::extend_loop_body(&mut block_loop, Node::new_ref("A", vec![10], vec![iv(0)]));
    Node::extend_loop_body(&mut block_loop, Node::new_ref("B", vec![5], vec![iv(0)]));
    Node::extend_loop_body(&mut block_loop, Node::new_ref("A", vec![10], vec![iv_plus(0, 5)]));
    let (tbl, size) = set_arybase(&block_loop).unwrap();
    assert_eq!(tbl.len(), 2);
    assert_eq!((tbl[0].0.as_str(), tbl[0].1), ("A", 0));
    assert_eq!((tbl[1].0.as_str(), tbl[1].1), ("B", 10));
    assert_eq!(size, 15);
}

#[test]
fn full_access_list_and_histogram() {
    // i = 0, 3 { A[i]; A[0] }
    let mut aloop = Node::new_single_loop("i", 0, 3);
    Node::extend_loop_body(&mut aloop, Node::new_ref("A", vec![3], vec![iv(0)]));
    Node::extend_loop_body(&mut aloop, Node::new_ref("A", vec![3], vec![Affine::constant(0)]));
    let mut list = ListSerializable::new();
    let hist = trace(&aloop, LRUVec::new(), &mut list).unwrap();
    assert_eq!(list.get_vec(), &vec![0, 0, 1, 0, 2, 0]);
    assert_eq!(hist.to_vec(), vec![(Some(1), 1), (Some(2), 2), (None, 3)]);
    assert_eq!(hist.total(), 6);
    let hist2 = trace(&aloop, LRUSplay::new(), &mut ListSerializable::new()).unwrap();
    assert_eq!(hist2.to_vec(), hist.to_vec());
}

#[test]
fn shape_mismatch_is_reported() {
    let mut aloop = Node::new_single_loop("i", 0, 3);
    Node::extend_loop_body(&mut aloop, Node::new_ref("M", vec![3, 3], vec![iv(0)]));
    match trace(&aloop, LRUStack::new(), &mut ListSerializable::new()) {
        Err(TraceError::ShapeMismatch(name)) => assert_eq!(name, "M"),
        _ => panic!("expected a shape mismatch"),
    }
}

#[test]
fn unresolved_bound_is_reported() {
    let l = Node::new_single_loop_dyn_ub("j", 0, iv(0));
    match trace(&l, LRUStack::new(), &mut ListSerializable::new()) {
        Err(TraceError::UnsupportedBound(name)) => assert_eq!(name, "j"),
        _ => panic!("expected an unsupported bound"),
    }
}

#[test]
fn negative_index_is_reported() {
    let mut aloop = Node::new_single_loop("i", 0, 3);
    Node::extend_loop_body(&mut aloop, Node::new_ref("A", vec![3], vec![iv_plus(0, -1)]));
    let mut list = ListSerializable::new();
    match trace(&aloop, LRUStack::new(), &mut list) {
        Err(TraceError::BadIndex(name)) => assert_eq!(name, "A"),
        _ => panic!("expected a bad index"),
    }
    assert_eq!(list.get_vec().len(), 0);
}

#[test]
fn branch_on_out_of_scope_index_is_reported() {
    let b = Node::new_branch(Cond::Even(iv(0)), Node::new_ref("A", vec![1], vec![Affine::constant(0)]), None);
    assert!(matches!(
        trace(&b, LRUStack::new(), &mut ListSerializable::new()),
        Err(TraceError::BadCondition)
    ));
}

#[test]
fn oversized_arrays_are_reported() {
    let mut aloop = Node::new_single_loop("i", 0, 1);
    Node::extend_loop_body(&mut aloop, Node::new_ref("A", vec![usize::MAX, 2], vec![iv(0), iv(0)]));
    assert!(matches!(
        trace(&aloop, LRUStack::new(), &mut ListSerializable::new()),
        Err(TraceError::AddressOverflow)
    ));
}

#[test]
fn reuse_intervals_count_time_not_distinct_keys() {
    let h = reuse_intervals(&vec![1, 2, 2, 3, 1, 2]);
    assert_eq!(h.to_vec(), vec![(Some(1), 1), (Some(3), 1), (Some(4), 1), (None, 3)]);
}

#[test]
fn reuse_intervals_of_a_loop() {
    // i = 0, 4 { A[0]; B[i] }
    let mut aloop = Node::new_single_loop("i", 0, 4);
    Node::extend_loop_body(&mut aloop, Node::new_ref("A", vec![1], vec![Affine::constant(0)]));
    Node::extend_loop_body(&mut aloop, Node::new_ref("B", vec![4], vec![iv(0)]));
    let h = tracing_ri(&aloop, &mut ListSerializable::new()).unwrap();
    assert_eq!(h.to_vec(), vec![(Some(2), 3), (None, 5)]);
}

#[test]
fn cache_line_of_an_element() {
    let aij = AryRef { name: "x".to_string(), dim: vec![10, 10], sub: vec![iv(0), iv(1)] };
    let tbl = vec![("x".to_string(), 0usize, 100usize)];
    assert_eq!(access3addr(&aij, &vec![0, 7], &tbl).unwrap(), 0);
    assert_eq!(access3addr(&aij, &vec![0, 8], &tbl).unwrap(), 1);
    assert_eq!(access3addr(&aij, &vec![9, 9], &tbl).unwrap(), 12);
}

#[test]
fn calculate_trace_agrees_across_algorithms() {
    let mut list = ListSerializable::new();
    for a in [4usize, 7, 4, 4, 9, 7, 4] {
        list.add(a);
    }
    let (rd, ri, drd, dri) = calculate_trace(&list, Algorithm::Olken);
    for alg in [Algorithm::Stack, Algorithm::Vec] {
        let (rd2, ri2, drd2, dri2) = calculate_trace(&list, alg);
        assert_eq!(rd.to_vec(), rd2.to_vec());
        assert_eq!(ri.to_vec(), ri2.to_vec());
        assert_eq!(drd, drd2);
        assert_eq!(dri, dri2);
    }
    assert_eq!(
        drd,
        vec![(4, None), (7, None), (4, Some(2)), (4, Some(1)), (9, None), (7, Some(3)), (4, Some(3))]
    );
    assert_eq!(
        dri,
        vec![(4, None), (7, None), (4, Some(2)), (4, Some(1)), (9, None), (7, Some(4)), (4, Some(3))]
    );
}

#[test]
fn tracing_ri_appends_to_the_list() {
    let mut aloop = Node::new_single_loop("i", 0, 2);
    Node::extend_loop_body(&mut aloop, Node::new_ref("A", vec![1], vec![Affine::constant(0)]));
    let mut list = ListSerializable::new();
    list.add(99);
    let h = tracing_ri(&aloop, &mut list).unwrap();
    assert_eq!(list.get_vec(), &vec![99, 0, 0]);
    assert_eq!(h.to_vec(), vec![(Some(1), 1), (None, 1)]);
}
