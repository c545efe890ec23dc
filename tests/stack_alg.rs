use reuse_dist::lru::LRU;
use reuse_dist::olken::LRUSplay;
use reuse_dist::stack::LRUStack;
use reuse_dist::test_cases::nmm;
use reuse_dist::vec::LRUVec;

fn run<A: LRU<String>>(analyzer: &mut A, s: &str) -> Vec<Option<usize>> {
    let mut dists = Vec::new();
    for c in s.chars().filter(|c| !c.is_whitespace()) {
        dists.push(analyzer.rec_access(c.to_string()));
    }
    dists
}

fn run_slice<'a, A: LRU<&'a str>>(analyzer: &mut A, st: &'a str) -> Vec<Option<usize>> {
    let mut dists = Vec::new();
    for i in 0..st.len() {
        dists.push(analyzer.rec_access(&st[i..i + 1]));
    }
    dists
}

#[test]
fn stack_cyclic() {
    let mut analyzer = LRUStack::<String>::new();
    assert_eq!(run(&mut analyzer, "abc abc"), [None, None, None, Some(3), Some(3), Some(3)]);
}

#[test]
fn stack_cyclic_slice() {
    let mut analyzer = LRUStack::<&str>::new();
    assert_eq!(run_slice(&mut analyzer, "abcabc"), [None, None, None, Some(3), Some(3), Some(3)]);
}

#[test]
fn stack_sawtooth() {
    let mut analyzer = LRUStack::<String>::new();
    assert_eq!(run(&mut analyzer, "abc cba"), [None, None, None, Some(1), Some(2), Some(3)]);
}

#[test]
fn vec_cyclic() {
    let mut analyzer = LRUVec::<String>::new();
    assert_eq!(run(&mut analyzer, "abc abc"), [None, None, None, Some(3), Some(3), Some(3)]);
}

#[test]
fn vec_cyclic_slice() {
    let mut analyzer = LRUVec::<&str>::new();
    assert_eq!(run_slice(&mut analyzer, "abcabc"), [None, None, None, Some(3), Some(3), Some(3)]);
}

#[test]
fn vec_sawtooth() {
    let mut analyzer = LRUVec::<String>::new();
    assert_eq!(run(&mut analyzer, "abc cba"), [None, None, None, Some(1), Some(2), Some(3)]);
}

#[test]
fn olken_cyclic() {
    let mut analyzer = LRUSplay::<String>::new();
    assert_eq!(run(&mut analyzer, "abc abc"), [None, None, None, Some(3), Some(3), Some(3)]);
}

#[test]
fn olken_cyclic_slice() {
    let mut analyzer = LRUSplay::<&str>::new();
    assert_eq!(run_slice(&mut analyzer, "abcabc"), [None, None, None, Some(3), Some(3), Some(3)]);
}

#[test]
fn olken_cyclic_large() {
    let limit: usize = 10000;
    let mut analyzer = LRUSplay::new();
    let mut dists = Vec::new();
    for c in (0..limit).chain(0..limit) {
        dists.push(analyzer.access(c));
    }
    let access: Vec<Option<usize>> = (0..limit)
        .map(|_| None)
        .chain((0..limit).map(|_| Some(limit)))
        .collect();
    assert_eq!(&dists, &access);
}

#[test]
fn olken_sawtooth() {
    let mut analyzer = LRUSplay::<String>::new();
    assert_eq!(run(&mut analyzer, "abc cba"), [None, None, None, Some(1), Some(2), Some(3)]);
}

#[test]
fn olken_sawtooth_large() {
    let limit: usize = 10000;
    let mut analyzer = LRUSplay::new();
    let mut dists = Vec::new();
    for c in (0..limit).chain((0..limit).rev()) {
        dists.push(analyzer.access(c));
    }
    let access: Vec<Option<usize>> = (0..limit)
        .map(|_| None)
        .chain((0..limit).map(|x| Some(x + 1)))
        .collect();
    assert_eq!(&dists, &access);
}

fn pseudo_random_keys(n: usize, range: u64) -> Vec<u64> {
    let mut x: u64 = 0x2545_f491_4f6c_dd1d;
    let mut out = Vec::new();
    for _ in 0..n {
        x ^= x << 13;
        x ^= x >> 7;
        x ^= x << 17;
        out.push(x % range);
    }
    out
}

#[test]
fn exact_algorithms_agree() {
    let keys = pseudo_random_keys(3000, 97);
    let mut a = LRUStack::new();
    let mut b = LRUVec::new();
    let mut c = LRUSplay::new();
    for k in keys {
        let x = a.rec_access_impl(k);
        let y = b.rec_access_impl(k);
        let z = c.access(k);
        assert_eq!(x, y);
        assert_eq!(x, z);
    }
}

#[test]
fn first_access_is_none_for_every_algorithm() {
    let mut a = LRUStack::new();
    let mut b = LRUVec::new();
    let mut c = LRUSplay::new();
    let mut seen: Vec<u64> = Vec::new();
    for k in [5u64, 7, 5, 9, 7, 11, 9, 13] {
        let (x, y, z) = (a.rec_access_impl(k), b.rec_access_impl(k), c.access(k));
        if !seen.contains(&k) {
            assert_eq!((x, y, z), (None, None, None));
            seen.push(k);
        } else {
            assert!(x.is_some() && y.is_some() && z.is_some());
        }
    }
}

#[test]
fn immediate_repeat_is_one() {
    let mut a = LRUStack::new();
    let mut b = LRUVec::new();
    let mut c = LRUSplay::new();
    for k in [3u64, 1, 4, 1, 5] {
        a.rec_access_impl(k);
        b.rec_access_impl(k);
        c.access(k);
    }
    assert_eq!(a.rec_access_impl(5), Some(1));
    assert_eq!(b.rec_access_impl(5), Some(1));
    assert_eq!(c.access(5), Some(1));
    assert_eq!(c.access(5), Some(1));
}

#[test]
fn vec_keeps_bubbled_order() {
    let mut b = LRUVec::new();
    for k in [1u64, 2, 3, 4] {
        b.rec_access_impl(k);
    }
    assert_eq!(b.stack, vec![4, 3, 2, 1]);
    assert_eq!(b.rec_access_impl(2), Some(3));
    assert_eq!(b.stack, vec![2, 4, 3, 1]);
    assert_eq!(b.rec_access_impl(9), None);
    assert_eq!(b.stack, vec![9, 2, 4, 3, 1]);
}

#[test]
fn olken_deep_chain() {
    // a long run of first accesses builds a chain; touching its far end must not
    // exhaust the stack
    let limit: usize = 200000;
    let mut analyzer = LRUSplay::new();
    for c in 0..limit {
        assert_eq!(analyzer.access(c), None);
    }
    assert_eq!(analyzer.access(0), Some(limit));
    assert_eq!(analyzer.access(1), Some(limit));
    assert_eq!(analyzer.access(0), Some(2));
}

#[test]
fn nmm_labels_and_distances() {
    let v = nmm(1, 2, 2, 1, "Vec".to_string());
    let s = nmm(1, 2, 2, 1, "Stack".to_string());
    assert_eq!(v, s);
    let labels: Vec<&str> = v.iter().map(|x| x.0.as_str()).collect();
    assert_eq!(
        labels,
        ["(0, 0, 'A')", "(0, 0, 'B')", "(0, 0, 'C')", "(0, 0, 'C')", "(0, 1, 'A')", "(1, 0, 'B')", "(0, 0, 'C')", "(0, 0, 'C')"]
    );
    let dists: Vec<Option<usize>> = v.iter().map(|x| x.1).collect();
    assert_eq!(dists, [None, None, None, Some(1), None, None, Some(3), Some(1)]);
}
