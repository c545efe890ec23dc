use reuse_dist::hist::Hist;

#[test]
fn it_works() {
    let mut h = Hist::new();
    h.add_dist(None);
    h.add_dist(Some(1));
    h.add_dist(Some(1));
    h.add_dist(Some(100));

    let v = h.to_vec();
    assert_eq!(v[0], (Some(1), 2));
    assert_eq!(v[1], (Some(100), 1));
    assert_eq!(v[2], (None, 1));

    assert_eq!(
        h.to_string(),
        "Reuse distance histogram: 
	3 distance value(s), min Some(1), max None
	4 accesses
	(1 first accesses)
value, count
1, 2
100, 1
"
    );
}

#[test]
fn histogram_total_counts_every_add() {
    let mut h = Hist::new();
    assert_eq!(h.total(), 0);
    assert_eq!(h.to_vec(), vec![]);
    for d in [Some(3), None, Some(3), Some(1), None, Some(7)] {
        h.add_dist(d);
    }
    assert_eq!(h.total(), 6);
    assert_eq!(h.to_vec(), vec![(Some(1), 1), (Some(3), 2), (Some(7), 1), (None, 2)]);
}

#[test]
fn report_without_first_accesses() {
    let mut h = Hist::new();
    h.add_dist(Some(12));
    h.add_dist(Some(3));
    h.add_dist(Some(12));
    assert_eq!(
        h.to_string(),
        "Reuse distance histogram: \n\t2 distance value(s), min Some(3), max Some(12)\n\t3 accesses\nvalue, count\n3, 1\n12, 2\n"
    );
}
