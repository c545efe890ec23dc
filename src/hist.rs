use vstd::prelude::*;

verus! {

/// The sum of the counts of histogram entries.
pub open spec fn sum_counts(e: Seq<(usize, usize)>) -> nat
    decreases e.len(),
{
    if e.len() == 0 {
        0
    } else {
        sum_counts(e.drop_last()) + e.last().1 as nat
    }
}

/// The count that the entries `e` give to distance `x`.
pub open spec fn seq_count(e: Seq<(usize, usize)>, x: usize) -> nat {
    if exists|i: int| 0 <= i < e.len() && e[i].0 == x {
        e[choose|i: int| 0 <= i < e.len() && e[i].0 == x].1 as nat
    } else {
        0
    }
}

/// Entries with strictly increasing distances.
pub open spec fn increasing(e: Seq<(usize, usize)>) -> bool {
    forall|i: int, j: int| 0 <= i < j < e.len() ==> e[i].0 < e[j].0
}

proof fn lemma_seq_count_at(e: Seq<(usize, usize)>, j: int)
    requires
        increasing(e),
        0 <= j < e.len(),
    ensures
        seq_count(e, e[j].0) == e[j].1,
{
    let x = e[j].0;
    let k = choose|i: int| 0 <= i < e.len() && e[i].0 == x;
    if k < j {
        assert(e[k].0 < e[j].0);
    } else if k > j {
        assert(e[j].0 < e[k].0);
    }
}

/// A reuse-distance histogram: how many accesses reported each distance, with first
/// accesses (`None`) in a bucket of their own.
pub struct Hist {
    /// One entry per finite distance seen, by increasing distance, each count positive.
    finite: Vec<(usize, usize)>,
    /// The number of first accesses.
    cold: usize,
    /// The number of distances recorded.
    total: usize,
}

impl Hist {
    pub closed spec fn entries(&self) -> Seq<(usize, usize)> {
        self.finite@
    }

    pub closed spec fn cold_count(&self) -> nat {
        self.cold as nat
    }

    pub closed spec fn wf(&self) -> bool {
        &&& increasing(self.entries())
        &&& forall|i: int| 0 <= i < self.entries().len() ==> self.entries()[i].1 > 0
        &&& self.total == self.cold + sum_counts(self.entries())
    }

    /// How many recorded distances equal `d`.
    pub closed spec fn count(&self, d: Option<usize>) -> nat {
        match d {
            None => self.cold as nat,
            Some(x) => seq_count(self.entries(), x),
        }
    }

    /// The buckets with a positive count, by increasing distance, the `None` bucket last.
    pub closed spec fn buckets(&self) -> Seq<(Option<usize>, usize)> {
        self.entries().map_values(|e: (usize, usize)| (Some(e.0), e.1)) + if self.cold > 0 {
            seq![(None::<usize>, self.cold)]
        } else {
            Seq::empty()
        }
    }

    /// A histogram with some access has some bucket.
    pub proof fn lemma_buckets_nonempty(&self)
        requires
            self.wf(),
            self.total_spec() > 0,
        ensures
            self.buckets().len() > 0,
    {
        if self.entries().len() == 0 {
            assert(sum_counts(self.entries()) == 0);
        }
    }

    /// The number of distances recorded.
    pub closed spec fn total_spec(&self) -> nat {
        self.total as nat
    }

    pub fn new() -> (r: Hist)
        ensures
            r.wf(),
            r.total_spec() == 0,
            forall|d: Option<usize>| r.count(d) == 0,
    {
        Hist { finite: Vec::new(), cold: 0, total: 0 }
    }

    /// The number of distances recorded: the sum of all bucket counts.
    pub fn total(&self) -> (r: usize)
        requires
            self.wf(),
        ensures
            r == self.total_spec(),
            r == self.cold_count() + sum_counts(self.entries()),
    {
        self.total
    }

    /// Adds one to the bucket of `d`.
    pub fn add_dist(&mut self, d: Option<usize>)
        requires
            old(self).wf(),
            old(self).total_spec() < usize::MAX,
        ensures
            final(self).wf(),
            final(self).total_spec() == old(self).total_spec() + 1,
            final(self).count(d) == old(self).count(d) + 1,
            forall|e: Option<usize>| e != d ==> final(self).count(e) == old(self).count(e),
    {
        let ghost e0 = self.finite@;
        match d {
            None => {
                self.cold = self.cold + 1;
            },
            Some(x) => {
                let n = self.finite.len();
                let mut i: usize = 0;
                while i < n && self.finite[i].0 < x
                    invariant
                        self.finite@ == e0,
                        n == e0.len(),
                        i <= n,
                        forall|j: int| 0 <= j < i ==> e0[j].0 < x,
                    decreases n - i,
                {
                    i = i + 1;
                }
                if i < n && self.finite[i].0 == x {
                    let c = self.finite[i].1;
                    proof {
                        lemma_entry_le_sum(e0, i as int);
                    }
                    self.finite[i] = (x, c + 1);
                    proof {
                        assert(self.finite@ =~= e0.update(i as int, (x, (c + 1) as usize)));
                        lemma_sum_update(e0, i as int, (x, (c + 1) as usize));
                        lemma_update_counts(e0, i as int, x, c);
                    }
                } else {
                    self.finite.insert(i, (x, 1));
                    proof {
                        lemma_sum_insert(e0, i as int, (x, 1usize));
                        lemma_insert_counts(e0, i as int, x);
                    }
                }
            },
        }
        self.total = self.total + 1;
    }
}

impl Hist {
    /// The buckets with a positive count, by increasing distance, the `None` bucket last.
    pub fn to_vec(&self) -> (r: Vec<(Option<usize>, usize)>)
        requires
            self.wf(),
        ensures
            r@ == self.buckets(),
            forall|i: int| 0 <= i < r@.len() ==> r@[i].1 == self.count(r@[i].0) && r@[i].1 > 0,
            forall|d: Option<usize>| self.count(d) > 0 ==> exists|i: int| 0 <= i < r@.len() && r@[i].0 == d,
            forall|i: int, j: int|
                0 <= i < j < r@.len() ==> (r@[i].0 is Some && (r@[j].0 is None
                    || r@[i].0.unwrap() < r@[j].0.unwrap())),
    {
        let mut r: Vec<(Option<usize>, usize)> = Vec::new();
        let n = self.finite.len();
        let mut i: usize = 0;
        while i < n
            invariant
                self.wf(),
                n == self.entries().len(),
                i <= n,
                r@.len() == i,
                forall|j: int| 0 <= j < i ==> r@[j] == (Some(self.entries()[j].0), self.entries()[j].1),
            decreases n - i,
        {
            let (d, c) = self.finite[i];
            r.push((Some(d), c));
            i = i + 1;
        }
        if self.cold > 0 {
            r.push((None, self.cold));
        }
        proof {
            let e = self.entries();
            assert(r@ =~= self.buckets());
            assert forall|k: int| 0 <= k < r@.len() implies r@[k].1 == self.count(r@[k].0) && r@[k].1 > 0 by {
                if k < n {
                    lemma_seq_count_at(e, k);
                }
            }
            assert forall|d: Option<usize>| self.count(d) > 0 implies exists|k: int| 0 <= k < r@.len() && r@[k].0 == d by {
                match d {
                    None => {
                        assert(r@[n as int].0 == d);
                    },
                    Some(x) => {
                        let k = choose|k: int| 0 <= k < e.len() && e[k].0 == x;
                        assert(r@[k].0 == d);
                    },
                }
            }
        }
        r
    }
}

proof fn lemma_update_counts(e0: Seq<(usize, usize)>, i: int, x: usize, c: usize)
    requires
        increasing(e0),
        0 <= i < e0.len(),
        e0[i] == (x, c),
        c < usize::MAX,
    ensures
        ({
            let e1 = e0.update(i, (x, (c + 1) as usize));
            &&& increasing(e1)
            &&& seq_count(e1, x) == seq_count(e0, x) + 1
            &&& forall|y: usize| y != x ==> seq_count(e1, y) == seq_count(e0, y)
        }),
{
    let e1 = e0.update(i, (x, (c + 1) as usize));
    lemma_seq_count_at(e0, i);
    lemma_seq_count_at(e1, i);
    assert forall|y: usize| y != x implies seq_count(e1, y) == seq_count(e0, y) by {
        if exists|j: int| 0 <= j < e1.len() && e1[j].0 == y {
            let j = choose|j: int| 0 <= j < e1.len() && e1[j].0 == y;
            lemma_seq_count_at(e0, j);
            lemma_seq_count_at(e1, j);
        } else {
            assert forall|j: int| 0 <= j < e0.len() implies e0[j].0 != y by {
                assert(e1[j].0 == e0[j].0);
            }
        }
    }
}

proof fn lemma_insert_counts(e0: Seq<(usize, usize)>, i: int, x: usize)
    requires
        increasing(e0),
        0 <= i <= e0.len(),
        forall|j: int| 0 <= j < i ==> e0[j].0 < x,
        i < e0.len() ==> e0[i].0 > x,
    ensures
        ({
            let e1 = e0.insert(i, (x, 1usize));
            &&& increasing(e1)
            &&& seq_count(e1, x) == seq_count(e0, x) + 1
            &&& forall|y: usize| y != x ==> seq_count(e1, y) == seq_count(e0, y)
        }),
{
    let e1 = e0.insert(i, (x, 1usize));
    let n = e0.len();
    assert(forall|j: int| i <= j < n ==> e0[j].0 > x) by {
        assert forall|j: int| i <= j < n implies e0[j].0 > x by {
            if j > i {
                assert(e0[i].0 < e0[j].0);
            }
        }
    }
    assert(increasing(e1)) by {
        assert forall|a: int, b: int| 0 <= a < b < e1.len() implies e1[a].0 < e1[b].0 by {
            if b < i {
            } else if a < i && b == i {
            } else if a < i {
                assert(e1[b] == e0[b - 1]);
            } else if a == i {
                assert(e1[b] == e0[b - 1]);
            } else {
                assert(e1[a] == e0[a - 1]);
                assert(e1[b] == e0[b - 1]);
            }
        }
    }
    assert(e1[i].0 == x);
    lemma_seq_count_at(e1, i);
    assert(seq_count(e0, x) == 0) by {
        assert forall|j: int| 0 <= j < e0.len() implies e0[j].0 != x by {}
    }
    assert forall|y: usize| y != x implies seq_count(e1, y) == seq_count(e0, y) by {
        if exists|j: int| 0 <= j < e1.len() && e1[j].0 == y {
            let j = choose|j: int| 0 <= j < e1.len() && e1[j].0 == y;
            assert(j != i);
            let j0 = if j < i { j } else { j - 1 };
            assert(e1[j] == e0[j0]);
            lemma_seq_count_at(e0, j0);
            lemma_seq_count_at(e1, j);
        } else {
            assert forall|j: int| 0 <= j < e0.len() implies e0[j].0 != y by {
                let j1 = if j < i { j } else { j + 1 };
                assert(e1[j1] == e0[j]);
            }
        }
    }
}

proof fn lemma_entry_le_sum(e: Seq<(usize, usize)>, i: int)
    requires
        0 <= i < e.len(),
    ensures
        e[i].1 <= sum_counts(e),
    decreases e.len(),
{
    if i < e.len() - 1 {
        lemma_entry_le_sum(e.drop_last(), i);
    }
}

proof fn lemma_sum_update(e: Seq<(usize, usize)>, i: int, v: (usize, usize))
    requires
        0 <= i < e.len(),
    ensures
        sum_counts(e.update(i, v)) == sum_counts(e) - e[i].1 + v.1,
    decreases e.len(),
{
    if i < e.len() - 1 {
        lemma_sum_update(e.drop_last(), i, v);
        assert(e.update(i, v).drop_last() =~= e.drop_last().update(i, v));
    } else {
        assert(e.update(i, v).drop_last() =~= e.drop_last());
    }
}

proof fn lemma_sum_insert(e: Seq<(usize, usize)>, i: int, v: (usize, usize))
    requires
        0 <= i <= e.len(),
    ensures
        sum_counts(e.insert(i, v)) == sum_counts(e) + v.1,
    decreases e.len(),
{
    if i == e.len() {
        assert(e.insert(i, v).drop_last() =~= e);
    } else {
        lemma_sum_insert(e.drop_last(), i, v);
        assert(e.insert(i, v).drop_last() =~= e.drop_last().insert(i, v));
    }
}

} // verus!
