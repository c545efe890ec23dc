use vstd::prelude::*;
use vstd::string::StringExecFns;
use crate::lru::LRU;
use crate::recency::{distances_from, dist_of, lemma_distances_len, recency_from};
use crate::report::{decimal, push_decimal};
use crate::stack::LRUStack;
use crate::vec::LRUVec;

verus! {

/// A key of the matrix multiply: row, column and matrix name.
pub type MatKey = (usize, usize, char);

/// The keys of one step `k` for cell `(i, j)`: `A[i][k]`, `B[k][j]`, then `C[i][j]` read
/// and written.
pub open spec fn step_keys(i: usize, j: usize, k: usize) -> Seq<MatKey> {
    seq![(i, k, 'A'), (k, j, 'B'), (i, j, 'C'), (i, j, 'C')]
}

/// The keys of steps `0 .. kk` for cell `(i, j)`.
pub open spec fn cell_keys(i: usize, j: usize, kk: nat) -> Seq<MatKey>
    decreases kk,
{
    if kk == 0 {
        Seq::empty()
    } else {
        cell_keys(i, j, (kk - 1) as nat) + step_keys(i, j, (kk - 1) as usize)
    }
}

/// The keys of cells `(i, 0 .. jj)`, each over `ac` steps.
pub open spec fn row_keys(i: usize, jj: nat, ac: nat) -> Seq<MatKey>
    decreases jj,
{
    if jj == 0 {
        Seq::empty()
    } else {
        row_keys(i, (jj - 1) as nat, ac) + cell_keys(i, (jj - 1) as usize, ac)
    }
}

/// The keys of rows `0 .. ii`, each of `bc` cells of `ac` steps.
pub open spec fn nmm_keys(ii: nat, bc: nat, ac: nat) -> Seq<MatKey>
    decreases ii,
{
    if ii == 0 {
        Seq::empty()
    } else {
        nmm_keys((ii - 1) as nat, bc, ac) + row_keys((ii - 1) as usize, bc, ac)
    }
}

/// The text of a key: `(row, column, 'name')`.
pub open spec fn key_text(k: MatKey) -> Seq<char> {
    seq!['('] + decimal(k.0 as nat) + seq![',', ' '] + decimal(k.1 as nat) + seq![',', ' ', '\'', k.2,
        '\'', ')']
}

proof fn lemma_cell_len(i: usize, j: usize, kk: nat)
    ensures
        cell_keys(i, j, kk).len() == 4 * kk,
    decreases kk,
{
    if kk > 0 {
        lemma_cell_len(i, j, (kk - 1) as nat);
        assert(step_keys(i, j, (kk - 1) as usize).len() == 4);
    }
}

proof fn lemma_row_len(i: usize, jj: nat, ac: nat)
    ensures
        row_keys(i, jj, ac).len() == jj * (4 * ac),
    decreases jj,
{
    if jj > 0 {
        lemma_row_len(i, (jj - 1) as nat, ac);
        lemma_cell_len(i, (jj - 1) as usize, ac);
        let pj = (jj - 1) as nat;
        assert(jj * (4 * ac) == pj * (4 * ac) + 4 * ac) by (nonlinear_arith)
            requires jj >= 1, pj == jj - 1;
    } else {
        assert(jj * (4 * ac) == 0) by (nonlinear_arith)
            requires jj == 0;
    }
}

proof fn lemma_nmm_len(ii: nat, bc: nat, ac: nat)
    ensures
        nmm_keys(ii, bc, ac).len() == ii * (bc * (4 * ac)),
    decreases ii,
{
    if ii > 0 {
        lemma_nmm_len((ii - 1) as nat, bc, ac);
        lemma_row_len((ii - 1) as usize, bc, ac);
        let pi = (ii - 1) as nat;
        assert(ii * (bc * (4 * ac)) == pi * (bc * (4 * ac)) + bc * (4 * ac)) by (nonlinear_arith)
            requires ii >= 1, pi == ii - 1;
    } else {
        assert(ii * (bc * (4 * ac)) == 0) by (nonlinear_arith)
            requires ii == 0;
    }
}

fn name_str(c: char) -> (r: &'static str)
    requires
        c == 'A' || c == 'B' || c == 'C',
    ensures
        r@ == seq![c],
{
    proof {
        reveal_strlit("A");
        reveal_strlit("B");
        reveal_strlit("C");
    }
    if c == 'A' {
        "A"
    } else if c == 'B' {
        "B"
    } else {
        "C"
    }
}

/// The text of key `k`.
fn key_label(k: MatKey) -> (r: String)
    requires
        k.2 == 'A' || k.2 == 'B' || k.2 == 'C',
    ensures
        r@ == key_text(k),
{
    proof {
        reveal_strlit("(");
        reveal_strlit(", ");
        reveal_strlit(", '");
        reveal_strlit("')");
    }
    let mut s = String::from_str("(");
    push_decimal(&mut s, k.0);
    s.append(", ");
    push_decimal(&mut s, k.1);
    s.append(", '");
    s.append(name_str(k.2));
    s.append("')");
    proof {
        assert(s@ =~= key_text(k));
    }
    s
}

/// Records an access to `k` in `sim` and its label and distance in `out`.
fn record<A: LRU<MatKey>>(
    sim: &mut A,
    out: &mut Vec<(String, Option<usize>)>,
    k: MatKey,
    s0: Ghost<Seq<MatKey>>,
    done: Ghost<Seq<MatKey>>,
)
    requires
        old(sim).inv(),
        old(sim).spent() < usize::MAX,
        k.2 == 'A' || k.2 == 'B' || k.2 == 'C',
        old(out)@.len() == done@.len(),
        forall|p: int| 0 <= p < done@.len() ==> old(out)@[p].0@ == key_text(done@[p]),
        A::exact_for_keys() ==> {
            &&& old(sim).recency_view() == recency_from(s0@, done@)
            &&& forall|p: int| 0 <= p < done@.len() ==> dist_of(old(out)@[p].1) == distances_from(s0@, done@)[p]
        },
    ensures
        final(sim).inv(),
        final(sim).spent() <= old(sim).spent() + 1,
        final(out)@.len() == done@.push(k).len(),
        forall|p: int| 0 <= p < done@.push(k).len() ==> final(out)@[p].0@ == key_text(done@.push(k)[p]),
        A::exact_for_keys() ==> {
            &&& final(sim).recency_view() == recency_from(s0@, done@.push(k))
            &&& forall|p: int| 0 <= p < done@.push(k).len() ==> dist_of(final(out)@[p].1) == distances_from(s0@, done@.push(k))[p]
        },
{
    proof {
        sim.lemma_room();
    }
    let d = sim.rec_access(k);
    let label = key_label(k);
    out.push((label, d));
    proof {
        let nd = done@.push(k);
        assert(nd.drop_last() =~= done@);
        lemma_distances_len(s0@, done@);
        if A::exact_for_keys() {
            assert forall|p: int| 0 <= p < nd.len() implies dist_of(out@[p].1) == distances_from(s0@, nd)[p] by {
                if p < done@.len() {
                    assert(distances_from(s0@, nd)[p] == distances_from(s0@, done@)[p]);
                }
            }
        }
    }
}

/// Runs the keys of an `ar x ac` by `ac x bc` naive matrix multiply through `sim`.
fn run_nmm<A: LRU<MatKey>>(sim: &mut A, ar: usize, ac: usize, bc: usize) -> (r: Vec<(String, Option<usize>)>)
    requires
        old(sim).inv(),
        old(sim).spent() + nmm_keys(ar as nat, bc as nat, ac as nat).len() < usize::MAX,
    ensures
        r@.len() == nmm_keys(ar as nat, bc as nat, ac as nat).len(),
        forall|p: int| 0 <= p < r@.len() ==> r@[p].0@ == key_text(nmm_keys(ar as nat, bc as nat, ac as nat)[p]),
        A::exact_for_keys() ==> forall|p: int| 0 <= p < r@.len() ==> dist_of(r@[p].1)
            == distances_from(old(sim).recency_view(), nmm_keys(ar as nat, bc as nat, ac as nat))[p],
{
    let ghost s0 = sim.recency_view();
    let ghost sp0 = sim.spent();
    let ghost total = nmm_keys(ar as nat, bc as nat, ac as nat);
    let mut out: Vec<(String, Option<usize>)> = Vec::new();
    proof {
        lemma_nmm_len(ar as nat, bc as nat, ac as nat);
    }
    let mut i: usize = 0;
    while i < ar
        invariant
            i <= ar,
            sim.inv(),
            total == nmm_keys(ar as nat, bc as nat, ac as nat),
            total.len() == ar * (bc * (4 * ac)),
            sp0 + total.len() < usize::MAX,
            sim.spent() <= sp0 + nmm_keys(i as nat, bc as nat, ac as nat).len(),
            out@.len() == nmm_keys(i as nat, bc as nat, ac as nat).len(),
            forall|p: int| 0 <= p < out@.len() ==> out@[p].0@ == key_text(nmm_keys(i as nat, bc as nat, ac as nat)[p]),
            A::exact_for_keys() ==> {
                &&& sim.recency_view() == recency_from(s0, nmm_keys(i as nat, bc as nat, ac as nat))
                &&& forall|p: int| 0 <= p < out@.len() ==> dist_of(out@[p].1)
                    == distances_from(s0, nmm_keys(i as nat, bc as nat, ac as nat))[p]
            },
        decreases ar - i,
    {
        let ghost base_i = nmm_keys(i as nat, bc as nat, ac as nat);
        proof {
            lemma_nmm_len(i as nat, bc as nat, ac as nat);
            lemma_nmm_len((i + 1) as nat, bc as nat, ac as nat);
            let x = bc * (4 * ac);
            assert(i * x + x <= ar * x) by (nonlinear_arith)
                requires i + 1 <= ar, x >= 0;
        }
        let mut j: usize = 0;
        proof {
            assert(base_i + row_keys(i, 0, ac as nat) =~= base_i);
        }
        while j < bc
            invariant
                i < ar,
                j <= bc,
                sim.inv(),
                base_i == nmm_keys(i as nat, bc as nat, ac as nat),
                base_i.len() + bc * (4 * ac) <= total.len(),
                base_i.len() == i * (bc * (4 * ac)),
                sp0 + total.len() < usize::MAX,
                sim.spent() <= sp0 + (base_i + row_keys(i, j as nat, ac as nat)).len(),
                out@.len() == (base_i + row_keys(i, j as nat, ac as nat)).len(),
                forall|p: int| 0 <= p < out@.len() ==> out@[p].0@ == key_text((base_i + row_keys(i, j as nat, ac as nat))[p]),
                A::exact_for_keys() ==> {
                    &&& sim.recency_view() == recency_from(s0, base_i + row_keys(i, j as nat, ac as nat))
                    &&& forall|p: int| 0 <= p < out@.len() ==> dist_of(out@[p].1)
                        == distances_from(s0, base_i + row_keys(i, j as nat, ac as nat))[p]
                },
            decreases bc - j,
        {
            let ghost base_j = base_i + row_keys(i, j as nat, ac as nat);
            proof {
                lemma_row_len(i, j as nat, ac as nat);
                let y = 4 * ac;
                assert(j * y + y <= bc * y) by (nonlinear_arith)
                    requires j + 1 <= bc, y >= 0;
                assert(base_j + cell_keys(i, j, 0) =~= base_j);
            }
            let mut k: usize = 0;
            while k < ac
                invariant
                    j < bc,
                    k <= ac,
                    sim.inv(),
                    base_j == base_i + row_keys(i, j as nat, ac as nat),
                    base_j.len() + 4 * ac <= total.len(),
                    sp0 + total.len() < usize::MAX,
                    sim.spent() <= sp0 + (base_j + cell_keys(i, j, k as nat)).len(),
                    out@.len() == (base_j + cell_keys(i, j, k as nat)).len(),
                    forall|p: int| 0 <= p < out@.len() ==> out@[p].0@ == key_text((base_j + cell_keys(i, j, k as nat))[p]),
                    A::exact_for_keys() ==> {
                        &&& sim.recency_view() == recency_from(s0, base_j + cell_keys(i, j, k as nat))
                        &&& forall|p: int| 0 <= p < out@.len() ==> dist_of(out@[p].1)
                            == distances_from(s0, base_j + cell_keys(i, j, k as nat))[p]
                    },
                decreases ac - k,
            {
                let ghost d0 = base_j + cell_keys(i, j, k as nat);
                proof {
                    lemma_cell_len(i, j, k as nat);
                }
                record(sim, &mut out, (i, k, 'A'), Ghost(s0), Ghost(d0));
                record(sim, &mut out, (k, j, 'B'), Ghost(s0), Ghost(d0.push((i, k, 'A'))));
                record(sim, &mut out, (i, j, 'C'), Ghost(s0), Ghost(d0.push((i, k, 'A')).push((k, j, 'B'))));
                record(sim, &mut out, (i, j, 'C'), Ghost(s0), Ghost(d0.push((i, k, 'A')).push((k, j, 'B')).push((i, j, 'C'))));
                proof {
                    assert(d0.push((i, k, 'A')).push((k, j, 'B')).push((i, j, 'C')).push((i, j, 'C'))
                        =~= base_j + cell_keys(i, j, (k + 1) as nat));
                }
                k = k + 1;
            }
            proof {
                assert(base_j + cell_keys(i, j, ac as nat) =~= base_i + row_keys(i, (j + 1) as nat, ac as nat));
            }
            j = j + 1;
        }
        proof {
            assert(base_i + row_keys(i, bc as nat, ac as nat) =~= nmm_keys((i + 1) as nat, bc as nat, ac as nat));
        }
        i = i + 1;
    }
    out
}

/// The keys of the naive multiply of an `a_size_row x a_size_col` matrix A by an
/// `b_size_row x b_size_col` matrix B (`C[i][j] += A[i][k] * B[k][j]`), each labelled and
/// paired with its reuse distance under the array-based algorithm when `lru_type` is
/// `"Vec"`, the list-based one otherwise.
pub fn nmm(a_size_row: usize, a_size_col: usize, b_size_row: usize, b_size_col: usize, lru_type: String) -> (r: Vec<(String, Option<usize>)>)
    requires
        a_size_col == b_size_row,
        nmm_keys(a_size_row as nat, b_size_col as nat, a_size_col as nat).len() < usize::MAX,
    ensures
        r@.len() == nmm_keys(a_size_row as nat, b_size_col as nat, a_size_col as nat).len(),
        forall|p: int| 0 <= p < r@.len() ==> r@[p].0@ == key_text(nmm_keys(a_size_row as nat, b_size_col as nat, a_size_col as nat)[p]),
        vstd::laws_eq::obeys_concrete_eq::<MatKey>() ==> forall|p: int| 0 <= p < r@.len() ==> dist_of(r@[p].1)
            == distances_from(Seq::empty(), nmm_keys(a_size_row as nat, b_size_col as nat, a_size_col as nat))[p],
{
    proof {
        reveal_strlit("Vec");
    }
    if lru_type == String::from_str("Vec") {
        let mut sim: LRUVec<MatKey> = LRUVec::new();
        run_nmm(&mut sim, a_size_row, a_size_col, b_size_col)
    } else {
        let mut sim: LRUStack<MatKey> = LRUStack::new();
        run_nmm(&mut sim, a_size_row, a_size_col, b_size_col)
    }
}

} // verus!
