use vstd::prelude::*;
use vstd::string::StringExecFns;
use crate::hist::Hist;

verus! {

/// The character of a decimal digit.
pub open spec fn digit_char(d: nat) -> char {
    if d == 0 { '0' } else if d == 1 { '1' } else if d == 2 { '2' } else if d == 3 { '3' }
    else if d == 4 { '4' } else if d == 5 { '5' } else if d == 6 { '6' } else if d == 7 { '7' }
    else if d == 8 { '8' } else { '9' }
}

/// The decimal text of `n`.
pub open spec fn decimal(n: nat) -> Seq<char>
    decreases n,
{
    if n < 10 {
        seq![digit_char(n)]
    } else {
        decimal(n / 10).push(digit_char(n % 10))
    }
}

/// The text of a distance: `None`, or `Some(` its decimal `)`.
pub open spec fn dist_text(d: Option<usize>) -> Seq<char> {
    match d {
        None => seq!['N', 'o', 'n', 'e'],
        Some(x) => seq!['S', 'o', 'm', 'e', '('] + decimal(x as nat) + seq![')'],
    }
}

/// A finite distance as a number, 0 for `None`.
pub open spec fn dist_value(d: Option<usize>) -> nat {
    match d {
        Some(x) => x as nat,
        None => 0,
    }
}

/// The lines `value, count` for the entries `v`.
pub open spec fn value_lines(v: Seq<(Option<usize>, usize)>) -> Seq<char>
    decreases v.len(),
{
    if v.len() == 0 {
        Seq::empty()
    } else {
        value_lines(v.drop_last()) + decimal(dist_value(v.last().0)) + seq![',', ' ']
            + decimal(v.last().1 as nat) + seq!['\n']
    }
}

/// The report of a histogram whose buckets, by increasing distance with first accesses
/// last, are `v`, and whose number of accesses is `tot`.
pub open spec fn report_text(v: Seq<(Option<usize>, usize)>, tot: nat) -> Seq<char> {
    let n = v.len();
    let cold = v[n - 1].0 is None;
    "Reuse distance histogram: \n\t"@ + decimal(n) + " distance value(s), min "@ + dist_text(v[0].0)
        + ", max "@ + dist_text(v[n - 1].0) + "\n\t"@ + decimal(tot) + " accesses\n"@
        + (if cold {
        "\t("@ + decimal(v[n - 1].1 as nat) + " first accesses)\n"@
    } else {
        Seq::empty()
    }) + "value, count\n"@ + value_lines(if cold { v.drop_last() } else { v })
}

pub(crate) fn digit_str(d: usize) -> (r: &'static str)
    requires
        d < 10,
    ensures
        r@ == seq![digit_char(d as nat)],
{
    proof {
        reveal_strlit("0");
        reveal_strlit("1");
        reveal_strlit("2");
        reveal_strlit("3");
        reveal_strlit("4");
        reveal_strlit("5");
        reveal_strlit("6");
        reveal_strlit("7");
        reveal_strlit("8");
        reveal_strlit("9");
    }
    if d == 0 { "0" } else if d == 1 { "1" } else if d == 2 { "2" } else if d == 3 { "3" }
    else if d == 4 { "4" } else if d == 5 { "5" } else if d == 6 { "6" } else if d == 7 { "7" }
    else if d == 8 { "8" } else { "9" }
}

/// Appends the decimal text of `n` to `s`.
pub(crate) fn push_decimal(s: &mut String, n: usize)
    ensures
        final(s)@ == old(s)@ + decimal(n as nat),
    decreases n,
{
    if n >= 10 {
        push_decimal(s, n / 10);
    }
    s.append(digit_str(n % 10));
    proof {
        assert(old(s)@ + decimal(n as nat) =~= final(s)@);
    }
}

/// Appends the text of distance `d` to `s`.
fn push_dist(s: &mut String, d: Option<usize>)
    ensures
        final(s)@ == old(s)@ + dist_text(d),
{
    proof {
        reveal_strlit("None");
        reveal_strlit("Some(");
        reveal_strlit(")");
    }
    match d {
        None => {
            s.append("None");
        },
        Some(x) => {
            s.append("Some(");
            push_decimal(s, x);
            s.append(")");
        },
    }
    proof {
        assert(final(s)@ =~= old(s)@ + dist_text(d));
    }
}

impl Hist {
    /// The histogram as a report: the number of distance values with the least and the
    /// greatest, the number of accesses, the number of first accesses if any, then one
    /// line `value, count` per finite distance.
    pub fn to_string(&self) -> (r: String)
        requires
            self.wf(),
            self.total_spec() > 0,
        ensures
            r@ == report_text(self.buckets(), self.total_spec()),
    {
        proof {
            self.lemma_buckets_nonempty();
            reveal_strlit("Reuse distance histogram: \n\t");
            reveal_strlit(" distance value(s), min ");
            reveal_strlit(", max ");
            reveal_strlit("\n\t");
            reveal_strlit(" accesses\n");
            reveal_strlit("\t(");
            reveal_strlit(" first accesses)\n");
            reveal_strlit("value, count\n");
            reveal_strlit(", ");
            reveal_strlit("\n");
        }
        let hvec = self.to_vec();
        let ghost v = hvec@;
        let n = hvec.len();
        let tot = self.total();
        let mut s = String::from_str("Reuse distance histogram: \n\t");
        push_decimal(&mut s, n);
        s.append(" distance value(s), min ");
        push_dist(&mut s, hvec[0].0);
        s.append(", max ");
        push_dist(&mut s, hvec[n - 1].0);
        s.append("\n\t");
        push_decimal(&mut s, tot);
        s.append(" accesses\n");
        let ghost head = s@;
        let cold = hvec[n - 1].0.is_none();
        let mut last = n;
        if cold {
            s.append("\t(");
            push_decimal(&mut s, hvec[n - 1].1);
            s.append(" first accesses)\n");
            last = n - 1;
        }
        s.append("value, count\n");
        let ghost body = if cold { v.drop_last() } else { v };
        let ghost pre = s@;
        proof {
            assert(pre =~= "Reuse distance histogram: \n\t"@ + decimal(n as nat) + " distance value(s), min "@
                + dist_text(v[0].0) + ", max "@ + dist_text(v[n - 1].0) + "\n\t"@ + decimal(tot as nat)
                + " accesses\n"@ + (if cold {
                "\t("@ + decimal(v[n - 1].1 as nat) + " first accesses)\n"@
            } else {
                Seq::empty()
            }) + "value, count\n"@);
            assert(body.take(0) =~= Seq::<(Option<usize>, usize)>::empty());
        }
        let mut i: usize = 0;
        while i < last
            invariant
                i <= last,
                last <= n,
                n == hvec@.len(),
                v == hvec@,
                last == body.len(),
                forall|k: int| 0 <= k < last ==> body[k] == v[k],
                s@ == pre + value_lines(body.take(i as int)),
            decreases last - i,
        {
            let (d, c) = hvec[i];
            let w = match d {
                Some(x) => x,
                None => 0,
            };
            push_decimal(&mut s, w);
            s.append(", ");
            push_decimal(&mut s, c);
            s.append("\n");
            proof {
                assert(body.take(i + 1).drop_last() =~= body.take(i as int));
                assert(body.take(i + 1).last() == (d, c));
                assert(dist_value(d) == w as nat);
                let t = body.take(i + 1);
                assert(value_lines(t) == value_lines(t.drop_last()) + decimal(dist_value(t.last().0))
                    + seq![',', ' '] + decimal(t.last().1 as nat) + seq!['\n']);
                reveal_strlit(", ");
                reveal_strlit("\n");
                assert(", "@ =~= seq![',', ' ']);
                assert("\n"@ =~= seq!['\n']);
                assert(s@ =~= pre + value_lines(body.take(i + 1)));
            }
            i = i + 1;
        }
        proof {
            assert(body.take(last as int) =~= body);
            assert(s@ == pre + value_lines(body));
            let n2 = v.len();
            assert(n2 == n);
            assert(cold == (v[n2 - 1].0 is None));
            assert(body == (if v[n2 - 1].0 is None { v.drop_last() } else { v }));
            assert(report_text(v, tot as nat) == pre + value_lines(body));
        }
        s
    }
}

} // verus!
