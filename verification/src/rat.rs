//! Exact rational numbers.
//!
//! Fractions are carried as integer numerator/denominator pairs, so every
//! statement about them is exact.  The spec-level model is a pair of `int`s
//! compared by cross-multiplication; the executable `Ratio` mirrors it with
//! `u128` fields.

use vstd::prelude::*;

verus! {

/// An executable non-negative fraction `num / den`.
#[derive(Clone, Copy, PartialEq, Eq, Structural, Debug)]
pub struct Ratio {
    pub num: u128,
    pub den: u128,
}

impl Ratio {
    /// The mathematical value as a numerator/denominator pair.
    pub open spec fn view_rat(self) -> (int, int) {
        (self.num as int, self.den as int)
    }
}

/// Two fractions denote the same rational number.
pub open spec fn rat_eq(a: (int, int), b: (int, int)) -> bool {
    a.0 * b.1 == b.0 * a.1
}

/// The exact sum of two fractions.
pub open spec fn rat_add(a: (int, int), b: (int, int)) -> (int, int) {
    (a.0 * b.1 + b.0 * a.1, a.1 * b.1)
}

/// The exact sum of a sequence of fractions, folded left to right.
pub open spec fn rat_sum(s: Seq<(int, int)>) -> (int, int)
    decreases s.len(),
{
    if s.len() == 0 {
        (0, 1)
    } else {
        rat_add(rat_sum(s.drop_last()), s.last())
    }
}

/// The sum of the numerators of a sequence of fractions.
pub open spec fn num_sum(s: Seq<(int, int)>) -> int
    decreases s.len(),
{
    if s.len() == 0 {
        0
    } else {
        num_sum(s.drop_last()) + s.last().0
    }
}

/// `rat_eq` is transitive when the middle denominator is non-zero.
pub proof fn lemma_rat_eq_trans(a: (int, int), b: (int, int), c: (int, int))
    requires
        rat_eq(a, b),
        rat_eq(b, c),
        b.1 != 0,
    ensures
        rat_eq(a, c),
{
    assert((a.0 * c.1 - c.0 * a.1) * b.1 == 0) by (nonlinear_arith)
        requires
            a.0 * b.1 == b.0 * a.1,
            b.0 * c.1 == c.0 * b.1,
    ;
    assert(a.0 * c.1 - c.0 * a.1 == 0) by (nonlinear_arith)
        requires
            (a.0 * c.1 - c.0 * a.1) * b.1 == 0,
            b.1 != 0,
    ;
}

/// Adding two fractions over one denominator adds the numerators.
pub proof fn lemma_rat_add_same_den(n1: int, n2: int, d: int)
    requires
        d != 0,
    ensures
        rat_eq(rat_add((n1, d), (n2, d)), (n1 + n2, d)),
{
    assert((n1 * d + n2 * d) * d == (n1 + n2) * (d * d)) by (nonlinear_arith);
}

/// Replacing one summand by an equal fraction keeps the sum equal.
pub proof fn lemma_rat_add_congruence(a: (int, int), b: (int, int), c: (int, int))
    requires
        rat_eq(a, b),
        c.1 != 0,
    ensures
        rat_eq(rat_add(a, c), rat_add(b, c)),
{
    assert((a.0 * c.1 + c.0 * a.1) * (b.1 * c.1) == (b.0 * c.1 + c.0 * b.1) * (a.1 * c.1))
        by (nonlinear_arith)
        requires
            a.0 * b.1 == b.0 * a.1,
    ;
}

/// A sequence of fractions that all share one positive denominator sums to
/// the fraction whose numerator is the sum of the numerators.
pub proof fn lemma_rat_sum_common_den(s: Seq<(int, int)>, d: int)
    requires
        d > 0,
        forall|i: int| 0 <= i < s.len() ==> (#[trigger] s[i]).1 == d,
    ensures
        rat_eq(rat_sum(s), (num_sum(s), d)),
        rat_sum(s).1 > 0,
    decreases s.len(),
{
    if s.len() == 0 {
        assert(0int * d == 0) by (nonlinear_arith);
        assert(rat_eq(rat_sum(s), (num_sum(s), d)));
    } else {
        let s0 = s.drop_last();
        lemma_rat_sum_common_den(s0, d);
        let acc = rat_sum(s0);
        let last = s.last();
        assert(rat_sum(s) == rat_add(acc, last));
        assert(num_sum(s) == num_sum(s0) + last.0);
        assert(last.1 == d);
        assert(last == (last.0, d));
        lemma_rat_add_congruence(acc, (num_sum(s0), d), last);
        lemma_rat_add_same_den(num_sum(s0), last.0, d);
        assert(rat_add((num_sum(s0), d), last).1 == d * d);
        assert(d * d > 0) by (nonlinear_arith)
            requires
                d > 0,
        ;
        lemma_rat_eq_trans(rat_add(acc, last), rat_add((num_sum(s0), d), last), (num_sum(s), d));
        assert(rat_add(acc, last).1 > 0) by (nonlinear_arith)
            requires
                acc.1 > 0,
                last.1 == d,
                d > 0,
        ;
    }
}

/// A sequence of fractions that all share one positive denominator, whose
/// numerators sum to that same denominator, sums to exactly one.
pub proof fn lemma_rat_sum_is_one(s: Seq<(int, int)>, d: int)
    requires
        d > 0,
        forall|i: int| 0 <= i < s.len() ==> (#[trigger] s[i]).1 == d,
        num_sum(s) == d,
    ensures
        rat_eq(rat_sum(s), (1int, 1int)),
{
    lemma_rat_sum_common_den(s, d);
    lemma_rat_eq_trans(rat_sum(s), (d, d), (1int, 1int));
}

/// Extending a sequence of fractions extends the numerator sum.
pub proof fn lemma_num_sum_push(s: Seq<(int, int)>, x: (int, int))
    ensures
        num_sum(s.push(x)) == num_sum(s) + x.0,
{
    assert(s.push(x).drop_last() =~= s);
    assert(s.push(x).last() == x);
}

} // verus!
