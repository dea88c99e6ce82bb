//! Fixed-point numbers: integers that count billionths, and division rounded
//! toward zero.

use vstd::arithmetic::div_mod::{lemma_div_is_ordered, lemma_div_multiples_vanish};
use vstd::prelude::*;

verus! {

/// The number of raw units that make up the real number one.
pub const ONE: i64 = 1_000_000_000;

/// The quotient of `a` by a positive `b`, rounded toward zero.
pub open spec fn trunc_div(a: int, b: int) -> int
    recommends
        b > 0,
{
    if a >= 0 {
        a / b
    } else {
        -((-a) / b)
    }
}

/// The fixed-point product of two fixed-point numbers, rounded toward zero.
pub open spec fn fixed_mul(a: int, b: int) -> int {
    trunc_div(a * b, ONE as int)
}

/// The fixed-point quotient of `a` by a positive `b`, rounded toward zero.
pub open spec fn fixed_div(a: int, b: int) -> int
    recommends
        b > 0,
{
    trunc_div(a * ONE, b)
}

/// What rounding toward zero loses: the quotient lies between zero and the
/// exact quotient, less than one away from it.
pub proof fn lemma_trunc_div_is_near(a: int, b: int)
    requires
        b > 0,
    ensures
        a >= 0 ==> a - b < trunc_div(a, b) * b <= a,
        a <= 0 ==> a <= trunc_div(a, b) * b < a + b,
{
    let magnitude = if a >= 0 { a } else { -a };
    vstd::arithmetic::div_mod::lemma_fundamental_div_mod(magnitude, b);
    vstd::arithmetic::div_mod::lemma_mod_bound(magnitude, b);
    let q = magnitude / b;
    assert(q * b == b * q) by (nonlinear_arith);
    assert((-q) * b == -(q * b)) by (nonlinear_arith);
}

/// A quotient rounded toward zero is at least every integer `m` with
/// `m * b <= a`.
pub proof fn lemma_trunc_div_at_least(a: int, b: int, m: int)
    requires
        b > 0,
        m * b <= a,
    ensures
        m <= trunc_div(a, b),
{
    if a >= 0 {
        lemma_div_is_ordered(m * b, a, b);
        lemma_div_multiples_vanish(m, b);
        assert(m * b == b * m) by (nonlinear_arith);
    } else {
        assert((-a) <= (-m) * b) by (nonlinear_arith)
            requires
                m * b <= a,
        ;
        lemma_div_is_ordered(-a, (-m) * b, b);
        lemma_div_multiples_vanish(-m, b);
        assert((-m) * b == b * (-m)) by (nonlinear_arith);
    }
}

/// A quotient rounded toward zero is at most every integer `m` with
/// `a <= m * b`.
pub proof fn lemma_trunc_div_at_most(a: int, b: int, m: int)
    requires
        b > 0,
        a <= m * b,
    ensures
        trunc_div(a, b) <= m,
{
    lemma_trunc_div_odd(a, b);
    assert((-m) * b <= -a) by (nonlinear_arith)
        requires
            a <= m * b,
    ;
    lemma_trunc_div_at_least(-a, b, -m);
}

/// Rounding toward zero commutes with negation.
pub proof fn lemma_trunc_div_odd(a: int, b: int)
    requires
        b > 0,
    ensures
        trunc_div(-a, b) == -trunc_div(a, b),
{
    if a == 0 {
        assert(0int / b == 0) by (nonlinear_arith)
            requires
                b > 0,
        ;
    }
}

/// A quotient rounded toward zero is no larger in magnitude than any bound
/// `m` with `|a| <= m * b`.
pub proof fn lemma_trunc_div_within(a: int, b: int, m: int)
    requires
        b > 0,
        -(m * b) <= a <= m * b,
    ensures
        -m <= trunc_div(a, b) <= m,
{
    lemma_trunc_div_at_most(a, b, m);
    assert((-m) * b <= a) by (nonlinear_arith)
        requires
            -(m * b) <= a,
    ;
    lemma_trunc_div_at_least(a, b, -m);
}

/// Where `|a| < m * b`, the quotient rounded toward zero is smaller in
/// magnitude than `m`.
pub proof fn lemma_trunc_div_strictly_within(a: int, b: int, m: int)
    requires
        b > 0,
        -(m * b) < a < m * b,
    ensures
        -m < trunc_div(a, b) < m,
{
    assert(a <= (m - 1) * b + (b - 1)) by (nonlinear_arith)
        requires
            a < m * b,
    ;
    assert(-a <= (m - 1) * b + (b - 1)) by (nonlinear_arith)
        requires
            -(m * b) < a,
    ;
    if a >= 0 {
        lemma_div_is_ordered(a, (m - 1) * b + (b - 1), b);
        lemma_quotient_of_sum(m - 1, b - 1, b);
    } else {
        lemma_div_is_ordered(-a, (m - 1) * b + (b - 1), b);
        lemma_quotient_of_sum(m - 1, b - 1, b);
    }
}

/// `(q * b + r) / b == q` for a remainder `0 <= r < b`.
pub proof fn lemma_quotient_of_sum(q: int, r: int, b: int)
    requires
        b > 0,
        0 <= r < b,
    ensures
        (q * b + r) / b == q,
{
    vstd::arithmetic::div_mod::lemma_fundamental_div_mod_converse(q * b + r, b, q, r);
    assert(q * b == b * q) by (nonlinear_arith);
}

} // verus!
