//! Integer arithmetic that rounds towards zero.
use vstd::prelude::*;

verus! {

/// True where a number fits in 128 bits.
pub open spec fn fits(x: int) -> bool {
    i128::MIN <= x <= i128::MAX
}

/// Quotient rounded towards zero.
pub open spec fn quotient(a: int, b: int) -> int {
    if a >= 0 && b > 0 {
        a / b
    } else if a < 0 && b > 0 {
        -((-a) / b)
    } else if a >= 0 {
        -(a / (-b))
    } else {
        (-a) / (-b)
    }
}

/// A quotient lies between its dividend and zero.
pub proof fn lemma_quotient_bound(a: int, b: int)
    requires
        b != 0,
    ensures
        a >= 0 && b > 0 ==> 0 <= quotient(a, b) <= a,
        a < 0 && b > 0 ==> a <= quotient(a, b) <= 0,
        a >= 0 && b < 0 ==> -a <= quotient(a, b) <= 0,
        a < 0 && b < 0 ==> 0 <= quotient(a, b) <= -a,
{
    let m = if a >= 0 {
        a
    } else {
        -a
    };
    let d = if b > 0 {
        b
    } else {
        -b
    };
    assert(0 <= m / d <= m) by (nonlinear_arith)
        requires
            m >= 0,
            d > 0,
    ;
}

/// The quotient of two numbers fits but where the least number is divided by minus one.
pub proof fn lemma_quotient_fits(a: int, b: int)
    requires
        fits(a),
        fits(b),
        b != 0,
        a > i128::MIN || b != -1,
    ensures
        fits(quotient(a, b)),
{
    lemma_quotient_bound(a, b);
    if a == i128::MIN && b < -1 {
        assert((-a) / (-b) <= i128::MAX) by (nonlinear_arith)
            requires
                -a == 0x8000_0000_0000_0000_0000_0000_0000_0000int,
                -b >= 2,
        ;
    }
}

/// Quotient rounded towards zero, of numbers whose quotient fits.
pub fn divide(a: i128, b: i128) -> (r: i128)
    requires
        b != 0,
        fits(quotient(a as int, b as int)),
    ensures
        r == quotient(a as int, b as int),
{
    let m: u128 = if a >= 0 {
        a as u128
    } else {
        (-(a + 1)) as u128 + 1
    };
    let d: u128 = if b > 0 {
        b as u128
    } else {
        (-(b + 1)) as u128 + 1
    };
    let q: u128 = m / d;
    proof {
        lemma_quotient_bound(a as int, b as int);
    }
    if (a >= 0) == (b > 0) {
        q as i128
    } else if q == 0 {
        0
    } else {
        -((q - 1) as i128) - 1
    }
}

/// A quotient is rounded towards zero: times the divisor it is the dividend up to less than one
/// divisor, and no further from zero; its sign is that of the exact one.
pub proof fn law_quotient_rounds_towards_zero(a: int, b: int)
    requires
        b > 0,
    ensures
        a >= 0 ==> quotient(a, b) * b <= a < quotient(a, b) * b + b && quotient(a, b) >= 0,
        a <= 0 ==> quotient(a, b) * b - b < a <= quotient(a, b) * b && quotient(a, b) <= 0,
        quotient(a, -b) == -quotient(a, b),
{
    let m = if a >= 0 {
        a
    } else {
        -a
    };
    assert((m / b) * b <= m < (m / b) * b + b && m / b >= 0) by (nonlinear_arith)
        requires
            m >= 0,
            b > 0,
    ;
    assert((-(m / b)) * b == -((m / b) * b)) by (nonlinear_arith);
}

} // verus!
