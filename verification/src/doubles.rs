//! Doubles, by their bits: how they compare, their signs and their sizes.
use vstd::prelude::*;

verus! {

/// The bit that holds the sign.
pub const SIGN: u64 = 0x8000_0000_0000_0000;

/// The bits of infinity.
pub const INFINITY: u64 = 0x7ff0_0000_0000_0000;

/// The bits of zero.
pub const ZERO: u64 = 0;

/// The bits of one.
pub const ONE_BITS: u64 = 0x3ff0_0000_0000_0000;

/// The bits of one half.
pub const HALF_BITS: u64 = 0x3fe0_0000_0000_0000;

/// The bits of ten.
pub const TEN_BITS: u64 = 0x4024_0000_0000_0000;

/// The bits of the largest number.
pub const LARGEST: u64 = 0x7fef_ffff_ffff_ffff;

/// The bits of minus infinity.
pub const MINUS_INFINITY: u64 = 0xfff0_0000_0000_0000;

/// The bits without the sign.
pub open spec fn unsigned(bits: u64) -> int {
    if bits >= SIGN {
        bits - SIGN
    } else {
        bits as int
    }
}

/// True of bits that stand for no number.
pub open spec fn is_nan(bits: u64) -> bool {
    unsigned(bits) > INFINITY
}

/// Where a double stands among all doubles: those with the sign below zero, from the largest size
/// up, both zeros at zero.
pub open spec fn rank(bits: u64) -> int {
    if bits >= SIGN {
        -unsigned(bits)
    } else {
        unsigned(bits)
    }
}

/// True where both are numbers and the first is greater.
pub open spec fn greater(a: u64, b: u64) -> bool {
    !is_nan(a) && !is_nan(b) && rank(a) > rank(b)
}

/// True where both are numbers and the first is greater or they are equal.
pub open spec fn no_less(a: u64, b: u64) -> bool {
    !is_nan(a) && !is_nan(b) && rank(a) >= rank(b)
}

/// True where both are numbers and they are equal.
pub open spec fn same(a: u64, b: u64) -> bool {
    !is_nan(a) && !is_nan(b) && rank(a) == rank(b)
}

/// The greater of two, or the one that is a number.
pub open spec fn max_of(a: u64, b: u64) -> u64 {
    if is_nan(a) || greater(b, a) {
        b
    } else {
        a
    }
}

/// The smaller of two, or the one that is a number.
pub open spec fn min_of(a: u64, b: u64) -> u64 {
    if is_nan(a) || greater(a, b) {
        b
    } else {
        a
    }
}

/// A double without its sign.
pub open spec fn size_of(bits: u64) -> u64 {
    unsigned(bits) as u64
}

/// A double with the other sign.
pub open spec fn negative(bits: u64) -> u64 {
    if bits >= SIGN {
        (bits - SIGN) as u64
    } else {
        (bits + SIGN) as u64
    }
}

/// A double between bounds.
pub open spec fn between(bits: u64, low: u64, high: u64) -> u64 {
    if greater(low, bits) {
        low
    } else if greater(bits, high) {
        high
    } else {
        bits
    }
}

/// True of a number that is not infinite.
pub open spec fn is_finite(bits: u64) -> bool {
    unsigned(bits) < INFINITY
}

/// The size of a finite number, in units of the smallest positive one: the fraction, which has one
/// more leading bit above the smallest exponent, by the power of two of the exponent.
pub open spec fn unsigned_units(unsigned: int) -> int {
    let exponent = unsigned / 0x10_0000_0000_0000;
    let fraction = unsigned % 0x10_0000_0000_0000;
    if exponent <= 0 {
        fraction
    } else {
        (0x10_0000_0000_0000 + fraction) * vstd::arithmetic::power2::pow2((exponent - 1) as nat)
    }
}

/// The value of a finite number, in units of the smallest positive one.
pub open spec fn units(bits: u64) -> int {
    if bits >= SIGN {
        -unsigned_units(unsigned(bits))
    } else {
        unsigned_units(unsigned(bits))
    }
}

/// A double without its sign
pub fn magnitude(bits: u64) -> (r: u64)
    ensures
        r == size_of(bits),
{
    if bits >= SIGN {
        bits - SIGN
    } else {
        bits
    }
}

/// A double with the other sign
pub fn negated(bits: u64) -> (r: u64)
    ensures
        r == negative(bits),
{
    if bits >= SIGN {
        bits - SIGN
    } else {
        bits + SIGN
    }
}

/// True of bits that stand for no number
pub fn not_a_number(bits: u64) -> (r: bool)
    ensures
        r == is_nan(bits),
{
    magnitude(bits) > INFINITY
}

/// Where a double stands among all doubles
fn place(bits: u64) -> (r: i64)
    ensures
        r == rank(bits),
{
    if bits >= SIGN {
        -((bits - SIGN) as i64)
    } else {
        bits as i64
    }
}

/// `a > b`
pub fn above(a: u64, b: u64) -> (r: bool)
    ensures
        r == greater(a, b),
{
    !not_a_number(a) && !not_a_number(b) && place(a) > place(b)
}

/// `a >= b`
pub fn at_least(a: u64, b: u64) -> (r: bool)
    ensures
        r == no_less(a, b),
{
    !not_a_number(a) && !not_a_number(b) && place(a) >= place(b)
}

/// `a == b`
pub fn equal(a: u64, b: u64) -> (r: bool)
    ensures
        r == same(a, b),
{
    !not_a_number(a) && !not_a_number(b) && place(a) == place(b)
}

/// The greater of two, or the one that is a number
pub fn larger(a: u64, b: u64) -> (r: u64)
    ensures
        r == max_of(a, b),
{
    if not_a_number(a) || above(b, a) {
        b
    } else {
        a
    }
}

/// The smaller of two, or the one that is a number
pub fn smaller(a: u64, b: u64) -> (r: u64)
    ensures
        r == min_of(a, b),
{
    if not_a_number(a) || above(a, b) {
        b
    } else {
        a
    }
}

/// A double between bounds
pub fn clamped(bits: u64, low: u64, high: u64) -> (r: u64)
    ensures
        r == between(bits, low, high),
{
    if above(low, bits) {
        low
    } else if above(bits, high) {
        high
    } else {
        bits
    }
}

proof fn lemma_units_grow(a: int, b: int)
    requires
        0 <= a < b,
    ensures
        0 <= unsigned_units(a) < unsigned_units(b),
{
    let top: int = 0x10_0000_0000_0000;
    let (i, j) = (a / top, b / top);
    let (m, n) = (a % top, b % top);
    assert(i <= j && (i == j ==> m < n));
    if j > 0 {
        let q = vstd::arithmetic::power2::pow2((j - 1) as nat) as int;
        vstd::arithmetic::power2::lemma_pow2_pos((j - 1) as nat);
        assert((top + n) * q >= top * q) by (nonlinear_arith)
            requires
                n >= 0,
                q > 0,
        ;
        assert(top * q >= top) by (nonlinear_arith)
            requires
                q > 0,
                top > 0,
        ;
        if i > 0 {
            let p = vstd::arithmetic::power2::pow2((i - 1) as nat) as int;
            vstd::arithmetic::power2::lemma_pow2_pos((i - 1) as nat);
            assert((top + m) * p >= 0) by (nonlinear_arith)
                requires
                    m >= 0,
                    p > 0,
                    top > 0,
            ;
            if i == j {
                assert((top + m) * p < (top + n) * p) by (nonlinear_arith)
                    requires
                        m < n,
                        p > 0,
                ;
            } else {
                vstd::arithmetic::power2::lemma_pow2_unfold(i as nat);
                if i < j - 1 {
                    vstd::arithmetic::power2::lemma_pow2_strictly_increases(
                        i as nat,
                        (j - 1) as nat,
                    );
                }
                assert((top + m) * p < top * q) by (nonlinear_arith)
                    requires
                        0 <= m < top,
                        p > 0,
                        q >= 2 * p,
                ;
            }
        }
    }
}

/// Finite numbers compare by their values, and both zeros have the value zero.
pub proof fn law_values_are_ordered(a: u64, b: u64)
    requires
        is_finite(a),
        is_finite(b),
    ensures
        greater(a, b) <==> units(a) > units(b),
        no_less(a, b) <==> units(a) >= units(b),
        units(ZERO) == 0,
{
    let (x, y) = (unsigned(a), unsigned(b));
    if x < y {
        lemma_units_grow(x, y);
    } else if y < x {
        lemma_units_grow(y, x);
    }
    if x > 0 {
        lemma_units_grow(0, x);
    }
    if y > 0 {
        lemma_units_grow(0, y);
    }
}

/// Of two numbers one is greater or they are equal, never both; what is greater than a greater one
/// is greater.
pub proof fn law_numbers_are_ordered(a: u64, b: u64, c: u64)
    requires
        !is_nan(a),
        !is_nan(b),
        !is_nan(c),
    ensures
        greater(a, b) || greater(b, a) || same(a, b),
        !(greater(a, b) && greater(b, a)),
        greater(a, b) && greater(b, c) ==> greater(a, c),
        no_less(a, b) == !greater(b, a),
{
}

/// The other sign turns an order round, and done twice gives the double back.
pub proof fn law_negation_turns_the_order(a: u64, b: u64)
    ensures
        negative(negative(a)) == a,
        greater(negative(a), negative(b)) == greater(b, a),
        size_of(negative(a)) == size_of(a),
{
}

/// What is put between bounds stays there, and what is there already is kept.
pub proof fn law_bounds_hold(x: u64, low: u64, high: u64)
    requires
        !is_nan(x),
        no_less(high, low),
    ensures
        no_less(between(x, low, high), low),
        no_less(high, between(x, low, high)),
        no_less(x, low) && no_less(high, x) ==> between(x, low, high) == x,
{
}

/// The greater and the smaller of two numbers are one of them each, and together both; of a number
/// and what is none, the number is taken.
pub proof fn law_extremes_are_taken_from_the_pair(a: u64, b: u64)
    ensures
        max_of(a, b) == a || max_of(a, b) == b,
        min_of(a, b) == a || min_of(a, b) == b,
        is_finite(a) && is_finite(b) ==> {
            &&& units(max_of(a, b)) >= units(a) && units(max_of(a, b)) >= units(b)
            &&& units(min_of(a, b)) <= units(a) && units(min_of(a, b)) <= units(b)
        },
        is_nan(a) ==> max_of(a, b) == b && min_of(a, b) == b,
        is_nan(b) && !is_nan(a) ==> max_of(a, b) == a && min_of(a, b) == a,
{
    if is_finite(a) && is_finite(b) {
        law_values_are_ordered(a, b);
        law_values_are_ordered(b, a);
    }
}

/// The other sign gives the opposite value, and a size is the value without its sign.
pub proof fn law_signs_turn_values_round(a: u64)
    requires
        is_finite(a),
    ensures
        units(negative(a)) == -units(a),
        units(size_of(a)) >= 0,
        units(size_of(a)) == units(a) || units(size_of(a)) == -units(a),
        is_finite(negative(a)) && is_finite(size_of(a)),
{
    if unsigned(a) > 0 {
        lemma_units_grow(0, unsigned(a));
    }
}

/// What stands for no number compares with nothing.
pub proof fn law_no_number_compares(a: u64, b: u64)
    requires
        is_nan(a) || is_nan(b),
    ensures
        !greater(a, b),
        !no_less(a, b),
        !same(a, b),
{
}

/// Infinity is above every finite number and minus infinity below it; the largest number is the
/// last before infinity.
pub proof fn law_infinity_is_above_all(a: u64)
    requires
        is_finite(a),
    ensures
        greater(INFINITY, a),
        greater(a, MINUS_INFINITY),
        no_less(LARGEST, a),
        is_finite(LARGEST),
        !is_finite(INFINITY) && !is_nan(INFINITY),
        !is_finite(MINUS_INFINITY) && !is_nan(MINUS_INFINITY),
        is_nan(0x7ff8_0000_0000_0000),
{
}

/// The named numbers are in the proportions of their names.
pub proof fn law_named_numbers_have_their_values()
    ensures
        units(ZERO) == 0,
        2 * units(HALF_BITS) == units(ONE_BITS),
        10 * units(ONE_BITS) == units(TEN_BITS),
        units(ONE_BITS) == 0x10_0000_0000_0000 * vstd::arithmetic::power2::pow2(1022),
{
    assert(0x3fe0_0000_0000_0000int / 0x10_0000_0000_0000 == 1022);
    assert(0x3ff0_0000_0000_0000int / 0x10_0000_0000_0000 == 1023);
    assert(0x4024_0000_0000_0000int / 0x10_0000_0000_0000 == 1026);
    assert(0x4024_0000_0000_0000int % 0x10_0000_0000_0000 == 0x4_0000_0000_0000);
    assert(units(HALF_BITS) == 0x10_0000_0000_0000 * vstd::arithmetic::power2::pow2(1021));
    assert(units(ONE_BITS) == 0x10_0000_0000_0000 * vstd::arithmetic::power2::pow2(1022));
    assert(units(TEN_BITS) == 0x14_0000_0000_0000 * vstd::arithmetic::power2::pow2(1025));
    vstd::arithmetic::power2::lemma_pow2_unfold(1022);
    vstd::arithmetic::power2::lemma_pow2_unfold(1023);
    vstd::arithmetic::power2::lemma_pow2_unfold(1024);
    vstd::arithmetic::power2::lemma_pow2_unfold(1025);
}

/// The value of a number above the smallest exponent, by its exponent and its fraction.
pub proof fn lemma_units_at(bits: u64, exponent: nat, fraction: int)
    requires
        bits < SIGN,
        exponent >= 1,
        0 <= fraction < 0x10_0000_0000_0000,
        bits == exponent * 0x10_0000_0000_0000 + fraction,
    ensures
        units(bits) == (0x10_0000_0000_0000 + fraction) * vstd::arithmetic::power2::pow2(
            (exponent - 1) as nat,
        ),
{
    assert(bits as int / 0x10_0000_0000_0000 == exponent);
    assert(bits as int % 0x10_0000_0000_0000 == fraction);
}

} // verus!
