//! Numbers. A number of the language is a double-precision value, held here
//! as its 64-bit pattern: one sign bit, eleven exponent bits, fifty-two
//! fraction bits. What can be read off the pattern exactly (sign, order,
//! zero) is computed here; what needs rounding (sums, products, quotients,
//! the value of a numeral) is the work of the interpreter's host.
//!
//! A pattern with exponent `e` and fraction `f` denotes, up to its sign,
//! `(2^52 + f) * 2^(e - 1075)`, or `f * 2^-1074` when `e` is 0. Every such
//! number is a whole multiple of `2^-1074`, so the specifications speak of
//! the number in that unit, which is an integer. The largest exponent,
//! 2047, marks infinity when `f` is 0 and what is not a number otherwise.

use vstd::prelude::*;
use vstd::arithmetic::mul::lemma_mul_strict_inequality;
use vstd::arithmetic::power2::{
    lemma2_to64_rest, lemma_pow2_adds, lemma_pow2_pos, lemma_pow2_strictly_increases,
    lemma_pow2_unfold, pow2,
};

verus! {

/// The pattern whose only set bit is the sign.
pub const SIGN: u64 = 0x8000_0000_0000_0000;

/// The pattern of positive infinity.
pub const INFINITY: u64 = 0x7ff0_0000_0000_0000;

/// The pattern of the machine epsilon, 2^-52.
pub const EPSILON: u64 = 0x3cb0_0000_0000_0000;

/// The pattern without its sign bit.
pub open spec fn magnitude(bits: u64) -> int {
    if bits >= SIGN {
        bits - SIGN
    } else {
        bits as int
    }
}

/// The eleven exponent bits.
pub open spec fn exponent(bits: u64) -> int {
    magnitude(bits) / 0x10_0000_0000_0000
}

/// The fifty-two fraction bits.
pub open spec fn fraction(bits: u64) -> int {
    magnitude(bits) % 0x10_0000_0000_0000
}

/// The pattern is not a number.
pub open spec fn is_nan(bits: u64) -> bool {
    exponent(bits) == 2047 && fraction(bits) != 0
}

/// The absolute value that a pattern denotes, in units of 2^-1074. An
/// infinity counts as 2^2098 units, beyond every finite number.
pub open spec fn weight(bits: u64) -> int {
    if exponent(bits) == 0 {
        fraction(bits)
    } else {
        (0x10_0000_0000_0000 + fraction(bits)) * pow2((exponent(bits) - 1) as nat)
    }
}

/// The number that a pattern denotes, in units of 2^-1074.
pub open spec fn scaled(bits: u64) -> int {
    if bits >= SIGN {
        -weight(bits)
    } else {
        weight(bits)
    }
}

/// The pattern denotes zero: it is `0.0` or `-0.0`.
pub open spec fn is_zero(bits: u64) -> bool {
    !is_nan(bits) && scaled(bits) == 0
}

/// `a < b` as doubles: both are numbers and `a` denotes the smaller one.
pub open spec fn less(a: u64, b: u64) -> bool {
    !is_nan(a) && !is_nan(b) && scaled(a) < scaled(b)
}

/// `a <= b` as doubles: both are numbers and `a` does not denote the
/// larger one.
pub open spec fn less_equal(a: u64, b: u64) -> bool {
    !is_nan(a) && !is_nan(b) && scaled(a) <= scaled(b)
}

/// The pattern of `-x`: that of `x` with the sign bit flipped.
pub open spec fn negated(bits: u64) -> u64 {
    if bits >= SIGN {
        (bits - SIGN) as u64
    } else {
        (bits + SIGN) as u64
    }
}

/// The pattern of `|x|`: that of `x` with the sign bit cleared.
pub open spec fn absolute(bits: u64) -> u64 {
    magnitude(bits) as u64
}

/// Two numbers whose difference is `gap` count as equal: the difference is
/// a number and smaller in absolute value than the machine epsilon, 2^-52.
pub open spec fn negligible(gap: u64) -> bool {
    !is_nan(gap) && weight(gap) < pow2(1022)
}

/// A pattern with the larger magnitude denotes the larger absolute value.
pub proof fn lemma_weight_grows(a: u64, b: u64)
    requires
        magnitude(a) < magnitude(b),
    ensures
        0 <= weight(a) < weight(b),
{
    let unit = 0x10_0000_0000_0000int;
    let (e1, f1) = (exponent(a), fraction(a));
    let (e2, f2) = (exponent(b), fraction(b));
    assert(e1 <= e2);
    if e1 == 0 {
        if e2 > 0 {
            let p = pow2((e2 - 1) as nat) as int;
            lemma_pow2_pos((e2 - 1) as nat);
            assert(unit <= (unit + f2) * p) by (nonlinear_arith)
                requires
                    p >= 1,
                    f2 >= 0,
                    unit > 0,
            ;
        }
    } else {
        let p1 = pow2((e1 - 1) as nat) as int;
        let p2 = pow2((e2 - 1) as nat) as int;
        lemma_pow2_pos((e1 - 1) as nat);
        if e1 == e2 {
            lemma_mul_strict_inequality(unit + f1, unit + f2, p1);
        } else {
            // a is below the next power of two, which b has reached
            lemma_pow2_unfold(e1 as nat);
            if e1 < e2 - 1 {
                lemma_pow2_strictly_increases(e1 as nat, (e2 - 1) as nat);
            }
            assert((unit + f1) * p1 < unit * (2 * p1)) by (nonlinear_arith)
                requires
                    0 <= f1 < unit,
                    p1 >= 1,
            ;
            assert(unit * (2 * p1) <= unit * p2) by (nonlinear_arith)
                requires
                    2 * p1 <= p2,
                    unit > 0,
            ;
            assert(unit * p2 <= (unit + f2) * p2) by (nonlinear_arith)
                requires
                    f2 >= 0,
                    p2 >= 0,
            ;
        }
        assert(0 <= (unit + f1) * p1) by (nonlinear_arith)
            requires
                f1 >= 0,
                p1 >= 1,
                unit > 0,
        ;
    }
}

/// Only the zeros denote zero.
pub proof fn lemma_weight_zero(bits: u64)
    ensures
        weight(bits) >= 0,
        weight(bits) == 0 <==> magnitude(bits) == 0,
{
    if magnitude(bits) > 0 {
        lemma_weight_grows(0, bits);
    }
}

/// The epsilon pattern denotes 2^-52, which is 2^1022 units.
pub proof fn lemma_epsilon()
    ensures
        !is_nan(EPSILON),
        scaled(EPSILON) == pow2(1022),
{
    lemma2_to64_rest();
    lemma_pow2_adds(52, 970);
    assert(exponent(EPSILON) == 971);
    assert(fraction(EPSILON) == 0);
}

/// Flipping the sign bit negates the number, and clearing it gives the
/// absolute value.
pub proof fn lemma_signs(bits: u64)
    ensures
        is_nan(negated(bits)) == is_nan(bits),
        scaled(negated(bits)) == -scaled(bits),
        is_nan(absolute(bits)) == is_nan(bits),
        scaled(absolute(bits)) == weight(bits),
{
    lemma_weight_zero(bits);
}

/// Clears the sign bit.
pub fn abs(bits: u64) -> (r: u64)
    ensures
        r == absolute(bits),
{
    if bits >= SIGN {
        bits - SIGN
    } else {
        bits
    }
}

/// Flips the sign bit.
pub fn negate(bits: u64) -> (r: u64)
    ensures
        r == negated(bits),
{
    if bits >= SIGN {
        bits - SIGN
    } else {
        bits + SIGN
    }
}

/// Tells whether the pattern is not a number.
pub fn nan(bits: u64) -> (r: bool)
    ensures
        r == is_nan(bits),
{
    abs(bits) > INFINITY
}

/// Tells whether the pattern is `0.0` or `-0.0`.
pub fn zero(bits: u64) -> (r: bool)
    ensures
        r == is_zero(bits),
{
    proof {
        lemma_weight_zero(bits);
    }
    abs(bits) == 0
}

/// Compares two doubles with `<`.
pub fn less_than(a: u64, b: u64) -> (r: bool)
    ensures
        r == less(a, b),
{
    if nan(a) || nan(b) {
        return false;
    }
    proof {
        lemma_weight_zero(a);
        lemma_weight_zero(b);
        if magnitude(a) < magnitude(b) {
            lemma_weight_grows(a, b);
        }
        if magnitude(b) < magnitude(a) {
            lemma_weight_grows(b, a);
        }
    }
    if a >= SIGN {
        // a is below or at zero
        if b >= SIGN {
            abs(a) > abs(b)
        } else {
            abs(a) != 0 || b != 0
        }
    } else {
        if b >= SIGN {
            false
        } else {
            a < b
        }
    }
}

/// Compares two doubles with `<=`.
pub fn at_most(a: u64, b: u64) -> (r: bool)
    ensures
        r == less_equal(a, b),
{
    if nan(a) || nan(b) {
        return false;
    }
    proof {
        lemma_weight_zero(a);
        lemma_weight_zero(b);
        if magnitude(a) < magnitude(b) {
            lemma_weight_grows(a, b);
        }
        if magnitude(b) < magnitude(a) {
            lemma_weight_grows(b, a);
        }
    }
    if a >= SIGN {
        if b >= SIGN {
            abs(a) >= abs(b)
        } else {
            true
        }
    } else {
        if b >= SIGN {
            a == 0 && abs(b) == 0
        } else {
            a <= b
        }
    }
}

/// Tells whether a difference is smaller in absolute value than the machine
/// epsilon.
pub fn is_negligible(gap: u64) -> (r: bool)
    ensures
        r == negligible(gap),
{
    proof {
        lemma_epsilon();
        lemma_signs(gap);
    }
    less_than(abs(gap), EPSILON)
}

} // verus!
