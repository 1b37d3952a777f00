//! IEEE 754 binary64 numbers by their bit patterns: their numeric order, and
//! their whole part as a byte.
//!
//! A pattern has one sign bit, eleven exponent bits and fifty-two fraction
//! bits. For numbers that are not NaN the pattern without its sign bit grows
//! with the absolute value, so comparing two numbers is comparing two signed
//! integers: `lemma_rank_orders_by_value` derives this from what the fields
//! mean. Numbers are compared and cut down here; none is ever computed.

use vstd::arithmetic::div_mod::{lemma_div_denominator, lemma_div_multiples_vanish};
use vstd::arithmetic::power2::{
    lemma2_to64_rest, lemma_pow2_adds, lemma_pow2_pos, lemma_pow2_strictly_increases,
    lemma_pow2_unfold, pow2,
};
use vstd::bits::lemma_u64_shr_is_div;
use vstd::prelude::*;

verus! {

/// The pattern with only the sign bit set: negative zero.
pub const SIGN_BIT: u64 = 0x8000_0000_0000_0000;

/// The pattern of positive infinity: every exponent bit set, no fraction bit.
pub const INFINITY: u64 = 0x7ff0_0000_0000_0000;

/// The pattern of positive zero.
pub const ZERO: u64 = 0;

/// The pattern of 1.
pub const ONE: u64 = 0x3ff0_0000_0000_0000;

/// The pattern of 255.
pub const BYTE_MAX: u64 = 0x406f_e000_0000_0000;

/// The pattern with its sign bit cleared.
pub open spec fn magnitude(bits: u64) -> u64 {
    if bits >= SIGN_BIT {
        (bits - SIGN_BIT) as u64
    } else {
        bits
    }
}

/// A pattern is a NaN when every exponent bit and some fraction bit is set,
/// whatever the sign.
pub open spec fn is_nan(bits: u64) -> bool {
    magnitude(bits) > INFINITY
}

/// Neither an infinity nor a NaN.
pub open spec fn is_finite(bits: u64) -> bool {
    magnitude(bits) < INFINITY
}

/// The exponent field: the eleven bits below the sign bit.
pub open spec fn exponent(bits: u64) -> nat {
    (magnitude(bits) / 0x10_0000_0000_0000) as nat
}

/// The fraction field: the low fifty-two bits.
pub open spec fn fraction(bits: u64) -> nat {
    (magnitude(bits) % 0x10_0000_0000_0000) as nat
}

/// The absolute value of a finite number, counted in units of the smallest
/// positive number, 2^-1074. With exponent field 0 the number is subnormal
/// and is its fraction field in those units; otherwise the fraction gains a
/// leading one and is doubled once for every step of the exponent above 1.
pub open spec fn units(bits: u64) -> nat {
    if exponent(bits) == 0 {
        fraction(bits)
    } else {
        (0x10_0000_0000_0000 + fraction(bits)) * pow2((exponent(bits) - 1) as nat)
    }
}

/// The value of a finite number, in units of 2^-1074.
pub open spec fn value(bits: u64) -> int {
    if bits >= SIGN_BIT {
        -(units(bits) as int)
    } else {
        units(bits) as int
    }
}

/// A number cut down to a byte: its whole part where that lies between 0 and
/// 255, the nearer of the two where it does not, and 0 for a NaN. The
/// fraction is cut off, not rounded.
pub open spec fn truncated(bits: u64) -> int {
    let whole = units(bits) / pow2(1074);
    if is_nan(bits) || bits >= SIGN_BIT {
        0
    } else if whole >= 255 {
        255
    } else {
        whole as int
    }
}

/// The place of a number in the numeric order: its magnitude, negated under a
/// sign bit. Both zeros have rank 0. Says nothing of a NaN.
pub open spec fn rank(bits: u64) -> int {
    if bits >= SIGN_BIT {
        -(magnitude(bits) as int)
    } else {
        magnitude(bits) as int
    }
}

/// Numeric `a < b`: false as soon as either side is a NaN.
pub open spec fn lt(a: u64, b: u64) -> bool {
    !is_nan(a) && !is_nan(b) && rank(a) < rank(b)
}

/// Numeric `a >= b`: false as soon as either side is a NaN.
pub open spec fn ge(a: u64, b: u64) -> bool {
    !is_nan(a) && !is_nan(b) && rank(a) >= rank(b)
}

/// Clears the sign bit.
fn strip_sign(bits: u64) -> (m: u64)
    ensures
        m == magnitude(bits),
{
    if bits >= SIGN_BIT {
        bits - SIGN_BIT
    } else {
        bits
    }
}

/// Decides numeric `a < b` on two bit patterns.
pub fn less_than(a: u64, b: u64) -> (r: bool)
    ensures
        r == lt(a, b),
{
    let ma: u64 = strip_sign(a);
    let mb: u64 = strip_sign(b);
    if ma > INFINITY || mb > INFINITY {
        false
    } else if a >= SIGN_BIT {
        if b >= SIGN_BIT {
            mb < ma
        } else {
            ma > 0 || mb > 0
        }
    } else {
        b < SIGN_BIT && ma < mb
    }
}

/// Decides numeric `a >= b` on two bit patterns.
pub fn at_least(a: u64, b: u64) -> (r: bool)
    ensures
        r == ge(a, b),
{
    strip_sign(a) <= INFINITY && strip_sign(b) <= INFINITY && !less_than(a, b)
}

/// Cuts a number down to a byte.
pub fn truncate(bits: u64) -> (byte: u8)
    ensures
        byte == truncated(bits),
{
    if bits >= SIGN_BIT || bits > INFINITY {
        return 0;
    }
    proof {
        lemma2_to64_rest();
        lemma_pow2_adds(52, 1022);
        lemma_pow2_pos(1022);
    }
    if bits < ONE {
        proof {
            lemma_units_grow(bits, ONE);
            assert(units(ONE) == pow2(1074));
            assert(units(bits) / pow2(1074) == 0) by (nonlinear_arith)
                requires
                    0 <= units(bits) < pow2(1074),
            ;
        }
        return 0;
    }
    if bits >= BYTE_MAX {
        proof {
            if bits > BYTE_MAX {
                lemma_units_grow(BYTE_MAX, bits);
            }
            lemma_pow2_adds(45, 1029);
            let one = pow2(1074);
            assert(units(BYTE_MAX) == 0x1f_e000_0000_0000 * pow2(1029));
            assert(units(BYTE_MAX) == 255 * one) by (nonlinear_arith)
                requires
                    units(BYTE_MAX) == 0x1f_e000_0000_0000 * pow2(1029),
                    one == 0x2000_0000_0000 * pow2(1029),
            ;
            assert(units(bits) / one >= 255) by (nonlinear_arith)
                requires
                    units(bits) >= 255 * one,
                    one > 0,
            ;
        }
        return 255;
    }
    let field: u64 = bits / 0x10_0000_0000_0000;
    let significand: u64 = 0x10_0000_0000_0000 + bits % 0x10_0000_0000_0000;
    let shift: u64 = 1075 - field;
    let whole: u64 = significand >> shift;
    proof {
        let low = pow2((field - 1) as nat);
        let high = pow2(shift as nat);
        lemma_u64_shr_is_div(significand, shift);
        lemma_pow2_adds((field - 1) as nat, shift as nat);
        lemma_pow2_pos((field - 1) as nat);
        lemma_pow2_pos(shift as nat);
        assert(units(bits) == significand * low);
        assert(pow2(1074) == low * high);
        lemma_div_multiples_vanish(significand as int, low as int);
        lemma_div_denominator(significand * low, low as int, high as int);
        assert(units(bits) / pow2(1074) == significand as int / high as int);
        if shift > 45 {
            lemma_pow2_strictly_increases(45, shift as nat);
        }
        assert(significand as int / high as int <= 0xff) by (nonlinear_arith)
            requires
                significand < 0x20_0000_0000_0000,
                high >= 0x2000_0000_0000,
        ;
    }
    whole as u8
}

/// A greater magnitude is a greater absolute value.
proof fn lemma_units_grow(a: u64, b: u64)
    requires
        magnitude(a) < magnitude(b),
    ensures
        units(a) < units(b),
{
    let one: nat = 0x10_0000_0000_0000;
    let (ea, fa) = (exponent(a), fraction(a));
    let (eb, fb) = (exponent(b), fraction(b));
    assert(magnitude(a) == ea * one + fa);
    assert(magnitude(b) == eb * one + fb);
    assert(ea <= eb);
    if ea == eb {
        if ea > 0 {
            let p = pow2((ea - 1) as nat);
            lemma_pow2_pos((ea - 1) as nat);
            assert((one + fa) * p < (one + fb) * p) by (nonlinear_arith)
                requires
                    fa < fb,
                    p > 0,
            ;
        }
    } else {
        let q = pow2((eb - 1) as nat);
        lemma_pow2_pos((eb - 1) as nat);
        assert(one * q <= (one + fb) * q) by (nonlinear_arith)
            requires
                q > 0,
        ;
        if ea == 0 {
            assert(one <= one * q) by (nonlinear_arith)
                requires
                    q > 0,
            ;
        } else {
            let p = pow2((ea - 1) as nat);
            lemma_pow2_pos((ea - 1) as nat);
            lemma_pow2_unfold(ea);
            assert(pow2(ea) <= q) by {
                if ea < eb - 1 {
                    lemma_pow2_strictly_increases(ea, (eb - 1) as nat);
                }
            }
            assert((one + fa) * p < one * q) by (nonlinear_arith)
                requires
                    fa < one,
                    p > 0,
                    2 * p <= q,
            ;
        }
    }
}

/// The rank orders finite numbers as their values do: reading a pattern as
/// a signed magnitude gives the numeric order.
pub proof fn lemma_rank_orders_by_value(a: u64, b: u64)
    requires
        is_finite(a),
        is_finite(b),
    ensures
        rank(a) < rank(b) <==> value(a) < value(b),
        rank(a) == rank(b) <==> value(a) == value(b),
{
    if magnitude(a) < magnitude(b) {
        lemma_units_grow(a, b);
    }
    if magnitude(b) < magnitude(a) {
        lemma_units_grow(b, a);
    }
    assert(magnitude(a) == magnitude(b) ==> units(a) == units(b));
    assert(units(ZERO) == 0);
    assert(magnitude(a) == 0 ==> units(a) == units(ZERO));
    assert(magnitude(b) == 0 ==> units(b) == units(ZERO));
    if magnitude(a) > 0 {
        lemma_units_grow(ZERO, a);
    }
    if magnitude(b) > 0 {
        lemma_units_grow(ZERO, b);
    }
}

/// Of two numbers exactly one of `a < b` and `a >= b` holds; as soon as a NaN
/// is involved, neither does.
pub proof fn lemma_lt_or_ge(a: u64, b: u64)
    ensures
        !is_nan(a) && !is_nan(b) ==> (lt(a, b) <==> !ge(a, b)),
        is_nan(a) || is_nan(b) ==> !lt(a, b) && !ge(a, b),
{
}

/// `<` is a strict order: nothing is below itself, and it is transitive.
pub proof fn lemma_lt_is_strict(a: u64, b: u64, c: u64)
    ensures
        !lt(a, a),
        lt(a, b) ==> !lt(b, a),
        lt(a, b) && lt(b, c) ==> lt(a, c),
{
}

/// The two zeros are equal: each is at least the other, neither is below.
pub proof fn lemma_zeros_are_equal()
    ensures
        ge(ZERO, SIGN_BIT),
        ge(SIGN_BIT, ZERO),
        !lt(ZERO, SIGN_BIT),
        !lt(SIGN_BIT, ZERO),
{
}

} // verus!
