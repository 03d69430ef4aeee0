//! Single-precision numbers, held as their IEEE 754 bit patterns and compared
//! without floating-point arithmetic.

use vstd::arithmetic::power2::{
    lemma2_to64, lemma_pow2_adds, lemma_pow2_pos, lemma_pow2_strictly_increases,
    lemma_pow2_unfold, pow2,
};
use vstd::prelude::*;

verus! {

/// The bit of the sign.
pub const SIGN: u32 = 0x8000_0000;

/// The pattern of positive infinity. Magnitudes above it are not numbers.
pub const INFINITY: u32 = 0x7f80_0000;

/// The pattern of `1.0`.
pub const ONE: u32 = 0x3f80_0000;

/// The pattern without its sign: that of the absolute value.
pub open spec fn magnitude(bits: u32) -> u32 {
    if bits >= SIGN {
        (bits - SIGN) as u32
    } else {
        bits
    }
}

/// The pattern stands for no number.
pub open spec fn is_nan(bits: u32) -> bool {
    magnitude(bits) > INFINITY
}

/// Where a number stands in the order of all numbers: patterns of one sign are
/// ordered as the numbers that they stand for, and both zeros are equal.
pub open spec fn rank(bits: u32) -> int {
    if bits >= SIGN {
        -(magnitude(bits) as int)
    } else {
        magnitude(bits) as int
    }
}

/// `a < b`, which nothing but numbers can be.
pub open spec fn below(a: u32, b: u32) -> bool {
    !is_nan(a) && !is_nan(b) && rank(a) < rank(b)
}

/// `a >= b`, which nothing but numbers can be.
pub open spec fn at_least(a: u32, b: u32) -> bool {
    !is_nan(a) && !is_nan(b) && rank(a) >= rank(b)
}

/// `bits` kept within `0.0` and `1.0`. What stands for no number stays.
pub open spec fn within_unit(bits: u32) -> u32 {
    if below(bits, 0) {
        0
    } else if below(ONE, bits) {
        ONE
    } else {
        bits
    }
}

/// The pattern of the absolute value.
pub fn abs(bits: u32) -> (absolute: u32)
    ensures
        absolute == magnitude(bits),
{
    if bits >= SIGN {
        bits - SIGN
    } else {
        bits
    }
}

/// Decides [`below`].
pub fn is_below(a: u32, b: u32) -> (less: bool)
    ensures
        less == below(a, b),
{
    let ma: u32 = abs(a);
    let mb: u32 = abs(b);
    if ma > INFINITY || mb > INFINITY {
        return false;
    }
    if a >= SIGN {
        if b >= SIGN {
            mb < ma
        } else {
            ma > 0 || mb > 0
        }
    } else {
        b < SIGN && ma < mb
    }
}

/// Decides [`at_least`].
pub fn is_at_least(a: u32, b: u32) -> (enough: bool)
    ensures
        enough == at_least(a, b),
{
    abs(a) <= INFINITY && abs(b) <= INFINITY && !is_below(a, b)
}

/// Computes [`within_unit`].
pub fn clamp_to_unit(bits: u32) -> (clamped: u32)
    ensures
        clamped == within_unit(bits),
{
    if is_below(bits, 0) {
        0
    } else if is_below(ONE, bits) {
        ONE
    } else {
        bits
    }
}

/// A clamped number lies within `0.0` and `1.0`, and clamping it again changes
/// nothing.
pub proof fn clamped_stays(bits: u32)
    ensures
        !is_nan(bits) ==> at_least(within_unit(bits), 0) && at_least(ONE, within_unit(bits)),
        within_unit(within_unit(bits)) == within_unit(bits),
{
}

/// `bits` lies within `0.0` and `1.0`.
pub open spec fn in_unit(bits: u32) -> bool {
    at_least(bits, 0) && at_least(ONE, bits)
}

/// The absolute value of the number that `bits` stands for, in units of the least
/// positive one.
pub open spec fn units(bits: u32) -> nat {
    let exponent = magnitude(bits) / 0x80_0000;
    let fraction = magnitude(bits) % 0x80_0000;
    if exponent == 0 {
        fraction as nat
    } else {
        ((fraction + 0x80_0000) * pow2((exponent - 1) as nat)) as nat
    }
}

/// `a` and `b` lie within `0.0` and `1.0`, and so does their exact sum.
pub open spec fn sum_in_unit(a: u32, b: u32) -> bool {
    in_unit(a) && in_unit(b) && units(a) + units(b) <= units(ONE)
}

/// Numbers are ordered as their patterns are.
pub proof fn units_are_ordered(a: u32, b: u32)
    requires
        a < b < SIGN,
    ensures
        units(a) < units(b),
{
    let ea: u32 = a / 0x80_0000;
    let eb: u32 = b / 0x80_0000;
    let fa: int = a % 0x80_0000 + 0x80_0000;
    let fb: int = b % 0x80_0000 + 0x80_0000;
    if ea == eb {
        if ea > 0 {
            lemma_pow2_pos((ea - 1) as nat);
            let p = pow2((ea - 1) as nat) as int;
            assert(fa * p < fb * p) by (nonlinear_arith)
                requires
                    fa < fb,
                    p > 0,
            ;
        }
    } else {
        lemma_pow2_pos((eb - 1) as nat);
        let p = pow2((eb - 1) as nat) as int;
        assert(0x80_0000 * p <= fb * p) by (nonlinear_arith)
            requires
                0x80_0000 <= fb,
                p > 0,
        ;
        if ea > 0 {
            let q = pow2((ea - 1) as nat) as int;
            lemma_pow2_pos((ea - 1) as nat);
            lemma_pow2_unfold(ea as nat);
            if ea < eb - 1 {
                lemma_pow2_strictly_increases(ea as nat, (eb - 1) as nat);
            }
            assert(2 * q <= p);
            assert(fa * q < 0x80_0000 * p) by (nonlinear_arith)
                requires
                    fa < 0x100_0000,
                    2 * q <= p,
                    q > 0,
            ;
        }
    }
}

/// The pattern of `0.5`.
const HALF: u32 = 0x3f00_0000;

/// From `0.5` up to `1.0`, what is missing to `1.0` is a multiple of the same unit.
proof fn lemma_upper_half(bits: u32)
    requires
        HALF <= bits < ONE,
    ensures
        units(bits) + (ONE - bits) * pow2(125) == units(ONE),
        units(ONE) == 2 * units(HALF),
{
    lemma_pow2_unfold(126);
    let p = pow2(125) as int;
    let fraction: int = bits - HALF + 0x80_0000;
    assert(bits / 0x80_0000 == 126 && bits % 0x80_0000 == bits - HALF);
    assert(HALF / 0x80_0000 == 126 && HALF % 0x80_0000 == 0);
    assert(ONE / 0x80_0000 == 127 && ONE % 0x80_0000 == 0);
    assert(fraction * p + (0x100_0000 - fraction) * p == 0x100_0000 * p) by (nonlinear_arith);
}

/// Decides whether there is room for `small` beside `large`, from `0.5` on.
fn has_room(large: u32, small: u32) -> (room: bool)
    requires
        HALF <= large < ONE,
        small <= large,
    ensures
        room == (units(large) + units(small) <= units(ONE)),
{
    let room: u32 = ONE - large;
    let exponent: u32 = small / 0x80_0000;
    let fraction: u32 = small % 0x80_0000;
    let ghost p = pow2(125) as int;
    proof {
        lemma_upper_half(large);
        lemma_pow2_pos(125);
        lemma2_to64();
    }
    if exponent == 0 {
        proof {
            lemma_pow2_strictly_increases(23, 125);
            assert(room * p >= p) by (nonlinear_arith)
                requires
                    room >= 1,
                    p > 0,
            ;
        }
        return true;
    }
    let significand: u32 = fraction + 0x80_0000;
    let shift: u32 = 126 - exponent;
    let ghost q = pow2((exponent - 1) as nat) as int;
    let ghost r = pow2(shift as nat) as int;
    proof {
        lemma_pow2_pos((exponent - 1) as nat);
        lemma_pow2_adds((exponent - 1) as nat, shift as nat);
        assert(p == q * r);
        assert(significand * q <= room * p <==> significand <= room * r) by (nonlinear_arith)
            requires
                p == q * r,
                q > 0,
        ;
    }
    if shift >= 24 {
        proof {
            if shift > 24 {
                lemma_pow2_strictly_increases(24, shift as nat);
            }
            assert(room * r >= r) by (nonlinear_arith)
                requires
                    room >= 1,
                    r > 0,
            ;
        }
        return true;
    }
    proof {
        if shift < 24 {
            lemma_pow2_strictly_increases(shift as nat, 24);
        }
        assert(room * r <= 0x80_0000 * 0x100_0000) by (nonlinear_arith)
            requires
                0 <= room <= 0x80_0000,
                0 < r <= 0x100_0000,
        ;
        vstd::bits::lemma_u64_shl_is_mul(room as u64, shift as u64);
    }
    significand as u64 <= (room as u64) << (shift as u64)
}

/// Decides [`sum_in_unit`].
pub fn is_sum_in_unit(a: u32, b: u32) -> (within: bool)
    ensures
        within == sum_in_unit(a, b),
{
    if !(is_at_least(a, 0) && is_at_least(ONE, a) && is_at_least(b, 0) && is_at_least(ONE, b)) {
        return false;
    }
    let (large, small): (u32, u32) = if abs(a) >= abs(b) {
        (abs(a), abs(b))
    } else {
        (abs(b), abs(a))
    };
    assert(units(a) + units(b) == units(large) + units(small));
    if large < HALF {
        proof {
            lemma_upper_half(HALF);
            units_are_ordered(large, HALF);
            units_are_ordered(small, HALF);
        }
        true
    } else if large < ONE {
        has_room(large, small)
    } else {
        proof {
            if small > 0 {
                units_are_ordered(0, small);
            }
        }
        small == 0
    }
}

/// Patterns are compared as the numbers that they stand for, in units of the least
/// positive one, with their signs.
pub proof fn order_is_that_of_the_numbers(a: u32, b: u32)
    requires
        !is_nan(a),
        !is_nan(b),
    ensures
        ({
            let va: int = if a >= SIGN {
                -(units(a) as int)
            } else {
                units(a) as int
            };
            let vb: int = if b >= SIGN {
                -(units(b) as int)
            } else {
                units(b) as int
            };
            &&& below(a, b) <==> va < vb
            &&& at_least(a, b) <==> va >= vb
        }),
{
    let ma = magnitude(a);
    let mb = magnitude(b);
    if ma < mb {
        units_are_ordered(ma, mb);
    }
    if mb < ma {
        units_are_ordered(mb, ma);
    }
    if ma > 0 {
        units_are_ordered(0, ma);
    }
    if mb > 0 {
        units_are_ordered(0, mb);
    }
    assert(units(a) == units(ma) && units(b) == units(mb));
}

/// What is no number compares with nothing.
pub proof fn nothing_compares_with_nan(a: u32, b: u32)
    requires
        is_nan(a) || is_nan(b),
    ensures
        !below(a, b) && !at_least(a, b),
        is_nan(a) <==> (0x7f80_0000 < a < 0x8000_0000 || 0xff80_0000 < a),
{
}

/// A number from `0.0` to `1.0` is not changed by clamping, and every other one becomes
/// the nearer end.
pub proof fn clamping_goes_to_the_nearer_end(bits: u32)
    ensures
        in_unit(bits) ==> within_unit(bits) == bits,
        below(bits, 0) ==> within_unit(bits) == 0,
        below(ONE, bits) ==> within_unit(bits) == ONE,
        is_nan(bits) ==> within_unit(bits) == bits,
{
}

/// The absolute value of a number loses its sign, and nothing else.
pub proof fn absolute_value_is_positive(bits: u32)
    ensures
        magnitude(bits) < SIGN,
        magnitude(bits) == bits || magnitude(bits) + SIGN == bits,
{
}

/// No number that has a pattern is nearer to the fraction `n / d` than that of `bits`:
/// what lies between the two is at most half the way to the next pattern.
pub open spec fn is_nearest(bits: u32, n: nat, d: nat) -> bool {
    let off = d * units(bits) - n * units(ONE);
    let gap = units((bits + 1) as u32) - units(bits);
    -(d * gap) <= 2 * off <= d * gap
}

/// How far a number below `1.0` lies from a fraction can be told from its exponent and
/// its fraction alone.
pub proof fn nearness_can_be_told(bits: u32, n: nat, d: nat, scale: nat)
    requires
        0x80_0000 <= bits < ONE,
        bits % 0x80_0000 + 1 < 0x80_0000,
        scale == pow2((127 - bits / 0x80_0000) as nat),
        ({
            let off = d * (bits % 0x80_0000 + 0x80_0000) - n * 0x80_0000 * scale;
            -d <= 2 * off <= d
        }),
    ensures
        is_nearest(bits, n, d),
{
    let e: u32 = bits / 0x80_0000;
    let m: int = bits % 0x80_0000 + 0x80_0000;
    let p = pow2((e - 1) as nat) as int;
    let q = scale as int;
    lemma_pow2_adds((127 - e) as nat, (e - 1) as nat);
    assert(pow2(126) == q * p);
    assert((bits + 1) / 0x80_0000 == e && (bits + 1) % 0x80_0000 == bits % 0x80_0000 + 1);
    assert(units(bits) == m * p);
    assert(units((bits + 1) as u32) == (m + 1) * p);
    assert(ONE / 0x80_0000 == 127 && ONE % 0x80_0000 == 0);
    assert(units(ONE) == 0x80_0000 * (q * p));
    lemma_pow2_pos((e - 1) as nat);
    assert((m + 1) * p - m * p == p) by (nonlinear_arith);
    let off = d * m - n * 0x80_0000 * q;
    assert(d * (m * p) - n * (0x80_0000 * (q * p)) == off * p) by (nonlinear_arith)
        requires
            off == d * m - n * 0x80_0000 * q,
    ;
    assert(-(d * p) <= 2 * (off * p) <= d * p) by (nonlinear_arith)
        requires
            -d <= 2 * off <= d,
            p > 0,
    ;
}

}
