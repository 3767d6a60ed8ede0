//! Single- and double-precision numbers as their IEEE-754 bit patterns.
//!
//! A pattern is read as a sign bit and a magnitude. Patterns whose magnitude
//! lies above that of infinity are not numbers. Every other pattern has an
//! `ordinal`: the signed magnitude, an integer that is zero for both zeros.
//! `value` gives the number that the standard reads out of a pattern, and
//! `ordinal_orders_values` shows that the ordinal grows exactly as that number
//! grows. So the numbers are compared by comparing integers.
//!
//! Two operations are carried out on the patterns themselves, since their
//! results are exact or rounded in one plain way: taking the opposite, and
//! halving.

use vstd::prelude::*;
use vstd::arithmetic::div_mod::lemma_fundamental_div_mod_converse;
use vstd::arithmetic::power2::{lemma2_to64, lemma_pow2_adds, lemma_pow2_pos, pow2};

verus! {

/// Positive zero.
pub const ZERO: u32 = 0;

/// One.
pub const ONE: u32 = 0x3f80_0000;

/// The single-precision number nearest to one tenth.
pub const TENTH: u32 = 0x3dcc_cccd;

/// The single-precision number nearest to a full turn, in radians.
pub const FULL_TURN: u32 = 0x40c9_0fdb;

/// The sign bit of a single-precision pattern.
pub const SIGN: u32 = 0x8000_0000;

/// Positive infinity.
pub const INFINITY: u32 = 0x7f80_0000;

/// The sign bit of a double-precision pattern.
pub const WIDE_SIGN: u64 = 0x8000_0000_0000_0000;

/// Positive infinity in double precision.
pub const WIDE_INFINITY: u64 = 0x7ff0_0000_0000_0000;

/// The pattern without its sign bit.
pub open spec fn magnitude(bits: u32) -> int {
    if bits >= SIGN {
        bits - SIGN
    } else {
        bits as int
    }
}

/// The pattern is not a number.
pub open spec fn nan(bits: u32) -> bool {
    magnitude(bits) > INFINITY
}

/// The signed magnitude. For patterns that are numbers it orders them as the
/// numbers themselves are ordered, and both zeros share the ordinal zero.
pub open spec fn ordinal(bits: u32) -> int {
    if bits >= SIGN {
        -magnitude(bits)
    } else {
        magnitude(bits)
    }
}

/// `a < b` as numbers. False when either is not a number.
pub open spec fn below(a: u32, b: u32) -> bool {
    !nan(a) && !nan(b) && ordinal(a) < ordinal(b)
}

/// `a == b` as numbers. False when either is not a number; true of the two
/// zeros.
pub open spec fn same(a: u32, b: u32) -> bool {
    !nan(a) && !nan(b) && ordinal(a) == ordinal(b)
}

/// The pattern with its sign bit flipped.
pub open spec fn negated(bits: u32) -> u32 {
    if bits >= SIGN {
        (bits - SIGN) as u32
    } else {
        (bits + SIGN) as u32
    }
}

/// The first magnitude whose exponent field is two: from here on, halving
/// lowers the exponent field and is exact.
pub const HALVES_EXACTLY: u32 = 0x0100_0000;

/// One step of the exponent field.
pub const EXPONENT_STEP: u32 = 0x0080_0000;

/// Half of a magnitude. Infinity and what is not a number stay as they are.
/// A magnitude with an exponent field of two or more has it lowered by one.
/// A smaller magnitude is its own value in units of the smallest number; it
/// is halved, and where that leaves a half unit over, rounded to the even
/// neighbour.
pub open spec fn half_magnitude(m: int) -> int {
    if m >= INFINITY {
        m
    } else if m >= HALVES_EXACTLY {
        m - EXPONENT_STEP
    } else if m % 2 == 0 || (m / 2) % 2 == 0 {
        m / 2
    } else {
        m / 2 + 1
    }
}

/// The pattern of half the number, rounded to the nearest number and, where
/// two are as near, to the even one. The sign stays.
pub open spec fn halved(bits: u32) -> u32 {
    if bits >= SIGN {
        (half_magnitude(magnitude(bits)) + SIGN) as u32
    } else {
        half_magnitude(magnitude(bits)) as u32
    }
}

/// The double-precision pattern without its sign bit.
pub open spec fn wide_magnitude(bits: u64) -> int {
    if bits >= WIDE_SIGN {
        bits - WIDE_SIGN
    } else {
        bits as int
    }
}

/// The double-precision pattern is not a number.
pub open spec fn wide_nan(bits: u64) -> bool {
    wide_magnitude(bits) > WIDE_INFINITY
}

/// The signed magnitude of a double-precision pattern.
pub open spec fn wide_ordinal(bits: u64) -> int {
    if bits >= WIDE_SIGN {
        -wide_magnitude(bits)
    } else {
        wide_magnitude(bits)
    }
}

/// `a > b` as double-precision numbers. False when either is not a number.
pub open spec fn wide_above(a: u64, b: u64) -> bool {
    !wide_nan(a) && !wide_nan(b) && wide_ordinal(a) > wide_ordinal(b)
}

/// Tells whether the pattern is not a number.
pub fn is_nan(bits: u32) -> (r: bool)
    ensures
        r == nan(bits),
{
    if bits >= SIGN {
        bits - SIGN > INFINITY
    } else {
        bits > INFINITY
    }
}

/// Tells whether the pattern is one of the two zeros.
pub fn is_zero(bits: u32) -> (r: bool)
    ensures
        r == same(bits, ZERO),
        r == (bits == ZERO || bits == SIGN),
{
    bits == ZERO || bits == SIGN
}

/// The signed magnitude of the pattern.
pub fn ordinal_of(bits: u32) -> (r: i64)
    ensures
        r == ordinal(bits),
{
    if bits >= SIGN {
        let m: u32 = bits - SIGN;
        -(m as i64)
    } else {
        bits as i64
    }
}

/// Numeric `a < b`.
pub fn less_than(a: u32, b: u32) -> (r: bool)
    ensures
        r == below(a, b),
{
    !is_nan(a) && !is_nan(b) && ordinal_of(a) < ordinal_of(b)
}

/// Numeric `a == b`: never true of a pattern that is not a number, and true
/// of the two zeros.
pub fn equals(a: u32, b: u32) -> (r: bool)
    ensures
        r == same(a, b),
{
    !is_nan(a) && !is_nan(b) && ordinal_of(a) == ordinal_of(b)
}

/// The number with the opposite sign. Defined on every pattern: only the sign
/// bit changes.
pub fn negate(bits: u32) -> (r: u32)
    ensures
        r == negated(bits),
        magnitude(r) == magnitude(bits),
        (r >= SIGN) != (bits >= SIGN),
        nan(r) == nan(bits),
        !nan(bits) ==> ordinal(r) == -ordinal(bits),
{
    if bits >= SIGN {
        bits - SIGN
    } else {
        bits + SIGN
    }
}

/// Half the number: what dividing by two gives, rounded as the machine
/// rounds. What is not a number is handed back as it is.
pub fn halve(bits: u32) -> (r: u32)
    ensures
        r == halved(bits),
        (r >= SIGN) == (bits >= SIGN),
        nan(r) == nan(bits),
{
    let sign: u32 = if bits >= SIGN {
        SIGN
    } else {
        0
    };
    let m: u32 = bits - sign;
    let half: u32 = if m >= INFINITY {
        m
    } else if m >= HALVES_EXACTLY {
        m - EXPONENT_STEP
    } else if m % 2 == 0 || (m / 2) % 2 == 0 {
        m / 2
    } else {
        m / 2 + 1
    };
    half + sign
}

/// The larger of the two numbers, where a pattern that is not a number loses
/// to one that is. When both are not numbers, or both are equal, `b` is
/// returned.
pub fn larger(a: u32, b: u32) -> (r: u32)
    ensures
        r == if below(b, a) || (nan(b) && !nan(a)) { a } else { b },
{
    if is_nan(b) {
        if is_nan(a) { b } else { a }
    } else if less_than(b, a) {
        a
    } else {
        b
    }
}

/// The divisor of the homogeneous divide: `w` itself, or one where `w` is
/// zero, so that a degenerate point is left undivided.
pub fn divisor(w: u32) -> (r: u32)
    ensures
        r == if same(w, ZERO) { ONE } else { w },
{
    if is_zero(w) { ONE } else { w }
}

/// Tells whether the double-precision pattern is not a number.
pub fn wide_is_nan(bits: u64) -> (r: bool)
    ensures
        r == wide_nan(bits),
{
    if bits >= WIDE_SIGN {
        bits - WIDE_SIGN > WIDE_INFINITY
    } else {
        bits > WIDE_INFINITY
    }
}

/// The signed magnitude of the double-precision pattern.
pub fn wide_ordinal_of(bits: u64) -> (r: i128)
    ensures
        r == wide_ordinal(bits),
{
    if bits >= WIDE_SIGN {
        let m: u64 = bits - WIDE_SIGN;
        -(m as i128)
    } else {
        bits as i128
    }
}

/// Numeric `a > b` in double precision.
pub fn wide_greater_than(a: u64, b: u64) -> (r: bool)
    ensures
        r == wide_above(a, b),
{
    !wide_is_nan(a) && !wide_is_nan(b) && wide_ordinal_of(a) > wide_ordinal_of(b)
}

/// Negating twice gives the pattern back.
pub proof fn negate_twice(bits: u32)
    ensures
        negated(negated(bits)) == bits,
{
}

/// A number equals its negation exactly when it is a zero.
pub proof fn equals_own_negation(bits: u32)
    ensures
        same(bits, negated(bits)) == same(bits, ZERO),
{
}

/// On numbers, `below` is a strict order that `same` respects.
pub proof fn order_is_strict(a: u32, b: u32, c: u32)
    ensures
        !below(a, a),
        below(a, b) && below(b, c) ==> below(a, c),
        !nan(a) && !nan(b) ==> (below(a, b) || same(a, b) || below(b, a)),
        same(a, b) ==> !below(a, b) && !below(b, a),
{
}

/// The absolute value of the number that a magnitude stands for, in units of
/// the smallest number of its precision. `unit` is two to the number of
/// fraction bits. The magnitude is an exponent field above a fraction field.
/// With an exponent field of zero the value is the fraction; otherwise it is
/// one unit more than the fraction, doubled once for each step of the exponent
/// field above one.
pub open spec fn scaled(m: int, unit: int) -> int {
    if m / unit == 0 {
        m % unit
    } else {
        (unit + m % unit) * pow2((m / unit - 1) as nat)
    }
}

/// The number that a single-precision pattern stands for, times two to the
/// power of 149.
pub open spec fn value(bits: u32) -> int {
    if bits >= SIGN {
        -scaled(magnitude(bits), 0x80_0000)
    } else {
        scaled(magnitude(bits), 0x80_0000)
    }
}

/// The number that a double-precision pattern stands for, times two to the
/// power of 1074.
pub open spec fn wide_value(bits: u64) -> int {
    if bits >= WIDE_SIGN {
        -scaled(wide_magnitude(bits), 0x10_0000_0000_0000)
    } else {
        scaled(wide_magnitude(bits), 0x10_0000_0000_0000)
    }
}

/// Below an exponent field of `e + 1`, every value is below `unit` doubled
/// `e` times.
proof fn scaled_is_bounded(m: int, unit: int)
    requires
        0 <= m,
        0 < unit,
    ensures
        0 <= scaled(m, unit) < unit * pow2((m / unit) as nat),
        m / unit > 0 ==> scaled(m, unit) >= unit * pow2((m / unit - 1) as nat),
        m > 0 ==> scaled(m, unit) > 0,
{
    let e = m / unit;
    let f = m % unit;
    assert(0 <= f < unit && 0 <= e && m == unit * e + f) by (nonlinear_arith)
        requires
            0 <= m,
            0 < unit,
            e == m / unit,
            f == m % unit,
    ;
    if e == 0 {
        assert(pow2(0) == 1) by {
            lemma2_to64();
        }
        assert(m == f && unit * 1 == unit) by (nonlinear_arith)
            requires
                m == unit * e + f,
                e == 0,
        ;
        assert(scaled(m, unit) == f);
    } else {
        let p = pow2((e - 1) as nat);
        lemma_pow2_pos((e - 1) as nat);
        assert(pow2(e as nat) == 2 * p) by {
            lemma_pow2_adds(1, (e - 1) as nat);
            lemma2_to64();
        }
        assert((unit + f) * p < unit * (2 * p) && (unit + f) * p >= unit * p && (unit + f) * p
            > 0) by (nonlinear_arith)
            requires
                0 <= f < unit,
                p > 0,
        ;
        assert(scaled(m, unit) == (unit + f) * p);
    }
}

/// A larger magnitude stands for a larger absolute value.
pub proof fn scaled_grows(m1: int, m2: int, unit: int)
    requires
        0 <= m1 < m2,
        0 < unit,
    ensures
        scaled(m1, unit) < scaled(m2, unit),
{
    let e1 = m1 / unit;
    let f1 = m1 % unit;
    let e2 = m2 / unit;
    let f2 = m2 % unit;
    assert(0 <= f1 < unit && 0 <= e1 && m1 == unit * e1 + f1 && 0 <= f2 < unit && m2 == unit * e2
        + f2 && e1 <= e2 && (e1 == e2 ==> f1 < f2)) by (nonlinear_arith)
        requires
            0 <= m1 < m2,
            0 < unit,
            e1 == m1 / unit,
            f1 == m1 % unit,
            e2 == m2 / unit,
            f2 == m2 % unit,
    ;
    if e1 == e2 {
        if e1 > 0 {
            let p = pow2((e1 - 1) as nat);
            lemma_pow2_pos((e1 - 1) as nat);
            assert((unit + f1) * p < (unit + f2) * p) by (nonlinear_arith)
                requires
                    f1 < f2,
                    p > 0,
            ;
        }
    } else {
        scaled_is_bounded(m1, unit);
        scaled_is_bounded(m2, unit);
        let low = pow2(e1 as nat);
        let high = pow2((e2 - 1) as nat);
        assert(low <= high) by {
            if e1 < e2 - 1 {
                vstd::arithmetic::power2::lemma_pow2_strictly_increases(
                    e1 as nat,
                    (e2 - 1) as nat,
                );
            }
        }
        assert(unit * low <= unit * high) by (nonlinear_arith)
            requires
                low <= high,
                0 < unit,
        ;
    }
}

/// The ordinal orders the patterns as the numbers that they stand for are
/// ordered, and two patterns have one ordinal exactly if they stand for one
/// number.
pub proof fn ordinal_orders_values(a: u32, b: u32)
    ensures
        (ordinal(a) < ordinal(b)) == (value(a) < value(b)),
        (ordinal(a) == ordinal(b)) == (value(a) == value(b)),
{
    let ma = magnitude(a);
    let mb = magnitude(b);
    scaled_is_bounded(ma, 0x80_0000);
    scaled_is_bounded(mb, 0x80_0000);
    if ma < mb {
        scaled_grows(ma, mb, 0x80_0000);
    } else if mb < ma {
        scaled_grows(mb, ma, 0x80_0000);
    }
}

/// The wide ordinal orders the double-precision patterns as the numbers that
/// they stand for are ordered.
pub proof fn wide_ordinal_orders_values(a: u64, b: u64)
    ensures
        (wide_ordinal(a) < wide_ordinal(b)) == (wide_value(a) < wide_value(b)),
        (wide_ordinal(a) == wide_ordinal(b)) == (wide_value(a) == wide_value(b)),
{
    let ma = wide_magnitude(a);
    let mb = wide_magnitude(b);
    scaled_is_bounded(ma, 0x10_0000_0000_0000);
    scaled_is_bounded(mb, 0x10_0000_0000_0000);
    if ma < mb {
        scaled_grows(ma, mb, 0x10_0000_0000_0000);
    } else if mb < ma {
        scaled_grows(mb, ma, 0x10_0000_0000_0000);
    }
}

/// The constants stand for the numbers that they are named after. A tenth is
/// no single-precision number; `TENTH` stands for the nearest one, which lies
/// above a tenth by a fifth of the step to its neighbours.
pub proof fn constants_stand_for_their_numbers()
    ensures
        value(ZERO) == 0,
        value(SIGN) == 0,
        value(ONE) == pow2(149),
        10 * value(TENTH) == pow2(149) + 2 * pow2(122),
        value(FULL_TURN) == 0xc9_0fdb * pow2(128),
{
    lemma2_to64();
    assert(magnitude(ONE) / 0x80_0000 == 127 && magnitude(ONE) % 0x80_0000 == 0);
    assert(magnitude(TENTH) / 0x80_0000 == 123 && magnitude(TENTH) % 0x80_0000 == 0x4c_cccd);
    assert(magnitude(FULL_TURN) / 0x80_0000 == 129 && magnitude(FULL_TURN) % 0x80_0000
        == 0x49_0fdb);
    lemma_pow2_adds(23, 126);
    lemma_pow2_adds(27, 122);
    assert(0x80_0000 * pow2(126) == pow2(149));
    let p = pow2(122);
    assert(10 * (0xcc_cccd * p) == 0x800_0000 * p + 2 * p) by (nonlinear_arith);
    assert(0x800_0000 * p == pow2(149));
}

/// Halving is exact wherever the half is a number of the precision: twice the
/// half is the number. It is not for the smallest numbers only, whose odd
/// values have no half; there twice the half lies one unit of the smallest
/// number off, and the half is even.
pub proof fn halved_is_nearest_half(bits: u32)
    requires
        !nan(bits),
    ensures
        magnitude(bits) == INFINITY ==> halved(bits) == bits,
        magnitude(bits) < INFINITY ==> {
            let twice = 2 * value(halved(bits));
            ||| twice == value(bits)
            ||| (twice == value(bits) + 1 || twice == value(bits) - 1) && value(halved(bits)) % 2
                == 0
        },
        HALVES_EXACTLY <= magnitude(bits) < INFINITY ==> 2 * value(halved(bits)) == value(bits),
{
    let m = magnitude(bits);
    let unit = 0x80_0000int;
    lemma2_to64();
    if m < INFINITY {
        let h = half_magnitude(m);
        assert(magnitude(halved(bits)) == h);
        if m >= HALVES_EXACTLY {
            let e = m / unit;
            let f = m % unit;
            assert(2 <= e && 0 <= f < unit && m == unit * e + f) by (nonlinear_arith)
                requires
                    m >= 0x0100_0000,
                    unit == 0x80_0000,
                    e == m / unit,
                    f == m % unit,
            ;
            lemma_fundamental_div_mod_converse(h, unit, e - 1, f);
            let p = pow2((e - 2) as nat);
            assert(pow2((e - 1) as nat) == 2 * p) by {
                lemma_pow2_adds(1, (e - 2) as nat);
            }
            assert(2 * ((unit + f) * p) == (unit + f) * (2 * p)) by (nonlinear_arith);
        } else {
            small_is_its_value(m);
            small_is_its_value(h);
        }
    }
}

/// A magnitude with an exponent field of at most one, and the first with an
/// exponent field of two, stand for their own value in units of the smallest
/// number.
proof fn small_is_its_value(m: int)
    requires
        0 <= m <= HALVES_EXACTLY,
    ensures
        scaled(m, 0x80_0000) == m,
{
    lemma2_to64();
    assert(pow2(0) == 1 && pow2(1) == 2);
    if m >= 0x80_0000 && m < 0x100_0000 {
        lemma_fundamental_div_mod_converse(m, 0x80_0000, 1, m - 0x80_0000);
        assert(scaled(m, 0x80_0000) == (0x80_0000 + (m - 0x80_0000)) * 1);
    } else if m == 0x100_0000 {
        lemma_fundamental_div_mod_converse(m, 0x80_0000, 2, 0);
        assert(scaled(m, 0x80_0000) == (0x80_0000 + 0) * 2);
    } else {
        lemma_fundamental_div_mod_converse(m, 0x80_0000, 0, m);
    }
}

} // verus!
