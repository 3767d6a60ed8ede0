//! Colours, carried as `colorsys::Rgb` values.
//!
//! A colour is opaque to the proofs. What they know of one is its three
//! channels and its alpha, each read as the bit pattern of a double-precision
//! number.

use vstd::prelude::*;
use vstd::arithmetic::div_mod::lemma_fundamental_div_mod_converse;
use vstd::arithmetic::power2::{
    lemma2_to64, lemma2_to64_rest, lemma_pow2_adds, lemma_pow2_pos, pow2,
};
use colorsys::Rgb;
use crate::maths::scalar;

verus! {

/// `colorsys::Rgb`, made known to the verifier as an opaque type.
#[verifier::external_type_specification]
#[verifier::external_body]
pub struct ExRgb(colorsys::Rgb);

/// What `Rgb::red` returns for this colour, as a bit pattern.
pub uninterp spec fn red_of(color: colorsys::Rgb) -> u64;

/// What `Rgb::green` returns for this colour, as a bit pattern.
pub uninterp spec fn green_of(color: colorsys::Rgb) -> u64;

/// What `Rgb::blue` returns for this colour, as a bit pattern.
pub uninterp spec fn blue_of(color: colorsys::Rgb) -> u64;

/// What `ColorAlpha::alpha` returns for this colour, as a bit pattern.
pub uninterp spec fn alpha_of(color: colorsys::Rgb) -> u64;

/// `Rgb::clone`, which is derived: the copy is the same colour.
pub assume_specification[ <colorsys::Rgb as Clone>::clone ](source: &colorsys::Rgb) -> (copy:
    colorsys::Rgb)
    ensures
        copy == *source,
;

/// Calls `Rgb::red` and hands the number back as its bit pattern.
#[verifier::external_body]
fn red(color: &Rgb) -> (bits: u64)
    ensures
        bits == red_of(*color),
{
    color.red().to_bits()
}

/// Calls `Rgb::green` and hands the number back as its bit pattern.
#[verifier::external_body]
fn green(color: &Rgb) -> (bits: u64)
    ensures
        bits == green_of(*color),
{
    color.green().to_bits()
}

/// Calls `Rgb::blue` and hands the number back as its bit pattern.
#[verifier::external_body]
fn blue(color: &Rgb) -> (bits: u64)
    ensures
        bits == blue_of(*color),
{
    color.blue().to_bits()
}

/// Calls `ColorAlpha::alpha` and hands the number back as its bit pattern.
#[verifier::external_body]
fn alpha(color: &Rgb) -> (bits: u64)
    ensures
        bits == alpha_of(*color),
{
    colorsys::ColorAlpha::alpha(color).to_bits()
}

/// Calls `Rgb::from` on a triple of bytes. That conversion turns each byte
/// into the double-precision number of the same value and keeps it, since
/// every byte lies within the range of a channel. It sets no alpha, and the
/// alpha of a colour that has none set is one.
#[verifier::external_body]
fn from_bytes(r: u8, g: u8, b: u8) -> (color: Rgb)
    ensures
        red_of(color) == byte_as_double(r),
        green_of(color) == byte_as_double(g),
        blue_of(color) == byte_as_double(b),
        alpha_of(color) == WIDE_ONE,
{
    Rgb::from((r, g, b))
}

/// The bit pattern of the double-precision number whose value is `v`: the
/// biased exponent of the highest set bit, then the remaining bits of `v` at
/// the top of the fraction.
pub open spec fn byte_as_double(v: u8) -> u64 {
    if v == 0 {
        0
    } else if v < 2 {
        0x3ff0_0000_0000_0000
    } else if v < 4 {
        (0x4000_0000_0000_0000 + (v - 2) * 0x0008_0000_0000_0000) as u64
    } else if v < 8 {
        (0x4010_0000_0000_0000 + (v - 4) * 0x0004_0000_0000_0000) as u64
    } else if v < 16 {
        (0x4020_0000_0000_0000 + (v - 8) * 0x0002_0000_0000_0000) as u64
    } else if v < 32 {
        (0x4030_0000_0000_0000 + (v - 16) * 0x0001_0000_0000_0000) as u64
    } else if v < 64 {
        (0x4040_0000_0000_0000 + (v - 32) * 0x0000_8000_0000_0000) as u64
    } else if v < 128 {
        (0x4050_0000_0000_0000 + (v - 64) * 0x0000_4000_0000_0000) as u64
    } else {
        (0x4060_0000_0000_0000 + (v - 128) * 0x0000_2000_0000_0000) as u64
    }
}

/// Two hundred, in double precision.
pub const TWO_HUNDRED: u64 = 0x4069_0000_0000_0000;

/// One, in double precision.
pub const WIDE_ONE: u64 = 0x3ff0_0000_0000_0000;

/// The colour's channels are those of the given bytes, and its alpha is one.
pub open spec fn has_channels(color: Rgb, r: u8, g: u8, b: u8) -> bool {
    &&& red_of(color) == byte_as_double(r)
    &&& green_of(color) == byte_as_double(g)
    &&& blue_of(color) == byte_as_double(b)
    &&& alpha_of(color) == WIDE_ONE
}

/// The colour is white.
pub open spec fn is_white(color: Rgb) -> bool {
    has_channels(color, 255, 255, 255)
}

/// The colour is black.
pub open spec fn is_black(color: Rgb) -> bool {
    has_channels(color, 0, 0, 0)
}

/// Every channel of the colour is above two hundred.
pub open spec fn near_white(color: Rgb) -> bool {
    scalar::wide_above(red_of(color), TWO_HUNDRED) && scalar::wide_above(
        green_of(color),
        TWO_HUNDRED,
    ) && scalar::wide_above(blue_of(color), TWO_HUNDRED)
}

/// The percentage by which a face's luminance scales the lightness of its
/// fill: a hundred for a colour near white, fifty for any other.
pub open spec fn scale_of(color: Rgb) -> u8 {
    if near_white(color) {
        100
    } else {
        50
    }
}

/// The bit pattern of the double-precision number whose value is `v`.
pub fn channel(v: u8) -> (bits: u64)
    ensures
        bits == byte_as_double(v),
{
    let w: u64 = v as u64;
    if v == 0 {
        0
    } else if v < 2 {
        0x3ff0_0000_0000_0000
    } else if v < 4 {
        0x4000_0000_0000_0000 + (w - 2) * 0x0008_0000_0000_0000
    } else if v < 8 {
        0x4010_0000_0000_0000 + (w - 4) * 0x0004_0000_0000_0000
    } else if v < 16 {
        0x4020_0000_0000_0000 + (w - 8) * 0x0002_0000_0000_0000
    } else if v < 32 {
        0x4030_0000_0000_0000 + (w - 16) * 0x0001_0000_0000_0000
    } else if v < 64 {
        0x4040_0000_0000_0000 + (w - 32) * 0x0000_8000_0000_0000
    } else if v < 128 {
        0x4050_0000_0000_0000 + (w - 64) * 0x0000_4000_0000_0000
    } else {
        0x4060_0000_0000_0000 + (w - 128) * 0x0000_2000_0000_0000
    }
}

/// The colour with the given channels and no alpha set.
pub fn rgb(r: u8, g: u8, b: u8) -> (color: Rgb)
    ensures
        has_channels(color, r, g, b),
{
    from_bytes(r, g, b)
}

/// Tells whether the colour has exactly the given channels and an alpha of
/// one.
pub fn is_rgb(color: &Rgb, r: u8, g: u8, b: u8) -> (same: bool)
    ensures
        same == has_channels(*color, r, g, b),
{
    red(color) == channel(r) && green(color) == channel(g) && blue(color) == channel(b) && alpha(
        color,
    ) == WIDE_ONE
}

/// White, the fill of a face that was given none.
pub fn white() -> (color: Rgb)
    ensures
        is_white(color),
{
    rgb(255, 255, 255)
}

/// Black, the stroke of a face that was given none.
pub fn black() -> (color: Rgb)
    ensures
        is_black(color),
{
    rgb(0, 0, 0)
}

/// A copy of an optional colour.
pub fn copy_of(color: &Option<Rgb>) -> (copy: Option<Rgb>)
    ensures
        copy == *color,
{
    match color {
        Some(c) => Some(c.clone()),
        None => None,
    }
}

/// Tells whether every channel of the colour is above two hundred.
pub fn is_near_white(color: &Rgb) -> (r: bool)
    ensures
        r == near_white(*color),
{
    scalar::wide_greater_than(red(color), TWO_HUNDRED) && scalar::wide_greater_than(
        green(color),
        TWO_HUNDRED,
    ) && scalar::wide_greater_than(blue(color), TWO_HUNDRED)
}

/// The percentage by which luminance scales the lightness of this fill.
pub fn lightness_scale(color: &Rgb) -> (percent: u8)
    ensures
        percent == scale_of(*color),
{
    if is_near_white(color) {
        100
    } else {
        50
    }
}

/// White is near white and black is not.
pub proof fn white_is_near_white(color: Rgb)
    ensures
        is_white(color) ==> near_white(color),
        is_black(color) ==> !near_white(color),
{
}

/// A pattern made of the exponent field `1023 + k` and the fraction
/// `(v - low) * c`, where `low` is two to the power of `k` and `c` is what
/// shifts the bits below the highest bit of `v` to the top of the fraction,
/// stands for `v`.
proof fn byte_case(v: u8, k: nat, c: int, low: int, bits: u64)
    requires
        k <= 7,
        c == pow2((52 - k) as nat),
        low == pow2(k),
        low <= v < 2 * low,
        bits == (1023 + k) * 0x10_0000_0000_0000 + (v - low) * c,
    ensures
        scalar::wide_value(bits) == v * pow2(1074),
{
    let unit = 0x10_0000_0000_0000int;
    let f = (v - low) * c;
    let p = pow2((1022 + k) as nat);
    lemma2_to64_rest();
    lemma_pow2_pos((52 - k) as nat);
    lemma_pow2_adds(k, (52 - k) as nat);
    lemma_pow2_adds((52 - k) as nat, (1022 + k) as nat);
    assert(k + (52 - k) as nat == 52 && (52 - k) as nat + (1022 + k) as nat == 1074);
    assert(low * c == unit);
    assert(c * p == pow2(1074));
    assert(0 <= f < unit && unit + f == v * c) by (nonlinear_arith)
        requires
            f == (v - low) * c,
            low * c == unit,
            low <= v < 2 * low,
            c > 0,
    ;
    lemma_fundamental_div_mod_converse(bits as int, unit, (1023 + k) as int, f);
    assert(scalar::wide_magnitude(bits) == bits);
    assert((v * c) * p == v * pow2(1074)) by (nonlinear_arith)
        requires
            c * p == pow2(1074),
    ;
}

/// The pattern that `byte_as_double` gives for a byte stands for the number
/// of that byte, and the constants stand for the numbers that they are named
/// after.
pub proof fn channels_stand_for_their_bytes(v: u8)
    ensures
        scalar::wide_value(byte_as_double(v)) == v * pow2(1074),
        scalar::wide_value(TWO_HUNDRED) == 200 * pow2(1074),
        scalar::wide_value(WIDE_ONE) == pow2(1074),
{
    lemma2_to64();
    lemma2_to64_rest();
    let bits = byte_as_double(v);
    if v == 0 {
        assert(scalar::scaled(0, 0x10_0000_0000_0000) == 0);
    } else if v < 2 {
        byte_case(v, 0, 0x10_0000_0000_0000, 1, bits);
    } else if v < 4 {
        byte_case(v, 1, 0x8_0000_0000_0000, 2, bits);
    } else if v < 8 {
        byte_case(v, 2, 0x4_0000_0000_0000, 4, bits);
    } else if v < 16 {
        byte_case(v, 3, 0x2_0000_0000_0000, 8, bits);
    } else if v < 32 {
        byte_case(v, 4, 0x1_0000_0000_0000, 16, bits);
    } else if v < 64 {
        byte_case(v, 5, 0x8000_0000_0000, 32, bits);
    } else if v < 128 {
        byte_case(v, 6, 0x4000_0000_0000, 64, bits);
    } else {
        byte_case(v, 7, 0x2000_0000_0000, 128, bits);
    }
    byte_case(200, 7, 0x2000_0000_0000, 128, TWO_HUNDRED);
    byte_case(1, 0, 0x10_0000_0000_0000, 1, WIDE_ONE);
}

} // verus!
