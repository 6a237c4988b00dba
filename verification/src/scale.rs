//! The render-scale factor.
//!
//! The stored record keeps the render scale as a binary64 number. This module
//! holds such a number by its 64 bits and reasons about its exact value with
//! integers only: a finite number is a whole multiple of 2^-1074, and
//! [`exact`] is that multiple. The selectable factors 0.6, 0.8, ..., 2.0 and
//! the lookup tolerance 0.001 are the binary64 numbers nearest to those
//! decimals, and "within tolerance" compares exact values, so nothing is
//! rounded anywhere.

use vstd::arithmetic::power2::{
    lemma2_to64, lemma2_to64_rest, lemma_pow2_adds, lemma_pow2_pos,
    lemma_pow2_strictly_increases, lemma_pow2_unfold, pow2,
};
use vstd::prelude::*;

verus! {

/// The sign bit of a binary64 number.
pub const SIGN_BIT: u64 = 0x8000_0000_0000_0000;

/// 2^52: one past the largest fraction field, and the weight of the leading
/// significand bit that a normal number does not store.
pub const HIDDEN_BIT: u64 = 0x0010_0000_0000_0000;

/// The bits of the lookup tolerance, the binary64 number nearest to 0.001.
pub const TOLERANCE: u64 = 0x3F50_624D_D2F1_A9FC;

/// The significand of [`TOLERANCE`], hidden bit included; its exponent field is 1013.
pub const TOLERANCE_UNITS: u128 = 0x0010_624D_D2F1_A9FC;

/// How many selectable factors there are.
pub const FACTOR_COUNT: usize = 8;

/// Whether the sign bit is set.
pub open spec fn sign_set(bits: u64) -> bool {
    bits >= SIGN_BIT
}

/// The 11-bit exponent field.
pub open spec fn exponent_field(bits: u64) -> int {
    (bits as int / HIDDEN_BIT as int) % 2048
}

/// The 52-bit fraction field.
pub open spec fn fraction_field(bits: u64) -> int {
    bits as int % HIDDEN_BIT as int
}

/// Whether the bits stand for a number, not for an infinity or a NaN.
pub open spec fn is_finite(bits: u64) -> bool {
    exponent_field(bits) != 2047
}

/// The absolute value of a finite number, counted in units of 2^-1074.
pub open spec fn magnitude(bits: u64) -> int {
    if exponent_field(bits) == 0 {
        fraction_field(bits)
    } else {
        (HIDDEN_BIT + fraction_field(bits)) * pow2((exponent_field(bits) - 1) as nat)
    }
}

/// The value of a finite number, counted in units of 2^-1074.
pub open spec fn exact(bits: u64) -> int {
    if sign_set(bits) {
        -magnitude(bits)
    } else {
        magnitude(bits)
    }
}

/// How far apart two finite numbers are, in units of 2^-1074.
pub open spec fn distance(a: u64, b: u64) -> int {
    if exact(a) >= exact(b) {
        exact(a) - exact(b)
    } else {
        exact(b) - exact(a)
    }
}

/// Whether two numbers are finite and differ by less than the tolerance.
pub open spec fn close(a: u64, b: u64) -> bool {
    is_finite(a) && is_finite(b) && distance(a, b) < exact(TOLERANCE)
}

/// A positive normal number in [1/256, 256): what a selectable option may
/// hold. Within this range a number and anything that can be within
/// tolerance of it are whole numbers of 2^-62 that fit in 128 bits.
pub open spec fn ordinary(bits: u64) -> bool {
    !sign_set(bits) && 1015 <= exponent_field(bits) <= 1030
}

/// For a number whose exponent field is at least 1013: its magnitude in
/// units of 2^-62, the unit in which the tolerance is a whole number.
spec fn units(bits: u64) -> int {
    (HIDDEN_BIT + fraction_field(bits)) * pow2((exponent_field(bits) - 1013) as nat)
}

/// The bits of the selectable factor at `step`: the binary64 numbers nearest
/// to 0.6, 0.8, 1.0, 1.2, 1.4, 1.6, 1.8 and 2.0.
pub open spec fn factor_bits(step: int) -> u64 {
    if step == 0 {
        0x3FE3_3333_3333_3333
    } else if step == 1 {
        0x3FE9_9999_9999_999A
    } else if step == 2 {
        0x3FF0_0000_0000_0000
    } else if step == 3 {
        0x3FF3_3333_3333_3333
    } else if step == 4 {
        0x3FF6_6666_6666_6666
    } else if step == 5 {
        0x3FF9_9999_9999_999A
    } else if step == 6 {
        0x3FFC_CCCC_CCCC_CCCD
    } else {
        0x4000_0000_0000_0000
    }
}

/// The exponent field of the factor at `step`.
spec fn factor_exponent(step: int) -> int {
    if step <= 1 {
        1022
    } else if step <= 6 {
        1023
    } else {
        1024
    }
}

/// The fraction field of the factor at `step`.
spec fn factor_fraction(step: int) -> int {
    if step == 0 || step == 3 {
        0x3_3333_3333_3333
    } else if step == 1 || step == 5 {
        0x9_9999_9999_999A
    } else if step == 4 {
        0x6_6666_6666_6666
    } else if step == 6 {
        0xC_CCCC_CCCC_CCCD
    } else {
        0
    }
}

/// The magnitude of the factor at `step`, in units of 2^-62.
spec fn factor_units(step: int) -> int {
    if step == 0 {
        0x2666_6666_6666_6600
    } else if step == 1 {
        0x3333_3333_3333_3400
    } else if step == 2 {
        0x4000_0000_0000_0000
    } else if step == 3 {
        0x4CCC_CCCC_CCCC_CC00
    } else if step == 4 {
        0x5999_9999_9999_9800
    } else if step == 5 {
        0x6666_6666_6666_6800
    } else if step == 6 {
        0x7333_3333_3333_3400
    } else {
        0x8000_0000_0000_0000
    }
}

/// The factor at `step`, in tenths: 6, 8, ..., 20.
pub open spec fn factor_tenths(step: int) -> int {
    6 + 2 * step
}

/// Whether `bits` is a positive normal number that lies less than half a
/// unit in the last place from `tenths / 10`; at most one binary64 number does.
pub open spec fn nearest_to_tenths(bits: u64, tenths: int) -> bool {
    let here = 10 * exact(bits);
    let there = tenths * pow2(1074);
    let gap = if here >= there { here - there } else { there - here };
    &&& !sign_set(bits)
    &&& 1 <= exponent_field(bits) < 2047
    &&& gap < 5 * pow2((exponent_field(bits) - 1) as nat)
}

proof fn lemma_pow2_le(x: nat, y: nat)
    requires
        x <= y,
    ensures
        pow2(x) <= pow2(y),
{
    if x < y {
        lemma_pow2_strictly_increases(x, y);
    }
}

proof fn lemma_fields(bits: u64)
    ensures
        0 <= exponent_field(bits) < 2048,
        0 <= fraction_field(bits) < HIDDEN_BIT,
{
}

/// A normal number with exponent field `e` lies in [2^(e+51), 2^(e+52)) units;
/// a subnormal one lies under 2^52 units.
proof fn lemma_magnitude_bounds(bits: u64)
    ensures
        exponent_field(bits) >= 1 ==> pow2((exponent_field(bits) + 51) as nat) <= magnitude(bits)
            < pow2((exponent_field(bits) + 52) as nat),
        exponent_field(bits) == 0 ==> 0 <= magnitude(bits) < pow2(52),
{
    lemma2_to64();
    lemma2_to64_rest();
    let e = exponent_field(bits);
    let m = HIDDEN_BIT + fraction_field(bits);
    if e >= 1 {
        let p = pow2((e - 1) as nat);
        lemma_pow2_pos((e - 1) as nat);
        lemma_pow2_adds(52, (e - 1) as nat);
        lemma_pow2_adds(53, (e - 1) as nat);
        assert(pow2((e + 51) as nat) == 0x0010_0000_0000_0000 * p);
        assert(pow2((e + 52) as nat) == 0x0020_0000_0000_0000 * p);
        assert(0x0010_0000_0000_0000 * p <= m * p < 0x0020_0000_0000_0000 * p) by (nonlinear_arith)
            requires
                0x0010_0000_0000_0000 <= m < 0x0020_0000_0000_0000,
                p > 0,
        ;
    }
}

/// From exponent field 1013 on, the magnitude is a whole number of [`units`].
proof fn lemma_units(bits: u64)
    requires
        1013 <= exponent_field(bits),
    ensures
        magnitude(bits) == units(bits) * pow2(1012),
{
    let e = exponent_field(bits);
    let m = HIDDEN_BIT + fraction_field(bits);
    let k = pow2((e - 1013) as nat);
    let p = pow2(1012);
    lemma_pow2_adds((e - 1013) as nat, 1012);
    assert(((e - 1013) as nat) + 1012 == (e - 1) as nat);
    assert(m * (k * p) == (m * k) * p) by (nonlinear_arith);
}

/// The tolerance is [`TOLERANCE_UNITS`] units of 2^-62.
proof fn lemma_tolerance()
    ensures
        exponent_field(TOLERANCE) == 1013,
        exact(TOLERANCE) == TOLERANCE_UNITS * pow2(1012),
        exact(TOLERANCE) < pow2(1065),
{
    lemma2_to64();
    lemma2_to64_rest();
    lemma_units(TOLERANCE);
    lemma_pow2_adds(53, 1012);
    lemma_pow2_pos(1012);
    let p = pow2(1012);
    assert(TOLERANCE_UNITS * p < 0x0020_0000_0000_0000 * p) by (nonlinear_arith)
        requires
            TOLERANCE_UNITS < 0x0020_0000_0000_0000,
            p > 0,
    ;
}

/// A number that is negative, or whose exponent field is two or more away
/// from that of an ordinary number, is not within tolerance of it.
proof fn lemma_far_apart(a: u64, b: u64)
    requires
        ordinary(b),
        sign_set(a) || exponent_field(a) + 1 < exponent_field(b) || exponent_field(a)
            > exponent_field(b) + 1,
    ensures
        !close(a, b),
{
    if is_finite(a) {
        let ea = exponent_field(a);
        let eb = exponent_field(b);
        lemma_fields(a);
        lemma_tolerance();
        lemma_magnitude_bounds(a);
        lemma_magnitude_bounds(b);
        lemma_pow2_le(1066, (eb + 51) as nat);
        lemma_pow2_adds(1, 1065);
        lemma2_to64();
        assert(pow2(1066) == 2 * pow2(1065));
        if sign_set(a) {
            assert(magnitude(a) >= 0);
        } else if ea + 1 < eb {
            lemma_pow2_adds(1, (eb + 50) as nat);
            assert(pow2((eb + 51) as nat) == 2 * pow2((eb + 50) as nat));
            lemma_pow2_le(1065, (eb + 50) as nat);
            if ea == 0 {
                lemma_pow2_le(52, (eb + 50) as nat);
            } else {
                lemma_pow2_le((ea + 52) as nat, (eb + 50) as nat);
            }
        } else {
            lemma_pow2_adds(1, (eb + 52) as nat);
            assert(pow2((eb + 53) as nat) == 2 * pow2((eb + 52) as nat));
            lemma_pow2_le((eb + 53) as nat, (ea + 51) as nat);
            lemma_pow2_le(1065, (eb + 52) as nat);
        }
    }
}

/// Within tolerance, decided on whole numbers of [`units`].
proof fn lemma_close_in_units(a: u64, b: u64)
    requires
        !sign_set(a),
        !sign_set(b),
        1013 <= exponent_field(a) < 2047,
        1013 <= exponent_field(b) < 2047,
    ensures
        close(a, b) <==> (if units(a) >= units(b) {
            units(a) - units(b)
        } else {
            units(b) - units(a)
        }) < TOLERANCE_UNITS,
{
    lemma_units(a);
    lemma_units(b);
    lemma_tolerance();
    lemma_pow2_pos(1012);
    let p = pow2(1012) as int;
    let x = units(a);
    let y = units(b);
    let t = TOLERANCE_UNITS as int;
    assert(x >= y <==> x * p >= y * p) by (nonlinear_arith)
        requires
            p > 0,
    ;
    assert(x * p - y * p == (x - y) * p) by (nonlinear_arith);
    assert(y * p - x * p == (y - x) * p) by (nonlinear_arith);
    assert((x - y) * p < t * p <==> x - y < t) by (nonlinear_arith)
        requires
            p > 0,
    ;
    assert((y - x) * p < t * p <==> y - x < t) by (nonlinear_arith)
        requires
            p > 0,
    ;
}

/// A finite number is within tolerance of itself.
pub proof fn lemma_close_reflexive(bits: u64)
    requires
        is_finite(bits),
    ensures
        close(bits, bits),
{
    lemma_tolerance();
    lemma_pow2_pos(1012);
    let p = pow2(1012) as int;
    assert(TOLERANCE_UNITS * p > 0) by (nonlinear_arith)
        requires
            TOLERANCE_UNITS > 0,
            p > 0,
    ;
}

/// Every selectable factor is an ordinary number.
pub proof fn lemma_factor_ordinary(step: int)
    requires
        0 <= step < FACTOR_COUNT,
    ensures
        ordinary(factor_bits(step)),
        is_finite(factor_bits(step)),
{
}

/// The fields of each selectable factor, and its magnitude in [`units`].
proof fn lemma_factor_fields(step: int)
    requires
        0 <= step < FACTOR_COUNT,
    ensures
        exponent_field(factor_bits(step)) == factor_exponent(step),
        fraction_field(factor_bits(step)) == factor_fraction(step),
        units(factor_bits(step)) == factor_units(step),
{
    lemma2_to64();
    if step == 0 {
        assert(exponent_field(0x3FE3_3333_3333_3333) == 1022);
        assert(fraction_field(0x3FE3_3333_3333_3333) == 0x3_3333_3333_3333);
        assert(pow2(9) == 512);
        assert(0x13_3333_3333_3333 * 512 == 0x2666_6666_6666_6600);
    } else if step == 1 {
        assert(exponent_field(0x3FE9_9999_9999_999A) == 1022);
        assert(fraction_field(0x3FE9_9999_9999_999A) == 0x9_9999_9999_999A);
        assert(pow2(9) == 512);
        assert(0x19_9999_9999_999A * 512 == 0x3333_3333_3333_3400);
    } else if step == 2 {
        assert(exponent_field(0x3FF0_0000_0000_0000) == 1023);
        assert(fraction_field(0x3FF0_0000_0000_0000) == 0x0);
        assert(pow2(10) == 1024);
        assert(0x10_0000_0000_0000 * 1024 == 0x4000_0000_0000_0000);
    } else if step == 3 {
        assert(exponent_field(0x3FF3_3333_3333_3333) == 1023);
        assert(fraction_field(0x3FF3_3333_3333_3333) == 0x3_3333_3333_3333);
        assert(pow2(10) == 1024);
        assert(0x13_3333_3333_3333 * 1024 == 0x4CCC_CCCC_CCCC_CC00);
    } else if step == 4 {
        assert(exponent_field(0x3FF6_6666_6666_6666) == 1023);
        assert(fraction_field(0x3FF6_6666_6666_6666) == 0x6_6666_6666_6666);
        assert(pow2(10) == 1024);
        assert(0x16_6666_6666_6666 * 1024 == 0x5999_9999_9999_9800);
    } else if step == 5 {
        assert(exponent_field(0x3FF9_9999_9999_999A) == 1023);
        assert(fraction_field(0x3FF9_9999_9999_999A) == 0x9_9999_9999_999A);
        assert(pow2(10) == 1024);
        assert(0x19_9999_9999_999A * 1024 == 0x6666_6666_6666_6800);
    } else if step == 6 {
        assert(exponent_field(0x3FFC_CCCC_CCCC_CCCD) == 1023);
        assert(fraction_field(0x3FFC_CCCC_CCCC_CCCD) == 0xC_CCCC_CCCC_CCCD);
        assert(pow2(10) == 1024);
        assert(0x1C_CCCC_CCCC_CCCD * 1024 == 0x7333_3333_3333_3400);
    } else {
        assert(exponent_field(0x4000_0000_0000_0000) == 1024);
        assert(fraction_field(0x4000_0000_0000_0000) == 0x0);
        assert(pow2(11) == 2048);
        assert(0x10_0000_0000_0000 * 2048 == 0x8000_0000_0000_0000);
    }
}

/// Each selectable factor is the binary64 number nearest to its decimal:
/// the factor at `step` lies less than half a unit in the last place from
/// `(6 + 2 * step) / 10`.
pub proof fn lemma_factor_nearest(step: int)
    requires
        0 <= step < FACTOR_COUNT,
    ensures
        nearest_to_tenths(factor_bits(step), factor_tenths(step)),
{
    lemma2_to64();
    lemma2_to64_rest();
    lemma_factor_fields(step);
    let e = factor_exponent(step);
    let m = HIDDEN_BIT + factor_fraction(step);
    let p = pow2((e - 1) as nat) as int;
    let k = pow2((1075 - e) as nat) as int;
    let tenths = factor_tenths(step);
    lemma_pow2_pos((e - 1) as nat);
    lemma_pow2_adds((1075 - e) as nat, (e - 1) as nat);
    assert(((1075 - e) as nat) + ((e - 1) as nat) == 1074);
    assert(pow2(1074) == k * p);
    let gap = 10 * m - tenths * k;
    if step == 0 {
        assert(k == 0x20_0000_0000_0000);
        assert(gap == 10 * 0x13_3333_3333_3333 - 6 * 0x20_0000_0000_0000);
    } else if step == 1 {
        assert(k == 0x20_0000_0000_0000);
        assert(gap == 10 * 0x19_9999_9999_999A - 8 * 0x20_0000_0000_0000);
    } else if step == 2 {
        assert(k == 0x10_0000_0000_0000);
        assert(gap == 10 * 0x10_0000_0000_0000 - 10 * 0x10_0000_0000_0000);
    } else if step == 3 {
        assert(k == 0x10_0000_0000_0000);
        assert(gap == 10 * 0x13_3333_3333_3333 - 12 * 0x10_0000_0000_0000);
    } else if step == 4 {
        assert(k == 0x10_0000_0000_0000);
        assert(gap == 10 * 0x16_6666_6666_6666 - 14 * 0x10_0000_0000_0000);
    } else if step == 5 {
        assert(k == 0x10_0000_0000_0000);
        assert(gap == 10 * 0x19_9999_9999_999A - 16 * 0x10_0000_0000_0000);
    } else if step == 6 {
        assert(k == 0x10_0000_0000_0000);
        assert(gap == 10 * 0x1C_CCCC_CCCC_CCCD - 18 * 0x10_0000_0000_0000);
    } else {
        assert(k == 0x8_0000_0000_0000);
        assert(gap == 10 * 0x10_0000_0000_0000 - 20 * 0x8_0000_0000_0000);
    }
    assert(-5 < gap < 5);
    assert(10 * (m * p) - tenths * (k * p) == gap * p) by (nonlinear_arith)
        requires
            gap == 10 * m - tenths * k,
    ;
    assert(-5 * p < gap * p < 5 * p) by (nonlinear_arith)
        requires
            -5 < gap < 5,
            p > 0,
    ;
}

/// The selectable factors lie further apart than the tolerance: one is
/// within tolerance of another only if it is the same factor.
pub proof fn lemma_factors_apart(i: int, j: int)
    requires
        0 <= i < FACTOR_COUNT,
        0 <= j < FACTOR_COUNT,
    ensures
        close(factor_bits(i), factor_bits(j)) <==> i == j,
{
    lemma_factor_fields(i);
    lemma_factor_fields(j);
    lemma_close_in_units(factor_bits(i), factor_bits(j));
}

/// 2^k for a small k.
fn two_to(k: u64) -> (r: u128)
    requires
        k <= 18,
    ensures
        r == pow2(k as nat),
        r <= 0x4_0000,
{
    proof {
        lemma2_to64();
    }
    let mut r: u128 = 1;
    let mut i: u64 = 0;
    while i < k
        invariant
            i <= k <= 18,
            r == pow2(i as nat),
            r <= pow2(18),
            pow2(18) == 0x4_0000,
        decreases k - i,
    {
        proof {
            lemma_pow2_unfold((i + 1) as nat);
            lemma_pow2_le((i + 1) as nat, 18);
        }
        r = r * 2;
        i = i + 1;
    }
    r
}

/// A binary64 number, held by its bits.
#[derive(Clone, Copy, Debug, PartialEq, Eq, Structural)]
pub struct Scale {
    pub bits: u64,
}

impl Scale {
    /// The number with the given bits.
    pub fn from_bits(bits: u64) -> (s: Scale)
        ensures
            s.bits == bits,
    {
        Scale { bits }
    }

    /// The bits of the number.
    pub fn to_bits(self) -> (bits: u64)
        ensures
            bits == self.bits,
    {
        self.bits
    }

    /// The selectable factor at `step`, counted from 0.6.
    pub fn factor(step: usize) -> (s: Scale)
        requires
            step < FACTOR_COUNT,
        ensures
            s.bits == factor_bits(step as int),
    {
        let bits: u64 = if step == 0 {
            0x3FE3_3333_3333_3333
        } else if step == 1 {
            0x3FE9_9999_9999_999A
        } else if step == 2 {
            0x3FF0_0000_0000_0000
        } else if step == 3 {
            0x3FF3_3333_3333_3333
        } else if step == 4 {
            0x3FF6_6666_6666_6666
        } else if step == 5 {
            0x3FF9_9999_9999_999A
        } else if step == 6 {
            0x3FFC_CCCC_CCCC_CCCD
        } else {
            0x4000_0000_0000_0000
        };
        Scale { bits }
    }

    /// Whether this number lies within the tolerance of `other`: both
    /// finite, and their exact values less than the tolerance apart. `other`
    /// is an option to compare with, an ordinary number, so that the
    /// comparison can be made in 128-bit whole numbers; this number may be
    /// any, an infinity or a NaN too.
    pub fn is_close(self, other: Scale) -> (r: bool)
        requires
            ordinary(other.bits),
        ensures
            r == close(self.bits, other.bits),
    {
        let ea: u64 = (self.bits / HIDDEN_BIT) % 2048;
        let eb: u64 = (other.bits / HIDDEN_BIT) % 2048;
        if self.bits >= SIGN_BIT || ea + 1 < eb || ea > eb + 1 {
            proof {
                lemma_far_apart(self.bits, other.bits);
            }
            return false;
        }
        let ma: u128 = (HIDDEN_BIT + self.bits % HIDDEN_BIT) as u128;
        let mb: u128 = (HIDDEN_BIT + other.bits % HIDDEN_BIT) as u128;
        let ka: u128 = two_to(ea - 1013);
        let kb: u128 = two_to(eb - 1013);
        assert(ma * ka <= 0x0020_0000_0000_0000 * 0x4_0000) by (nonlinear_arith)
            requires
                ma <= 0x0020_0000_0000_0000,
                ka <= 0x4_0000,
        ;
        assert(mb * kb <= 0x0020_0000_0000_0000 * 0x4_0000) by (nonlinear_arith)
            requires
                mb <= 0x0020_0000_0000_0000,
                kb <= 0x4_0000,
        ;
        let xa: u128 = ma * ka;
        let xb: u128 = mb * kb;
        proof {
            lemma_close_in_units(self.bits, other.bits);
        }
        if xa >= xb {
            xa - xb < TOLERANCE_UNITS
        } else {
            xb - xa < TOLERANCE_UNITS
        }
    }
}

} // verus!
