//! IEEE 754 numbers by their bit patterns.
//!
//! Settings such as thresholds and durations are binary floating-point
//! numbers. The library holds each one as its bit pattern and compares
//! numbers by the order that the patterns carry, so that every rule on them
//! is a rule on integers.

use vstd::prelude::*;

verus! {

/// A single-precision number, by its bit pattern.
#[derive(Clone, Copy, Debug, PartialEq, Eq, Structural)]
pub struct F32Bits {
    pub bits: u32,
}

/// A double-precision number, by its bit pattern.
#[derive(Clone, Copy, Debug, PartialEq, Eq, Structural)]
pub struct F64Bits {
    pub bits: u64,
}

/// The single-precision number with the given pattern.
pub open spec fn f32_bits(bits: u32) -> F32Bits {
    F32Bits { bits }
}

/// The double-precision number with the given pattern.
pub open spec fn f64_bits(bits: u64) -> F64Bits {
    F64Bits { bits }
}

/// Whether the number is neither infinite nor a NaN: its exponent is not all
/// ones.
pub open spec fn f32_is_finite(x: F32Bits) -> bool {
    (x.bits / 0x80_0000) % 0x100 != 0xff
}

/// Whether the pattern is a NaN: its exponent is all ones and its fraction
/// is not zero.
pub open spec fn f32_is_nan(x: F32Bits) -> bool {
    !f32_is_finite(x) && x.bits % 0x80_0000 != 0
}

/// An integer by which the numbers that are no NaN are ordered: the pattern
/// itself, negated where the sign bit is set. Both zeros have the key 0.
pub open spec fn f32_key(x: F32Bits) -> int {
    if x.bits < 0x8000_0000 {
        x.bits as int
    } else {
        0x8000_0000 - x.bits
    }
}

/// Whether `a >= b` as numbers, which a NaN on either side makes false.
pub open spec fn f32_at_least(a: F32Bits, b: F32Bits) -> bool {
    !f32_is_nan(a) && !f32_is_nan(b) && f32_key(a) >= f32_key(b)
}

/// Whether the number is neither infinite nor a NaN.
pub open spec fn f64_is_finite(x: F64Bits) -> bool {
    (x.bits / 0x10_0000_0000_0000) % 0x800 != 0x7ff
}

/// An integer by which the numbers that are no NaN are ordered.
pub open spec fn f64_key(x: F64Bits) -> int {
    if x.bits < 0x8000_0000_0000_0000 {
        x.bits as int
    } else {
        0x8000_0000_0000_0000 - x.bits
    }
}

impl F32Bits {
    /// Whether the number is neither infinite nor a NaN.
    pub fn is_finite(self) -> (b: bool)
        ensures
            b == f32_is_finite(self),
    {
        (self.bits / 0x80_0000) % 0x100 != 0xff
    }

    /// Whether the pattern is a NaN.
    pub fn is_nan(self) -> (b: bool)
        ensures
            b == f32_is_nan(self),
    {
        !self.is_finite() && self.bits % 0x80_0000 != 0
    }

    fn key(self) -> (k: i64)
        ensures
            k == f32_key(self),
    {
        if self.bits < 0x8000_0000 {
            self.bits as i64
        } else {
            0x8000_0000 - self.bits as i64
        }
    }

    /// Whether the number is at least `other`; never so where one is a NaN.
    pub fn at_least(self, other: F32Bits) -> (b: bool)
        ensures
            b == f32_at_least(self, other),
    {
        !self.is_nan() && !other.is_nan() && self.key() >= other.key()
    }
}

impl F64Bits {
    /// Whether the number is neither infinite nor a NaN.
    pub fn is_finite(self) -> (b: bool)
        ensures
            b == f64_is_finite(self),
    {
        (self.bits / 0x10_0000_0000_0000) % 0x800 != 0x7ff
    }

    fn key(self) -> (k: i128)
        ensures
            k == f64_key(self),
    {
        if self.bits < 0x8000_0000_0000_0000 {
            self.bits as i128
        } else {
            0x8000_0000_0000_0000 - self.bits as i128
        }
    }
}

/// `value` where it is finite, else `fallback`.
pub open spec fn f32_finite_or(value: F32Bits, fallback: F32Bits) -> F32Bits {
    if f32_is_finite(value) {
        value
    } else {
        fallback
    }
}

/// `value` where it is finite, else `fallback`.
pub fn finite_f32_or(value: F32Bits, fallback: F32Bits) -> (r: F32Bits)
    ensures
        r == f32_finite_or(value, fallback),
{
    if value.is_finite() {
        value
    } else {
        fallback
    }
}

/// `value` where it is finite, else `fallback`.
pub open spec fn f64_finite_or(value: F64Bits, fallback: F64Bits) -> F64Bits {
    if f64_is_finite(value) {
        value
    } else {
        fallback
    }
}

/// `value` where it is finite, else `fallback`.
pub fn finite_f64_or(value: F64Bits, fallback: F64Bits) -> (r: F64Bits)
    ensures
        r == f64_finite_or(value, fallback),
{
    if value.is_finite() {
        value
    } else {
        fallback
    }
}

/// `value` moved into the range from `low` to `high`, all three finite.
pub open spec fn f32_clamped(value: F32Bits, low: F32Bits, high: F32Bits) -> F32Bits {
    if f32_key(value) < f32_key(low) {
        low
    } else if f32_key(value) > f32_key(high) {
        high
    } else {
        value
    }
}

/// `value` moved into the range from `low` to `high`.
pub fn clamp_f32(value: F32Bits, low: F32Bits, high: F32Bits) -> (r: F32Bits)
    requires
        f32_is_finite(value),
        f32_is_finite(low),
        f32_is_finite(high),
        f32_key(low) <= f32_key(high),
    ensures
        r == f32_clamped(value, low, high),
{
    if value.key() < low.key() {
        low
    } else if value.key() > high.key() {
        high
    } else {
        value
    }
}

/// The greater of two finite numbers; of the two zeros the second one given.
pub open spec fn f64_greater(a: F64Bits, b: F64Bits) -> F64Bits {
    if f64_key(a) > f64_key(b) {
        a
    } else {
        b
    }
}

/// The greater of two finite numbers.
pub fn max_f64(a: F64Bits, b: F64Bits) -> (r: F64Bits)
    requires
        f64_is_finite(a),
        f64_is_finite(b),
    ensures
        r == f64_greater(a, b),
{
    if a.key() > b.key() {
        a
    } else {
        b
    }
}

/// The number without its sign, as a pattern.
spec fn magnitude(x: F32Bits) -> u32 {
    (if x.bits >= 0x8000_0000 {
        x.bits - 0x8000_0000
    } else {
        x.bits as int
    }) as u32
}

/// A number is at least another where both are numbers and it is not on the
/// lesser side: of two positive ones the greater pattern is the greater number,
/// of two negative ones the lesser pattern, a positive one is greater than a
/// negative one, and the two zeros are the same.
pub proof fn numbers_are_compared_by_sign_and_size(a: F32Bits, b: F32Bits)
    ensures
        ({
            let a_negative = a.bits >= 0x8000_0000;
            let b_negative = b.bits >= 0x8000_0000;
            let a_size = a.bits % 0x8000_0000;
            let b_size = b.bits % 0x8000_0000;
            f32_at_least(a, b) == (a_size <= 0x7f80_0000 && b_size <= 0x7f80_0000 && ({
                ||| !a_negative && !b_negative && a_size >= b_size
                ||| !a_negative && b_negative
                ||| a_negative && b_negative && a_size <= b_size
                ||| a_size == 0 && b_size == 0
            }))
        }),
{
    assert(a.bits % 0x8000_0000 == magnitude(a));
    assert(b.bits % 0x8000_0000 == magnitude(b));
    lemma_nan(a);
    lemma_nan(b);
}

proof fn lemma_nan(x: F32Bits)
    ensures
        f32_is_nan(x) == (magnitude(x) > 0x7f80_0000),
        f32_is_finite(x) == (magnitude(x) < 0x7f80_0000),
{
    let m = magnitude(x);
    let bits = x.bits;
    assert((bits / 0x80_0000) % 0x100 == m / 0x80_0000 && bits % 0x80_0000 == m % 0x80_0000)
        by (nonlinear_arith)
        requires
            bits == m || bits == m + 0x8000_0000,
            m < 0x8000_0000,
            0 <= m,
    ;
}

/// A finite number is kept, any other is replaced.
pub proof fn finite_numbers_are_kept(value: F32Bits, fallback: F32Bits)
    ensures
        value.bits % 0x8000_0000 < 0x7f80_0000 ==> f32_finite_or(value, fallback) == value,
        value.bits % 0x8000_0000 >= 0x7f80_0000 ==> f32_finite_or(value, fallback) == fallback,
{
    assert(value.bits % 0x8000_0000 == magnitude(value));
    lemma_nan(value);
}

/// A number moved into a range is the number where that is in the range, and
/// else the end of the range that is nearer.
pub proof fn clamping_keeps_what_is_in_range(value: F32Bits, low: F32Bits, high: F32Bits)
    requires
        f32_is_finite(value),
        f32_is_finite(low),
        f32_is_finite(high),
        f32_at_least(high, low),
    ensures
        f32_at_least(value, low) && f32_at_least(high, value) ==> f32_clamped(value, low, high)
            == value,
        !f32_at_least(value, low) ==> f32_clamped(value, low, high) == low,
        !f32_at_least(high, value) ==> f32_clamped(value, low, high) == high,
{
}

/// Of two numbers the greater one is the one that the other is not above: a
/// greater pattern of two positive ones, and a positive one beside a negative
/// one.
pub proof fn greater_number_has_the_greater_pattern(a: F64Bits, b: F64Bits)
    ensures
        a.bits < 0x8000_0000_0000_0000 && b.bits < 0x8000_0000_0000_0000 ==> f64_greater(a, b)
            == (if a.bits > b.bits {
            a
        } else {
            b
        }),
        a.bits > 0x8000_0000_0000_0000 && b.bits < 0x8000_0000_0000_0000 ==> f64_greater(a, b) == b,
        b.bits > 0x8000_0000_0000_0000 && a.bits < 0x8000_0000_0000_0000 ==> f64_greater(a, b) == a,
        a.bits > 0x8000_0000_0000_0000 && b.bits > 0x8000_0000_0000_0000 ==> f64_greater(a, b)
            == (if a.bits < b.bits {
            a
        } else {
            b
        }),
{
}

/// A finite number of double precision is kept, any other is replaced.
pub proof fn finite_doubles_are_kept(value: F64Bits, fallback: F64Bits)
    ensures
        value.bits % 0x8000_0000_0000_0000 < 0x7ff0_0000_0000_0000 ==> f64_finite_or(
            value,
            fallback,
        ) == value,
        value.bits % 0x8000_0000_0000_0000 >= 0x7ff0_0000_0000_0000 ==> f64_finite_or(
            value,
            fallback,
        ) == fallback,
{
    lemma_f64_finite(value);
}

proof fn lemma_f64_finite(x: F64Bits)
    ensures
        f64_is_finite(x) == (x.bits % 0x8000_0000_0000_0000 < 0x7ff0_0000_0000_0000),
{
    let bits = x.bits;
    let m = bits % 0x8000_0000_0000_0000;
    assert((bits / 0x10_0000_0000_0000) % 0x800 == m / 0x10_0000_0000_0000) by (bit_vector)
        requires
            m == bits % 0x8000_0000_0000_0000,
    ;
}

} // verus!
