use vstd::prelude::*;

verus! {

/// How many fixed-point counts make one: a scene unit, a radian, a pixel or a
/// second.
pub const UNIT: i64 = 1_000_000;

/// `input` held between `min` and `max`.
pub open spec fn spec_clamp(input: int, min: int, max: int) -> int {
    if input < min {
        min
    } else if input > max {
        max
    } else {
        input
    }
}

/// A number held within the range of `i64`.
pub open spec fn saturated(value: int) -> int {
    spec_clamp(value, i64::MIN as int, i64::MAX as int)
}

/// The quotient rounded towards zero, for a positive divisor.
pub open spec fn truncated_quotient(value: int, divisor: int) -> int {
    if value >= 0 {
        value / divisor
    } else {
        -((-value) / divisor)
    }
}

/// The product of two fixed-point numbers, rounded towards zero and held within
/// the range of `i64`.
pub open spec fn spec_fixed_mul(a: int, b: int) -> int {
    saturated(truncated_quotient(a * b, UNIT as int))
}

/// `input` if it lies between `min` and `max`, else the nearer of the two.
pub fn clamp(input: i64, min: i64, max: i64) -> (held: i64)
    requires
        min <= max,
    ensures
        held == spec_clamp(input as int, min as int, max as int),
{
    if input < min {
        min
    } else if input > max {
        max
    } else {
        input
    }
}

/// A wide number brought back into `i64`, held at the nearer end of the range
/// where it does not fit.
pub fn saturate(value: i128) -> (held: i64)
    ensures
        held == saturated(value as int),
{
    if value < i64::MIN as i128 {
        i64::MIN
    } else if value > i64::MAX as i128 {
        i64::MAX
    } else {
        value as i64
    }
}

/// The sum of two numbers, held within the range of `i64`.
pub fn add_saturating(a: i64, b: i64) -> (sum: i64)
    ensures
        sum == saturated(a + b),
{
    saturate(a as i128 + b as i128)
}

/// The difference of two numbers, held within the range of `i64`.
pub fn sub_saturating(a: i64, b: i64) -> (difference: i64)
    ensures
        difference == saturated(a - b),
{
    saturate(a as i128 - b as i128)
}

/// The product of two fixed-point numbers.
pub fn fixed_mul(a: i64, b: i64) -> (product: i64)
    ensures
        product == spec_fixed_mul(a as int, b as int),
{
    let wide_a: i128 = a as i128;
    let wide_b: i128 = b as i128;
    assert(-0x4000_0000_0000_0000_0000_0000_0000_0000 <= wide_a * wide_b
        <= 0x4000_0000_0000_0000_0000_0000_0000_0000) by (nonlinear_arith)
        requires
            -0x8000_0000_0000_0000 <= wide_a <= 0x8000_0000_0000_0000,
            -0x8000_0000_0000_0000 <= wide_b <= 0x8000_0000_0000_0000,
    ;
    let wide: i128 = wide_a * wide_b;
    let quotient: i128 = if wide >= 0 {
        wide / (UNIT as i128)
    } else {
        -((-wide) / (UNIT as i128))
    };
    saturate(quotient)
}

} // verus!
