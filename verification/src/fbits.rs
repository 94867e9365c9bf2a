//! Binary64 floating-point values carried as their IEEE-754 bit patterns.
//!
//! Settings that are floating-point numbers (PID gains, output percentages,
//! clamp limits) travel through the library as the `u64` that `f64::to_bits`
//! gives. The few properties the library decides on them (finiteness, NaN,
//! ordering against another value) are read off the bit pattern as IEEE-754
//! defines them: bit 63 is the sign, bits 52..62 the biased exponent and bits
//! 0..51 the fraction.

use vstd::prelude::*;

verus! {

/// 2^52: the weight of the lowest exponent bit.
pub const EXPONENT_UNIT: u64 = 0x10_0000_0000_0000;

/// 2^63: the sign bit.
pub const SIGN_BIT: u64 = 0x8000_0000_0000_0000;

/// Bit pattern of `0.0`.
pub const F64_ZERO: u64 = 0;

/// Bit pattern of `100.0`.
pub const F64_HUNDRED: u64 = 0x4059_0000_0000_0000;

/// The biased exponent field (bits 52..62).
pub open spec fn exponent_field(bits: u64) -> int {
    (bits / EXPONENT_UNIT) as int % 2048
}

/// The fraction field (bits 0..51).
pub open spec fn fraction_field(bits: u64) -> int {
    (bits % EXPONENT_UNIT) as int
}

/// Whether the sign bit is set.
pub open spec fn sign_set(bits: u64) -> bool {
    bits >= SIGN_BIT
}

/// `f64::is_finite`: the exponent field is not all ones.
pub open spec fn spec_is_finite(bits: u64) -> bool {
    exponent_field(bits) != 2047
}

/// `f64::is_nan`: all-ones exponent with a non-zero fraction.
pub open spec fn spec_is_nan(bits: u64) -> bool {
    exponent_field(bits) == 2047 && fraction_field(bits) != 0
}

/// A key whose integer order is the numeric order of non-NaN values
/// (`-0.0` and `0.0` share the key 0).
pub open spec fn order_key(bits: u64) -> int {
    if sign_set(bits) {
        -((bits - SIGN_BIT) as int)
    } else {
        bits as int
    }
}

/// `a <= b` on the two values (false when either is NaN).
pub open spec fn spec_le(a: u64, b: u64) -> bool {
    !spec_is_nan(a) && !spec_is_nan(b) && order_key(a) <= order_key(b)
}

/// `a > b` on the two values (false when either is NaN).
pub open spec fn spec_gt(a: u64, b: u64) -> bool {
    !spec_is_nan(a) && !spec_is_nan(b) && order_key(a) > order_key(b)
}

/// `(0.0..=100.0).contains(&v)`.
pub open spec fn spec_is_percent(v: u64) -> bool {
    spec_le(F64_ZERO, v) && spec_le(v, F64_HUNDRED)
}

/// Whether the value is finite.
pub fn is_finite(bits: u64) -> (r: bool)
    ensures
        r == spec_is_finite(bits),
{
    bits / EXPONENT_UNIT % 2048 != 2047
}

/// Whether the value is NaN.
pub fn is_nan(bits: u64) -> (r: bool)
    ensures
        r == spec_is_nan(bits),
{
    bits / EXPONENT_UNIT % 2048 == 2047 && bits % EXPONENT_UNIT != 0
}

/// Whether the sign bit is set.
pub fn is_sign_negative(bits: u64) -> (r: bool)
    ensures
        r == sign_set(bits),
{
    bits >= SIGN_BIT
}

/// The order key as a signed integer.
fn order_key_exec(bits: u64) -> (r: i128)
    ensures
        r == order_key(bits),
{
    if bits >= SIGN_BIT {
        -((bits - SIGN_BIT) as i128)
    } else {
        bits as i128
    }
}

/// `a <= b` on the two values.
pub fn le(a: u64, b: u64) -> (r: bool)
    ensures
        r == spec_le(a, b),
{
    !is_nan(a) && !is_nan(b) && order_key_exec(a) <= order_key_exec(b)
}

/// `a > b` on the two values.
pub fn gt(a: u64, b: u64) -> (r: bool)
    ensures
        r == spec_gt(a, b),
{
    !is_nan(a) && !is_nan(b) && order_key_exec(a) > order_key_exec(b)
}

/// `(0.0..=100.0).contains(&v)`.
pub fn is_percent(v: u64) -> (r: bool)
    ensures
        r == spec_is_percent(v),
{
    le(F64_ZERO, v) && le(v, F64_HUNDRED)
}

} // verus!
