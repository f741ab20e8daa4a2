//! Ordering of IEEE-754 values held as bit patterns.
//!
//! The library carries `f64`/`f32` fields as their bit patterns and only
//! ever compares them. The order key maps a bit pattern to an unsigned
//! integer so that, for two non-NaN values, the value order is the key order
//! (with `-0.0` just below `+0.0`); NaNs are recognised by their exponent
//! and mantissa fields.

use vstd::prelude::*;

verus! {

/// 2^52: one unit of the `f64` exponent field.
pub const F64_EXP_UNIT: u64 = 0x0010_0000_0000_0000;

/// 2^63: the `f64` sign bit.
pub const F64_SIGN: u64 = 0x8000_0000_0000_0000;

/// 2^23: one unit of the `f32` exponent field.
pub const F32_EXP_UNIT: u32 = 0x0080_0000;

/// 2^31: the `f32` sign bit.
pub const F32_SIGN: u32 = 0x8000_0000;

/// The bit pattern of `f32::MIN` (the most negative finite `f32`).
pub const F32_MIN_BITS: u32 = 0xFF7F_FFFF;

/// The bit pattern of `f32::MAX`.
pub const F32_MAX_BITS: u32 = 0x7F7F_FFFF;

pub open spec fn f64_nan(bits: u64) -> bool {
    (bits / F64_EXP_UNIT) % 0x800 == 0x7FF && bits % F64_EXP_UNIT != 0
}

pub open spec fn f64_zero(bits: u64) -> bool {
    bits % F64_SIGN == 0
}

pub open spec fn f64_key(bits: u64) -> int {
    if bits < F64_SIGN {
        bits + F64_SIGN
    } else {
        u64::MAX - bits
    }
}

/// `a > b` for the `f64` values with bit patterns `a` and `b`.
pub open spec fn f64_greater(a: u64, b: u64) -> bool {
    &&& !f64_nan(a)
    &&& !f64_nan(b)
    &&& !(f64_zero(a) && f64_zero(b))
    &&& f64_key(a) > f64_key(b)
}

pub open spec fn f32_nan(bits: u32) -> bool {
    (bits / F32_EXP_UNIT) % 0x100 == 0xFF && bits % F32_EXP_UNIT != 0
}

pub open spec fn f32_key(bits: u32) -> int {
    if bits < F32_SIGN {
        bits + F32_SIGN
    } else {
        u32::MAX - bits
    }
}

/// Whether the `f64` with bit pattern `bits` is a NaN.
pub fn f64_is_nan(bits: u64) -> (r: bool)
    ensures
        r == f64_nan(bits),
{
    (bits / F64_EXP_UNIT) % 0x800 == 0x7FF && bits % F64_EXP_UNIT != 0
}

/// The order key of the `f64` with bit pattern `bits`.
pub fn f64_order_key(bits: u64) -> (k: u64)
    ensures
        k == f64_key(bits),
{
    if bits < F64_SIGN {
        bits + F64_SIGN
    } else {
        u64::MAX - bits
    }
}

/// `a > b` for the `f64` values with bit patterns `a` and `b`.
pub fn f64_gt(a: u64, b: u64) -> (r: bool)
    ensures
        r == f64_greater(a, b),
{
    !f64_is_nan(a) && !f64_is_nan(b) && !(a % F64_SIGN == 0 && b % F64_SIGN == 0)
        && f64_order_key(a) > f64_order_key(b)
}

/// Whether the `f32` with bit pattern `bits` is a NaN.
pub fn f32_is_nan(bits: u32) -> (r: bool)
    ensures
        r == f32_nan(bits),
{
    (bits / F32_EXP_UNIT) % 0x100 == 0xFF && bits % F32_EXP_UNIT != 0
}

/// The order key of the `f32` with bit pattern `bits`.
pub fn f32_order_key(bits: u32) -> (k: u32)
    ensures
        k == f32_key(bits),
{
    if bits < F32_SIGN {
        bits + F32_SIGN
    } else {
        u32::MAX - bits
    }
}

} // verus!
