//! Checked integer arithmetic: every operation either returns the exact
//! mathematical result or fails with `MathError`, never wrapping and
//! never panicking.

use vstd::prelude::*;

use crate::errors::{DriftError, DriftResult};

verus! {

/// Truncating (round-toward-zero) division, the semantics of Rust's `/`
/// on signed integers. Unspecified for `b == 0`.
pub open spec fn tdiv(a: int, b: int) -> int {
    if a == 0 {
        0
    } else if a > 0 {
        if b >= 0 {
            a / b
        } else {
            (a / (b * -1)) * -1
        }
    } else {
        if b >= 0 {
            ((a * -1) / b) * -1
        } else {
            (a * -1) / (b * -1)
        }
    }
}

pub open spec fn in_i64(x: int) -> bool {
    i64::MIN <= x <= i64::MAX
}

pub open spec fn in_i128(x: int) -> bool {
    i128::MIN <= x <= i128::MAX
}

/// Absolute value of a mathematical integer.
pub open spec fn iabs(a: int) -> int {
    if a >= 0 {
        a
    } else {
        -a
    }
}

/// Truncating division stays within the symmetric range of its
/// dividend; it escapes a two's-complement range only for the most
/// negative value divided by minus one.
pub proof fn lemma_tdiv_range(x: int, d: int, bound: int)
    requires
        d != 0,
        bound >= 1,
        -bound <= x <= bound - 1,
    ensures
        iabs(tdiv(x, d)) <= iabs(x),
        !(x == -bound && d == -1) ==> -bound <= tdiv(x, d) <= bound - 1,
        x == -bound && d == -1 ==> tdiv(x, d) == bound,
{
    broadcast use vstd::arithmetic::div_mod::group_div_basics;

    if x == 0 {
    } else if x > 0 {
        let p = x;
        let q = if d > 0 {
            d
        } else {
            d * -1
        };
        vstd::arithmetic::div_mod::lemma_div_pos_is_pos(p, q);
        if q > 1 {
            vstd::arithmetic::div_mod::lemma_div_is_strictly_smaller(p, q);
        }
    } else {
        let p = x * -1;
        let q = if d > 0 {
            d
        } else {
            d * -1
        };
        vstd::arithmetic::div_mod::lemma_div_pos_is_pos(p, q);
        if q > 1 {
            vstd::arithmetic::div_mod::lemma_div_is_strictly_smaller(p, q);
        }
    }
}

pub fn safe_add_u64(a: u64, b: u64) -> (r: DriftResult<u64>)
    ensures
        match r {
            Ok(v) => v == a + b,
            Err(e) => e == DriftError::MathError && a + b > u64::MAX,
        },
{
    match a.checked_add(b) {
        Some(v) => Ok(v),
        None => Err(DriftError::MathError),
    }
}

pub fn safe_sub_u64(a: u64, b: u64) -> (r: DriftResult<u64>)
    ensures
        match r {
            Ok(v) => v == a - b,
            Err(e) => e == DriftError::MathError && a < b,
        },
{
    match a.checked_sub(b) {
        Some(v) => Ok(v),
        None => Err(DriftError::MathError),
    }
}

pub fn safe_mul_u64(a: u64, b: u64) -> (r: DriftResult<u64>)
    ensures
        match r {
            Ok(v) => v == a * b,
            Err(e) => e == DriftError::MathError && a * b > u64::MAX,
        },
{
    match a.checked_mul(b) {
        Some(v) => Ok(v),
        None => Err(DriftError::MathError),
    }
}

pub fn safe_div_u64(a: u64, b: u64) -> (r: DriftResult<u64>)
    ensures
        match r {
            Ok(v) => b != 0 && v == a as int / b as int,
            Err(e) => e == DriftError::MathError && b == 0,
        },
{
    match a.checked_div(b) {
        Some(v) => Ok(v),
        None => Err(DriftError::MathError),
    }
}

pub fn safe_add_u128(a: u128, b: u128) -> (r: DriftResult<u128>)
    ensures
        match r {
            Ok(v) => v == a + b,
            Err(e) => e == DriftError::MathError && a + b > u128::MAX,
        },
{
    match a.checked_add(b) {
        Some(v) => Ok(v),
        None => Err(DriftError::MathError),
    }
}

pub fn safe_sub_u128(a: u128, b: u128) -> (r: DriftResult<u128>)
    ensures
        match r {
            Ok(v) => v == a - b,
            Err(e) => e == DriftError::MathError && a < b,
        },
{
    match a.checked_sub(b) {
        Some(v) => Ok(v),
        None => Err(DriftError::MathError),
    }
}

pub fn safe_mul_u128(a: u128, b: u128) -> (r: DriftResult<u128>)
    ensures
        match r {
            Ok(v) => v == a * b,
            Err(e) => e == DriftError::MathError && a * b > u128::MAX,
        },
{
    match a.checked_mul(b) {
        Some(v) => Ok(v),
        None => Err(DriftError::MathError),
    }
}

pub fn safe_div_u128(a: u128, b: u128) -> (r: DriftResult<u128>)
    ensures
        match r {
            Ok(v) => b != 0 && v == a as int / b as int,
            Err(e) => e == DriftError::MathError && b == 0,
        },
{
    match a.checked_div(b) {
        Some(v) => Ok(v),
        None => Err(DriftError::MathError),
    }
}

pub fn safe_add_i64(a: i64, b: i64) -> (r: DriftResult<i64>)
    ensures
        match r {
            Ok(v) => v == a + b,
            Err(e) => e == DriftError::MathError && !(i64::MIN <= a + b <= i64::MAX),
        },
{
    match a.checked_add(b) {
        Some(v) => Ok(v),
        None => Err(DriftError::MathError),
    }
}

pub fn safe_sub_i64(a: i64, b: i64) -> (r: DriftResult<i64>)
    ensures
        match r {
            Ok(v) => v == a - b,
            Err(e) => e == DriftError::MathError && !(i64::MIN <= a - b <= i64::MAX),
        },
{
    match a.checked_sub(b) {
        Some(v) => Ok(v),
        None => Err(DriftError::MathError),
    }
}

pub fn safe_mul_i64(a: i64, b: i64) -> (r: DriftResult<i64>)
    ensures
        match r {
            Ok(v) => v == a * b,
            Err(e) => e == DriftError::MathError && !(i64::MIN <= a * b <= i64::MAX),
        },
{
    match a.checked_mul(b) {
        Some(v) => Ok(v),
        None => Err(DriftError::MathError),
    }
}

pub fn safe_div_i64(a: i64, b: i64) -> (r: DriftResult<i64>)
    ensures
        match r {
            Ok(v) => b != 0 && !(a == i64::MIN && b == -1) && v == tdiv(a as int, b as int),
            Err(e) => e == DriftError::MathError && (b == 0 || (a == i64::MIN && b == -1)),
        },
{
    proof {
        if b != 0 {
            lemma_tdiv_range(a as int, b as int, 0x8000_0000_0000_0000);
        }
    }
    match a.checked_div(b) {
        Some(v) => Ok(v),
        None => Err(DriftError::MathError),
    }
}

pub fn safe_add_i128(a: i128, b: i128) -> (r: DriftResult<i128>)
    ensures
        match r {
            Ok(v) => v == a + b,
            Err(e) => e == DriftError::MathError && !(i128::MIN <= a + b <= i128::MAX),
        },
{
    match a.checked_add(b) {
        Some(v) => Ok(v),
        None => Err(DriftError::MathError),
    }
}

pub fn safe_sub_i128(a: i128, b: i128) -> (r: DriftResult<i128>)
    ensures
        match r {
            Ok(v) => v == a - b,
            Err(e) => e == DriftError::MathError && !(i128::MIN <= a - b <= i128::MAX),
        },
{
    match a.checked_sub(b) {
        Some(v) => Ok(v),
        None => Err(DriftError::MathError),
    }
}

pub fn safe_mul_i128(a: i128, b: i128) -> (r: DriftResult<i128>)
    ensures
        match r {
            Ok(v) => v == a * b,
            Err(e) => e == DriftError::MathError && !(i128::MIN <= a * b <= i128::MAX),
        },
{
    match a.checked_mul(b) {
        Some(v) => Ok(v),
        None => Err(DriftError::MathError),
    }
}

pub fn safe_div_i128(a: i128, b: i128) -> (r: DriftResult<i128>)
    ensures
        match r {
            Ok(v) => b != 0 && !(a == i128::MIN && b == -1) && v == tdiv(a as int, b as int),
            Err(e) => e == DriftError::MathError && (b == 0 || (a == i128::MIN && b == -1)),
        },
{
    proof {
        if b != 0 {
            lemma_tdiv_range(a as int, b as int, 0x8000_0000_0000_0000_0000_0000_0000_0000);
        }
    }
    match a.checked_div(b) {
        Some(v) => Ok(v),
        None => Err(DriftError::MathError),
    }
}

/// Checked narrowing cast: fails on any value the target type cannot
/// carry, rather than wrapping.
pub fn cast_u64_to_i64(a: u64) -> (r: DriftResult<i64>)
    ensures
        match r {
            Ok(v) => v == a,
            Err(e) => e == DriftError::MathError && a > i64::MAX,
        },
{
    if a <= i64::MAX as u64 {
        Ok(a as i64)
    } else {
        Err(DriftError::MathError)
    }
}

pub fn cast_i64_to_u64(a: i64) -> (r: DriftResult<u64>)
    ensures
        match r {
            Ok(v) => v == a,
            Err(e) => e == DriftError::MathError && a < 0,
        },
{
    if a >= 0 {
        Ok(a as u64)
    } else {
        Err(DriftError::MathError)
    }
}

pub fn cast_u128_to_u64(a: u128) -> (r: DriftResult<u64>)
    ensures
        match r {
            Ok(v) => v == a,
            Err(e) => e == DriftError::MathError && a > u64::MAX,
        },
{
    if a <= u64::MAX as u128 {
        Ok(a as u64)
    } else {
        Err(DriftError::MathError)
    }
}

pub fn cast_u128_to_i64(a: u128) -> (r: DriftResult<i64>)
    ensures
        match r {
            Ok(v) => v == a,
            Err(e) => e == DriftError::MathError && a > i64::MAX,
        },
{
    if a <= i64::MAX as u128 {
        Ok(a as i64)
    } else {
        Err(DriftError::MathError)
    }
}

pub fn cast_u128_to_i128(a: u128) -> (r: DriftResult<i128>)
    ensures
        match r {
            Ok(v) => v == a,
            Err(e) => e == DriftError::MathError && a > i128::MAX,
        },
{
    if a <= i128::MAX as u128 {
        Ok(a as i128)
    } else {
        Err(DriftError::MathError)
    }
}

pub fn cast_i128_to_i64(a: i128) -> (r: DriftResult<i64>)
    ensures
        match r {
            Ok(v) => v == a,
            Err(e) => e == DriftError::MathError && !(i64::MIN <= a <= i64::MAX),
        },
{
    if i64::MIN as i128 <= a && a <= i64::MAX as i128 {
        Ok(a as i64)
    } else {
        Err(DriftError::MathError)
    }
}

pub fn cast_i128_to_u128(a: i128) -> (r: DriftResult<u128>)
    ensures
        match r {
            Ok(v) => v == a,
            Err(e) => e == DriftError::MathError && a < 0,
        },
{
    if a >= 0 {
        Ok(a as u128)
    } else {
        Err(DriftError::MathError)
    }
}

/// Magnitude of an `i64` as a `u64`, total on the whole range.
pub fn unsigned_abs_i64(a: i64) -> (r: u64)
    ensures
        r == iabs(a as int),
{
    if a >= 0 {
        a as u64
    } else if a == i64::MIN {
        9_223_372_036_854_775_808u64
    } else {
        (-a) as u64
    }
}

/// Magnitude of an `i128` as a `u128`, total on the whole range.
pub fn unsigned_abs_i128(a: i128) -> (r: u128)
    ensures
        r == iabs(a as int),
{
    if a >= 0 {
        a as u128
    } else if a == i128::MIN {
        170_141_183_460_469_231_731_687_303_715_884_105_728u128
    } else {
        (-a) as u128
    }
}

/// Truncating absolute value of an `i128` that is not `i128::MIN`.
pub fn abs_i128(a: i128) -> (r: i128)
    requires
        a != i128::MIN,
    ensures
        r == iabs(a as int),
{
    if a >= 0 {
        a
    } else {
        -a
    }
}

} // verus!
