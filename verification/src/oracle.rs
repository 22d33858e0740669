//! Oracle price snapshots and their two projections: the venue-D
//! fixed six-decimal price and the venue-M fixed-point price.

use vstd::prelude::*;

use crate::errors::{DriftError, DriftResult};
use crate::mango::{power_of_ten, Fix48, QUOTE_DECIMALS};
use crate::safe_math::tdiv;

verus! {

/// A price read from the oracle account.
#[derive(Clone, Copy, PartialEq, Eq, Structural, Debug)]
pub struct OraclePriceData {
    pub expo: i32,
    pub price: i64,
    pub updated_at_slot: u64,
    pub confidence: u64,
}

/// Powers of ten as integers, for rescaling oracle exponents.
pub open spec fn pow10(e: nat) -> int
    decreases e,
{
    if e == 0 {
        1
    } else {
        10 * pow10((e - 1) as nat)
    }
}

/// `10^e` for exponents up to what a 128-bit value holds.
pub fn pow10_u128(e: u32) -> (r: u128)
    requires
        e <= 38,
    ensures
        r == pow10(e as nat),
{
    let mut acc: u128 = 1;
    let mut i: u32 = 0;
    while i < e
        invariant
            0 <= i <= e,
            e <= 38,
            acc == pow10(i as nat),
        decreases e - i,
    {
        proof {
            assert(pow10(i as nat + 1) == 10 * pow10(i as nat));
            lemma_pow10_increases(i as nat + 1, 38);
            lemma_pow10_38_value();
        }
        acc = acc * 10;
        i = i + 1;
    }
    acc
}

/// Powers of ten are positive.
pub proof fn lemma_pow10_pos(e: nat)
    ensures
        pow10(e) >= 1,
    decreases e,
{
    if e > 0 {
        lemma_pow10_pos((e - 1) as nat);
    }
}

/// Powers of ten grow with the exponent.
pub proof fn lemma_pow10_increases(a: nat, b: nat)
    requires
        a <= b,
    ensures
        pow10(a) <= pow10(b),
    decreases b,
{
    if a < b {
        lemma_pow10_increases(a, (b - 1) as nat);
        lemma_pow10_pos((b - 1) as nat);
    }
}

/// The largest power of ten the rescaling accepts.
pub proof fn lemma_pow10_38_value()
    ensures
        pow10(38) == 100_000_000_000_000_000_000_000_000_000_000_000_000,
{
    reveal_with_fuel(pow10, 40);
}

/// The venue-D projection of an oracle sample: the price rescaled to
/// the fixed six-decimal grid, `None` on exponents too large to
/// rescale or a result outside the signed 64-bit range.
pub open spec fn drift_price_spec(expo: int, price: int) -> Option<int> {
    if expo == i32::MIN {
        None
    } else {
        let e = if expo >= 0 {
            expo
        } else {
            -expo
        };
        if e > 38 {
            None
        } else if pow10(e as nat) > 1_000_000 {
            let d = pow10(e as nat) / 1_000_000;
            if d > i64::MAX {
                None
            } else {
                Some(tdiv(price, d))
            }
        } else {
            let scaled = price * (1_000_000int / pow10(e as nat));
            if !crate::safe_math::in_i64(scaled) {
                None
            } else {
                Some(scaled)
            }
        }
    }
}

/// The venue-M projection of an oracle sample: the price shifted by
/// `expo + 6 - base_decimals` powers of ten in fixed point, `None`
/// when the shift leaves the supported table.
pub open spec fn mango_price_spec(expo: int, price: int, base_decimals: int) -> Option<int> {
    if expo < -128 || expo > 127 {
        None
    } else {
        let decimals = expo + QUOTE_DECIMALS - base_decimals;
        if decimals < -12 || decimals > 12 {
            None
        } else {
            crate::mango::fix48_mul_spec(
                price * crate::mango::FIX48_ONE,
                crate::mango::power_of_ten_bits(decimals),
            )
        }
    }
}

impl OraclePriceData {
    /// The oracle price rescaled to venue D's fixed six-decimal
    /// precision; fails on exponents too large to rescale or on a
    /// result outside the signed 64-bit range.
    pub fn get_drift_price(&self) -> (r: DriftResult<i64>)
        ensures
            match r {
                Ok(v) => drift_price_spec(self.expo as int, self.price as int) == Some(v as int),
                Err(e) => e == DriftError::MathError && drift_price_spec(
                    self.expo as int,
                    self.price as int,
                ) is None,
            },
    {
        let abs_expo: u32 = if self.expo >= 0 {
            self.expo as u32
        } else if self.expo == i32::MIN {
            return Err(DriftError::MathError);
        } else {
            (-self.expo) as u32
        };
        if abs_expo > 38 {
            return Err(DriftError::MathError);
        }
        let oracle_precision = pow10_u128(abs_expo);
        if oracle_precision > 1_000_000 {
            let oracle_scale_div = oracle_precision / 1_000_000;
            if oracle_scale_div > i64::MAX as u128 {
                return Err(DriftError::MathError);
            }
            match crate::safe_math::safe_div_i128(
                self.price as i128,
                oracle_scale_div as i128,
            ) {
                Ok(v) => crate::safe_math::cast_i128_to_i64(v),
                Err(e) => Err(e),
            }
        } else {
            proof {
                lemma_pow10_pos(abs_expo as nat);
            }
            let oracle_scale_mult = (1_000_000 / oracle_precision) as u64;
            let scaled = match crate::safe_math::safe_mul_i128(
                self.price as i128,
                oracle_scale_mult as i128,
            ) {
                Ok(v) => v,
                Err(e) => {
                    return Err(e);
                },
            };
            crate::safe_math::cast_i128_to_i64(scaled)
        }
    }

    /// The oracle price as a venue-M fixed-point value, adjusted for
    /// the quote decimals and the market's base decimals; `None` when
    /// the implied decimal shift leaves the supported range.
    pub fn get_mango_price(&self, base_decimals: u8) -> (r: Option<Fix48>)
        ensures
            match r {
                Some(v) => mango_price_spec(
                    self.expo as int,
                    self.price as int,
                    base_decimals as int,
                ) == Some(v.bits as int),
                None => mango_price_spec(
                    self.expo as int,
                    self.price as int,
                    base_decimals as int,
                ) is None,
            },
    {
        if self.expo < -128 || self.expo > 127 {
            return None;
        }
        let decimals_wide: i32 = self.expo + (QUOTE_DECIMALS as i32) - (base_decimals as i32);
        if decimals_wide < -12 || decimals_wide > 12 {
            return None;
        }
        let decimal_adj = power_of_ten(decimals_wide as i8);
        Fix48::from_int(self.price).mul(decimal_adj)
    }
}

} // verus!
