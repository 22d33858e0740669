//! Venue-M funding math: lot conversions in 128-bit fixed point with
//! 48 fractional bits, and the impact-price-based funding rate.

use vstd::prelude::*;

use crate::address::Address;
use crate::book::BookSide;
use crate::safe_math::iabs;

verus! {

/// One in fixed-point: 2^48.
pub const FIX48_ONE: i128 = 0x1_0000_0000_0000;

/// A 128-bit fixed-point number with 48 fractional bits.
#[derive(Clone, Copy, PartialEq, Eq, Structural, Debug)]
pub struct Fix48 {
    pub bits: i128,
}

/// Floor of `bits / 2^48`: the integer part of a fixed-point value.
pub open spec fn fix48_floor(bits: int) -> int {
    bits / 0x1_0000_0000_0000
}

/// Magnitude-truncating product of two fixed-point values:
/// `(a * b) / 2^48` rounded toward zero.
pub open spec fn fix48_mul_spec(a: int, b: int) -> Option<int> {
    let mag = (iabs(a) * iabs(b)) / 0x1_0000_0000_0000;
    let v = if (a >= 0) == (b >= 0) {
        mag
    } else {
        -mag
    };
    if iabs(a) * iabs(b) >= 0x1_0000_0000_0000_0000_0000_0000_0000_0000_0000_0000_0000_0000 {
        None
    } else if !crate::safe_math::in_i128(v) {
        None
    } else {
        Some(v)
    }
}

/// Magnitude-truncating quotient: `(a * 2^48) / b` rounded toward
/// zero; `None` on a zero divisor or overflow.
pub open spec fn fix48_div_spec(a: int, b: int) -> Option<int> {
    if b == 0 {
        None
    } else {
        let mag = (iabs(a) * 0x1_0000_0000_0000) / iabs(b);
        let v = if (a >= 0) == (b >= 0) {
            mag
        } else {
            -mag
        };
        if !crate::safe_math::in_i128(v) {
            None
        } else {
            Some(v)
        }
    }
}

impl Fix48 {
    pub fn zero() -> (r: Fix48)
        ensures
            r.bits == 0,
    {
        Fix48 { bits: 0 }
    }

    pub fn from_bits(bits: i128) -> (r: Fix48)
        ensures
            r.bits == bits,
    {
        Fix48 { bits }
    }

    /// An integer as fixed point.
    pub fn from_int(v: i64) -> (r: Fix48)
        ensures
            r.bits == v * 0x1_0000_0000_0000,
    {
        Fix48 { bits: (v as i128) * FIX48_ONE }
    }

    /// The integer part, rounding toward negative infinity; `None`
    /// when it does not fit a signed 64-bit value.
    pub fn to_num_i64(self) -> (r: Option<i64>)
        ensures
            match r {
                Some(v) => v == fix48_floor(self.bits as int) && crate::safe_math::in_i64(
                    fix48_floor(self.bits as int),
                ),
                None => !crate::safe_math::in_i64(fix48_floor(self.bits as int)),
            },
    {
        proof {
            vstd::arithmetic::div_mod::lemma_fundamental_div_mod(
                self.bits as int,
                0x1_0000_0000_0000,
            );
        }
        if self.bits >= 0 {
            let mag = (self.bits as u128) / 0x1_0000_0000_0000;
            if mag > i64::MAX as u128 {
                None
            } else {
                Some(mag as i64)
            }
        } else {
            if self.bits < -0x8000_0000_0000_0000_0000_0000_0000 {
                // below the smallest 64-bit integer times 2^48
                proof {
                    vstd::arithmetic::div_mod::lemma_div_is_ordered(
                        self.bits as int,
                        -0x8000_0000_0000_0000_0000_0000_0000,
                        0x1_0000_0000_0000,
                    );
                }
                return None;
            }
            let mag = ((-self.bits) as u128);
            let q = mag / 0x1_0000_0000_0000;
            let rem = mag % 0x1_0000_0000_0000;
            let fl: i128 = if rem == 0 {
                -(q as i128)
            } else {
                -(q as i128) - 1
            };
            proof {
                vstd::arithmetic::div_mod::lemma_fundamental_div_mod_converse(
                    self.bits as int,
                    0x1_0000_0000_0000,
                    fl as int,
                    if rem == 0 {
                        0int
                    } else {
                        0x1_0000_0000_0000 - rem
                    },
                );
            }
            if fl < i64::MIN as i128 {
                None
            } else {
                Some(fl as i64)
            }
        }
    }

    /// Fixed-point product, truncating toward zero.
    pub fn mul(self, rhs: Fix48) -> (r: Option<Fix48>)
        ensures
            match r {
                Some(v) => fix48_mul_spec(self.bits as int, rhs.bits as int) == Some(
                    v.bits as int,
                ),
                None => fix48_mul_spec(self.bits as int, rhs.bits as int) is None,
            },
    {
        let a_mag = crate::safe_math::unsigned_abs_i128(self.bits);
        let b_mag = crate::safe_math::unsigned_abs_i128(rhs.bits);
        let prod = match crate::u192::U192::from_u128(a_mag).safe_mul(
            crate::u192::U192::from_u128(b_mag),
        ) {
            Ok(v) => v,
            Err(_) => {
                return None;
            },
        };
        let scaled = match prod.safe_div(crate::u192::U192::from_u128(FIX48_ONE as u128)) {
            Ok(v) => v,
            Err(_) => {
                return None;
            },
        };
        let mag = match scaled.to_u128() {
            Ok(v) => v,
            Err(_) => {
                return None;
            },
        };
        proof {
            assert(a_mag as int * (b_mag as int) == iabs(self.bits as int) * iabs(
                rhs.bits as int,
            ));
            vstd::arithmetic::div_mod::lemma_div_is_ordered(
                0,
                iabs(self.bits as int) * iabs(rhs.bits as int),
                0x1_0000_0000_0000,
            );
        }
        if (self.bits >= 0) == (rhs.bits >= 0) {
            if mag > i128::MAX as u128 {
                None
            } else {
                Some(Fix48 { bits: mag as i128 })
            }
        } else {
            if mag > 0x8000_0000_0000_0000_0000_0000_0000_0000u128 {
                None
            } else if mag == 0x8000_0000_0000_0000_0000_0000_0000_0000u128 {
                Some(Fix48 { bits: i128::MIN })
            } else {
                Some(Fix48 { bits: -(mag as i128) })
            }
        }
    }

    /// Fixed-point quotient, truncating toward zero.
    pub fn div(self, rhs: Fix48) -> (r: Option<Fix48>)
        ensures
            match r {
                Some(v) => fix48_div_spec(self.bits as int, rhs.bits as int) == Some(
                    v.bits as int,
                ),
                None => fix48_div_spec(self.bits as int, rhs.bits as int) is None,
            },
    {
        if rhs.bits == 0 {
            return None;
        }
        let a_mag = crate::safe_math::unsigned_abs_i128(self.bits);
        let b_mag = crate::safe_math::unsigned_abs_i128(rhs.bits);
        let scaled = match crate::u192::U192::from_u128(a_mag).safe_mul(
            crate::u192::U192::from_u128(FIX48_ONE as u128),
        ) {
            Ok(v) => v,
            Err(_) => {
                return None;
            },
        };
        let quot = match scaled.safe_div(crate::u192::U192::from_u128(b_mag)) {
            Ok(v) => v,
            Err(_) => {
                return None;
            },
        };
        let mag = match quot.to_u128() {
            Ok(v) => v,
            Err(_) => {
                return None;
            },
        };
        proof {
            assert(a_mag as int * 0x1_0000_0000_0000 == iabs(self.bits as int)
                * 0x1_0000_0000_0000);
            assert(b_mag as int == iabs(rhs.bits as int));
            vstd::arithmetic::div_mod::lemma_div_is_ordered(
                0,
                iabs(self.bits as int) * 0x1_0000_0000_0000,
                iabs(rhs.bits as int),
            );
        }
        if (self.bits >= 0) == (rhs.bits >= 0) {
            if mag > i128::MAX as u128 {
                None
            } else {
                Some(Fix48 { bits: mag as i128 })
            }
        } else {
            if mag > 0x8000_0000_0000_0000_0000_0000_0000_0000u128 {
                None
            } else if mag == 0x8000_0000_0000_0000_0000_0000_0000_0000u128 {
                Some(Fix48 { bits: i128::MIN })
            } else {
                Some(Fix48 { bits: -(mag as i128) })
            }
        }
    }

    /// Clamp into `[lo, hi]`.
    pub fn clamp(self, lo: Fix48, hi: Fix48) -> (r: Fix48)
        requires
            lo.bits <= hi.bits,
        ensures
            r.bits == (if self.bits < lo.bits {
                lo.bits
            } else if self.bits > hi.bits {
                hi.bits
            } else {
                self.bits
            }),
            lo.bits <= r.bits <= hi.bits,
    {
        if self.bits < lo.bits {
            lo
        } else if self.bits > hi.bits {
            hi
        } else {
            self
        }
    }

    /// Product with a plain integer: exact on the raw bits.
    pub fn mul_int(self, k: i128) -> (r: Option<Fix48>)
        ensures
            match r {
                Some(v) => v.bits == self.bits * k && crate::safe_math::in_i128(
                    self.bits * k,
                ),
                None => !crate::safe_math::in_i128(self.bits * k),
            },
    {
        match self.bits.checked_mul(k) {
            Some(v) => Some(Fix48 { bits: v }),
            None => None,
        }
    }
}

} // verus!

verus! {

/// Quote currency decimals on venue M.
pub const QUOTE_DECIMALS: u8 = 6;

/// The fixed-point bits of `10^decimals`, with the one-bit roundings
/// the venue's table carries on some negative powers.
pub open spec fn power_of_ten_bits(decimals: int) -> int {
    if decimals == -12 {
        FIX48_ONE as int / 1_000_000_000_000
    } else if decimals == -11 {
        FIX48_ONE as int / 100_000_000_000 + 1
    } else if decimals == -10 {
        FIX48_ONE as int / 10_000_000_000
    } else if decimals == -9 {
        FIX48_ONE as int / 1_000_000_000 + 1
    } else if decimals == -8 {
        FIX48_ONE as int / 100_000_000 + 1
    } else if decimals == -7 {
        FIX48_ONE as int / 10_000_000 + 1
    } else if decimals == -6 {
        FIX48_ONE as int / 1_000_000 + 1
    } else if decimals == -5 {
        FIX48_ONE as int / 100_000
    } else if decimals == -4 {
        FIX48_ONE as int / 10_000
    } else if decimals == -3 {
        FIX48_ONE as int / 1_000 + 1
    } else if decimals == -2 {
        FIX48_ONE as int / 100 + 1
    } else if decimals == -1 {
        FIX48_ONE as int / 10 + 1
    } else if decimals == 0 {
        FIX48_ONE as int
    } else if decimals == 1 {
        FIX48_ONE as int * 10
    } else if decimals == 2 {
        FIX48_ONE as int * 100
    } else if decimals == 3 {
        FIX48_ONE as int * 1_000
    } else if decimals == 4 {
        FIX48_ONE as int * 10_000
    } else if decimals == 5 {
        FIX48_ONE as int * 100_000
    } else if decimals == 6 {
        FIX48_ONE as int * 1_000_000
    } else if decimals == 7 {
        FIX48_ONE as int * 10_000_000
    } else if decimals == 8 {
        FIX48_ONE as int * 100_000_000
    } else if decimals == 9 {
        FIX48_ONE as int * 1_000_000_000
    } else if decimals == 10 {
        FIX48_ONE as int * 10_000_000_000
    } else if decimals == 11 {
        FIX48_ONE as int * 100_000_000_000
    } else {
        FIX48_ONE as int * 1_000_000_000_000
    }
}

/// `10^decimals` in fixed point, for `decimals` in `[-12, 12]`; the
/// negative powers carry the same one-bit rounding the venue uses.
pub fn power_of_ten(decimals: i8) -> (r: Fix48)
    requires
        -12 <= decimals <= 12,
    ensures
        r.bits == power_of_ten_bits(decimals as int),
{
    let bits: i128 = if decimals == -12 {
        (FIX48_ONE / 1_000_000_000_000)
    } else if decimals == -11 {
        (FIX48_ONE / 100_000_000_000) + 1
    } else if decimals == -10 {
        (FIX48_ONE / 10_000_000_000)
    } else if decimals == -9 {
        (FIX48_ONE / 1_000_000_000) + 1
    } else if decimals == -8 {
        (FIX48_ONE / 100_000_000) + 1
    } else if decimals == -7 {
        (FIX48_ONE / 10_000_000) + 1
    } else if decimals == -6 {
        (FIX48_ONE / 1_000_000) + 1
    } else if decimals == -5 {
        (FIX48_ONE / 100_000)
    } else if decimals == -4 {
        (FIX48_ONE / 10_000)
    } else if decimals == -3 {
        (FIX48_ONE / 1_000) + 1
    } else if decimals == -2 {
        (FIX48_ONE / 100) + 1
    } else if decimals == -1 {
        (FIX48_ONE / 10) + 1
    } else if decimals == 0 {
        FIX48_ONE
    } else if decimals == 1 {
        FIX48_ONE * 10
    } else if decimals == 2 {
        FIX48_ONE * 100
    } else if decimals == 3 {
        FIX48_ONE * 1_000
    } else if decimals == 4 {
        FIX48_ONE * 10_000
    } else if decimals == 5 {
        FIX48_ONE * 100_000
    } else if decimals == 6 {
        FIX48_ONE * 1_000_000
    } else if decimals == 7 {
        FIX48_ONE * 10_000_000
    } else if decimals == 8 {
        FIX48_ONE * 100_000_000
    } else if decimals == 9 {
        FIX48_ONE * 1_000_000_000
    } else if decimals == 10 {
        FIX48_ONE * 10_000_000_000
    } else if decimals == 11 {
        FIX48_ONE * 100_000_000_000
    } else {
        FIX48_ONE * 1_000_000_000_000
    };
    Fix48 { bits }
}

/// A venue-M perpetual market, reduced to what funding needs.
#[derive(Clone, Copy, PartialEq, Eq, Structural, Debug)]
pub struct PerpMarket {
    pub perp_market_index: u16,
    pub base_decimals: u8,
    pub oracle: Address,
    pub bids: Address,
    pub asks: Address,
    pub base_lot_size: i64,
    pub quote_lot_size: i64,
    pub impact_quantity: i64,
    pub min_funding: Fix48,
    pub max_funding: Fix48,
}

/// `price * base_lot_size / quote_lot_size`, floored to whole lots;
/// `None` where a step of the fixed-point pipeline is undefined or the
/// result leaves the 64-bit range.
pub open spec fn native_to_lot_spec(m: PerpMarket, price_bits: int) -> Option<int> {
    match fix48_mul_spec(price_bits, m.base_lot_size * FIX48_ONE) {
        None => None,
        Some(scaled) => match fix48_div_spec(scaled, m.quote_lot_size * FIX48_ONE) {
            None => None,
            Some(in_lots) => if crate::safe_math::in_i64(fix48_floor(in_lots)) {
                Some(fix48_floor(in_lots))
            } else {
                None
            },
        },
    }
}

/// `price * quote_lot_size / base_lot_size` as fixed-point bits.
pub open spec fn lot_to_native_spec(m: PerpMarket, price: int) -> Option<int> {
    match fix48_mul_spec(price * FIX48_ONE, m.quote_lot_size * FIX48_ONE) {
        None => None,
        Some(scaled) => fix48_div_spec(scaled, m.base_lot_size * FIX48_ONE),
    }
}

/// The fixed-point funding rate before annualization: the clamped
/// mid-to-oracle premium with both sides, the clamp bound with one
/// side, zero with none; `None` where the arithmetic is undefined.
pub open spec fn mango_rate_fix_spec(
    m: PerpMarket,
    bid: Option<i64>,
    ask: Option<i64>,
    oracle_bits: int,
) -> Option<int> {
    match (bid, ask) {
        (Some(b), Some(a)) => {
            if !crate::safe_math::in_i64(b + a) {
                None
            } else {
                let mid = crate::safe_math::tdiv(b + a, 2);
                match lot_to_native_spec(m, mid) {
                    None => None,
                    Some(book_bits) => match fix48_div_spec(book_bits, oracle_bits) {
                        None => None,
                        Some(ratio) => if !crate::safe_math::in_i128(ratio - FIX48_ONE) {
                            None
                        } else {
                            let diff = ratio - FIX48_ONE;
                            Some(
                                if diff < m.min_funding.bits {
                                    m.min_funding.bits as int
                                } else if diff > m.max_funding.bits {
                                    m.max_funding.bits as int
                                } else {
                                    diff
                                },
                            )
                        },
                    },
                }
            }
        },
        (Some(_b), None) => Some(m.max_funding.bits as int),
        (None, Some(_a)) => Some(m.min_funding.bits as int),
        (None, None) => Some(0),
    }
}

/// The venue-M funding rate from two impact prices: the fixed-point
/// rate annualized to parts per million and floored to an integer.
pub open spec fn mango_funding_rate_spec(
    m: PerpMarket,
    bid: Option<i64>,
    ask: Option<i64>,
    oracle_bits: int,
) -> Result<int, ()> {
    match mango_rate_fix_spec(m, bid, ask, oracle_bits) {
        None => Err(()),
        Some(fr) => if !crate::safe_math::in_i128(fr * 100_000_000) {
            Err(())
        } else if !crate::safe_math::in_i128(fr * 100_000_000 * 365) {
            Err(())
        } else if !crate::safe_math::in_i64(fix48_floor(fr * 100_000_000 * 365)) {
            Err(())
        } else {
            Ok(fix48_floor(fr * 100_000_000 * 365))
        },
    }
}

impl PerpMarket {
    /// Convert a native fixed-point price to lots:
    /// `price * base_lot_size / quote_lot_size`, floored.
    pub fn mango_native_price_to_lot(&self, price: Fix48) -> (r: Option<i64>)
        ensures
            match r {
                Some(v) => native_to_lot_spec(*self, price.bits as int) == Some(v as int),
                None => native_to_lot_spec(*self, price.bits as int) is None,
            },
    {
        let scaled = match price.mul(Fix48::from_int(self.base_lot_size)) {
            Some(v) => v,
            None => {
                return None;
            },
        };
        let in_lots = match scaled.div(Fix48::from_int(self.quote_lot_size)) {
            Some(v) => v,
            None => {
                return None;
            },
        };
        in_lots.to_num_i64()
    }

    /// Convert a lot price back to a native fixed-point price:
    /// `price * quote_lot_size / base_lot_size`.
    pub fn lot_to_mango_native(&self, price: i64) -> (r: Option<Fix48>)
        ensures
            match r {
                Some(v) => lot_to_native_spec(*self, price as int) == Some(v.bits as int),
                None => lot_to_native_spec(*self, price as int) is None,
            },
    {
        let scaled = match Fix48::from_int(price).mul(Fix48::from_int(self.quote_lot_size)) {
            Some(v) => v,
            None => {
                return None;
            },
        };
        scaled.div(Fix48::from_int(self.base_lot_size))
    }

    /// The instantaneous funding rate from the two impact prices,
    /// scaled to a yearly rate with six implicit decimals. With both
    /// sides present the rate is the clamped mid-to-oracle premium, so
    /// the result never leaves the clamp bounds scaled the same way.
    pub fn funding_rate_from_impacts(&self, bid: Option<i64>, ask: Option<i64>, oracle_price:
        Fix48) -> (r: Result<i64, ()>)
        requires
            self.min_funding.bits <= self.max_funding.bits,
        ensures
            match r {
                Ok(v) => mango_funding_rate_spec(*self, bid, ask, oracle_price.bits as int)
                    == Ok::<int, ()>(v as int),
                Err(_) => mango_funding_rate_spec(*self, bid, ask, oracle_price.bits as int)
                    is Err,
            },
            r matches Ok(v) ==> ((bid is Some || ask is Some) ==> fix48_floor(
                self.min_funding.bits * 36_500_000_000,
            ) <= v <= fix48_floor(self.max_funding.bits * 36_500_000_000)),
    {
        let funding_rate: Fix48 = match (bid, ask) {
            (Some(b), Some(a)) => {
                // mid-market rate against the oracle
                let sum = match b.checked_add(a) {
                    Some(v) => v,
                    None => {
                        return Err(());
                    },
                };
                let mid_price = match crate::safe_math::safe_div_i64(sum, 2) {
                    Ok(v) => v,
                    Err(_) => {
                        return Err(());
                    },
                };
                let book_price = match self.lot_to_mango_native(mid_price) {
                    Some(v) => v,
                    None => {
                        return Err(());
                    },
                };
                let ratio = match book_price.div(oracle_price) {
                    Some(v) => v,
                    None => {
                        return Err(());
                    },
                };
                let diff = match ratio.bits.checked_sub(FIX48_ONE) {
                    Some(v) => Fix48 { bits: v },
                    None => {
                        return Err(());
                    },
                };
                diff.clamp(self.min_funding, self.max_funding)
            },
            (Some(_b), None) => self.max_funding,
            (None, Some(_a)) => self.min_funding,
            (None, None) => Fix48 { bits: 0 },
        };
        // scale to a yearly rate in parts per million
        let scaled = match funding_rate.mul_int(100_000_000) {
            Some(v) => v,
            None => {
                return Err(());
            },
        };
        let yearly = match scaled.mul_int(365) {
            Some(v) => v,
            None => {
                return Err(());
            },
        };
        let out = match yearly.to_num_i64() {
            Some(v) => v,
            None => {
                return Err(());
            },
        };
        proof {
            if bid is Some || ask is Some {
                lemma_scale_floor_monotone(
                    self.min_funding.bits as int,
                    funding_rate.bits as int,
                );
                lemma_scale_floor_monotone(
                    funding_rate.bits as int,
                    self.max_funding.bits as int,
                );
            }
        }
        Ok(out)
    }

    /// The venue-M funding rate for a market snapshot: probe both
    /// sides of the book at the impact quantity and price the
    /// mid-market premium over the oracle.
    pub fn calculate_funding_rate(&self, bids: &BookSide, asks: &BookSide, oracle_price: Fix48,
        now_ts: u64) -> (r: Result<i64, ()>)
        requires
            self.min_funding.bits <= self.max_funding.bits,
        ensures
            match native_to_lot_spec(*self, oracle_price.bits as int) {
                None => r is Err,
                Some(lots) => {
                    let bid = crate::book::impact_price_spec(
                        *bids,
                        self.impact_quantity as int,
                        now_ts as int,
                        lots,
                    );
                    let ask = crate::book::impact_price_spec(
                        *asks,
                        self.impact_quantity as int,
                        now_ts as int,
                        lots,
                    );
                    match r {
                        Ok(v) => mango_funding_rate_spec(
                            *self,
                            bid,
                            ask,
                            oracle_price.bits as int,
                        ) == Ok::<int, ()>(v as int),
                        Err(_) => mango_funding_rate_spec(
                            *self,
                            bid,
                            ask,
                            oracle_price.bits as int,
                        ) is Err,
                    }
                },
            },
            (match native_to_lot_spec(*self, oracle_price.bits as int) {
                None => true,
                Some(lots) => r matches Ok(v) ==> ((crate::book::impact_price_spec(
                    *bids,
                    self.impact_quantity as int,
                    now_ts as int,
                    lots,
                ) is Some || crate::book::impact_price_spec(
                    *asks,
                    self.impact_quantity as int,
                    now_ts as int,
                    lots,
                ) is Some) ==> fix48_floor(self.min_funding.bits * 36_500_000_000) <= v
                    <= fix48_floor(self.max_funding.bits * 36_500_000_000)),
            }),
    {
        let oracle_price_lots = match self.mango_native_price_to_lot(oracle_price) {
            Some(v) => v,
            None => {
                return Err(());
            },
        };
        let bid = bids.impact_price(self.impact_quantity, now_ts, oracle_price_lots);
        let ask = asks.impact_price(self.impact_quantity, now_ts, oracle_price_lots);
        self.funding_rate_from_impacts(bid, ask, oracle_price)
    }
}

/// Scaling by the yearly parts-per-million factor and flooring is
/// monotone.
pub proof fn lemma_scale_floor_monotone(x: int, y: int)
    requires
        x <= y,
    ensures
        fix48_floor(x * 36_500_000_000) <= fix48_floor(y * 36_500_000_000),
{
    vstd::arithmetic::mul::lemma_mul_inequality(x, y, 36_500_000_000);
    vstd::arithmetic::div_mod::lemma_div_is_ordered(
        x * 36_500_000_000,
        y * 36_500_000_000,
        0x1_0000_0000_0000,
    );
}

} // verus!
