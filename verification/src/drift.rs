//! Venue-D funding math: reserve price, oracle and mark TWAPs, the
//! capped funding mechanism, and the final annualized rate.
//!
//! Every executable function mirrors a spec function over unbounded
//! integers; `None` in a spec marks exactly the inputs on which the
//! checked arithmetic fails with `MathError`.

use vstd::prelude::*;

use crate::address::Address;
use crate::errors::{DriftError, DriftResult};
use crate::safe_math::{
    cast_i128_to_i64, cast_i128_to_u128, cast_u128_to_i128, cast_u128_to_u64, cast_u64_to_i64,
    cast_i64_to_u64, cast_u128_to_i64, iabs, safe_add_i128, safe_add_i64, safe_add_u64, safe_div_i128, safe_div_i64,
    safe_mul_i128, safe_mul_u128, safe_sub_i128, safe_sub_i64, safe_sub_u128, safe_sub_u64,
    safe_add_u128, tdiv, unsigned_abs_i64, in_i64, in_i128,
};
use crate::u192::U192;

verus! {

pub const PERCENTAGE_PRECISION: u128 = 1_000_000;

pub const PRICE_PRECISION: u128 = 1_000_000;

pub const PEG_PRECISION: u128 = 1_000_000;

pub const PRICE_TO_PEG_PRECISION_RATIO: u128 = PRICE_PRECISION / PEG_PRECISION;

pub const DEFAULT_MAX_TWAP_UPDATE_PRICE_BAND_DENOMINATOR: i64 = 3;

pub const ONE_HOUR_I128: i128 = 3600;

pub const ONE_MINUTE: i128 = 60;

pub const FUNDING_RATE_BUFFER: i128 = 1000;

pub const AMM_RESERVE_PRECISION: u128 = 1_000_000_000;

pub const AMM_TO_QUOTE_PRECISION_RATIO: u128 = AMM_RESERVE_PRECISION / PERCENTAGE_PRECISION;

pub const QUOTE_TO_BASE_AMT_FUNDING_PRECISION: i128 = 1_000_000_000_000;

/// Oracle history carried by a venue-D market.
#[derive(Clone, Copy, PartialEq, Eq, Structural, Debug)]
pub struct HistoricalOracleData {
    pub last_oracle_price: i64,
    pub last_oracle_price_twap: i64,
    pub last_oracle_price_twap_ts: i64,
}

/// The venue-D automated market maker state, reduced to the fields the
/// funding computation reads.
#[derive(Clone, Copy, PartialEq, Eq, Structural, Debug)]
pub struct Amm {
    pub oracle: Address,
    pub base_asset_reserve: u128,
    pub quote_asset_reserve: u128,
    pub peg_multiplier: u128,
    pub base_spread: u32,
    pub long_spread: u32,
    pub short_spread: u32,
    pub historical_oracle_data: HistoricalOracleData,
    pub last_mark_price_twap: u64,
    pub last_bid_price_twap: u64,
    pub last_ask_price_twap: u64,
    pub last_mark_price_twap_ts: i64,
    pub funding_period: i64,
    pub base_asset_amount_with_amm: i128,
    pub base_asset_amount_with_unsettled_lp: i128,
    pub base_asset_amount_long: i128,
    pub base_asset_amount_short: i128,
    pub total_fee_minus_distributions: i128,
    pub total_exchange_fee: u128,
}

/// Market tiers; the tier decides the clamp denominator used when
/// sanitizing a single TWAP update.
#[derive(Clone, Copy, PartialEq, Eq, Structural, Debug)]
pub enum ContractTier {
    A,
    B,
    C,
    Speculative,
    Isolated,
}

/// A venue-D perpetual market, reduced to what funding needs.
#[derive(Clone, Copy, PartialEq, Eq, Structural, Debug)]
pub struct PerpMarket {
    pub market_index: u16,
    pub amm: Amm,
    pub contract_tier: ContractTier,
}

/// Trade direction.
#[derive(Clone, Copy, PartialEq, Eq, Structural, Debug)]
pub enum PositionDirection {
    Long,
    Short,
}

pub open spec fn spec_max(a: int, b: int) -> int {
    if a >= b {
        a
    } else {
        b
    }
}

pub open spec fn spec_min(a: int, b: int) -> int {
    if a <= b {
        a
    } else {
        b
    }
}

/// Oracle price pulled toward the reserve price by at most 2.5 bps,
/// within the oracle's confidence interval; `None` exactly where the
/// checked arithmetic fails.
pub open spec fn normalize_oracle_price_spec(op: int, conf: int, rp: int) -> Option<int> {
    if rp > i64::MAX {
        None
    } else if conf > i64::MAX {
        None
    } else {
        let band = rp / 4000;
        if rp > op {
            if !in_i64(op + conf) {
                None
            } else {
                Some(spec_min(spec_max(rp - band, op), op + conf))
            }
        } else {
            if !in_i64(rp + band) {
                None
            } else if !in_i64(op - conf) {
                None
            } else {
                Some(spec_max(spec_min(rp + band, op), op - conf))
            }
        }
    }
}

pub fn normalize_oracle_price(oracle_price: i64, oracle_conf: u64, reserve_price: u64) -> (r:
    DriftResult<i64>)
    ensures
        match r {
            Ok(v) => normalize_oracle_price_spec(
                oracle_price as int,
                oracle_conf as int,
                reserve_price as int,
            ) matches Some(sv) && sv == v as int,
            Err(e) => e == DriftError::MathError && normalize_oracle_price_spec(
                oracle_price as int,
                oracle_conf as int,
                reserve_price as int,
            ) is None,
        },
{
    let rp = match cast_u64_to_i64(reserve_price) {
        Ok(v) => v,
        Err(e) => {
            return Err(e);
        },
    };
    // 2.5 bps of the reserve price
    let band = match safe_div_i64(rp, 4000) {
        Ok(v) => v,
        Err(e) => {
            return Err(e);
        },
    };
    let conf = match cast_u64_to_i64(oracle_conf) {
        Ok(v) => v,
        Err(e) => {
            return Err(e);
        },
    };
    if rp > oracle_price {
        let low = match safe_sub_i64(rp, band) {
            Ok(v) => v,
            Err(e) => {
                return Err(e);
            },
        };
        let high = match safe_add_i64(oracle_price, conf) {
            Ok(v) => v,
            Err(e) => {
                return Err(e);
            },
        };
        let inner = if low >= oracle_price {
            low
        } else {
            oracle_price
        };
        Ok(
            if inner <= high {
                inner
            } else {
                high
            },
        )
    } else {
        let high = match safe_add_i64(rp, band) {
            Ok(v) => v,
            Err(e) => {
                return Err(e);
            },
        };
        let low = match safe_sub_i64(oracle_price, conf) {
            Ok(v) => v,
            Err(e) => {
                return Err(e);
            },
        };
        let inner = if high <= oracle_price {
            high
        } else {
            oracle_price
        };
        Ok(
            if inner >= low {
                inner
            } else {
                low
            },
        )
    }
}

/// A fresh price capped to within `last_twap / clamp_denominator` of
/// the previous TWAP.
pub open spec fn sanitize_new_price_spec(
    new_price: int,
    last_twap: int,
    clamp_denom: Option<i64>,
) -> Option<int> {
    if last_twap == 0 {
        Some(new_price)
    } else if !in_i64(new_price - last_twap) {
        None
    } else {
        let denom = match clamp_denom {
            Some(d) => d as int,
            None => DEFAULT_MAX_TWAP_UPDATE_PRICE_BAND_DENOMINATOR as int,
        };
        if denom == 0 {
            Some(new_price)
        } else if last_twap == i64::MIN && denom == -1 {
            None
        } else {
            let band = tdiv(last_twap, denom);
            let spread = new_price - last_twap;
            if iabs(spread) > iabs(band) {
                if new_price > last_twap {
                    if !in_i64(last_twap + band) {
                        None
                    } else {
                        Some(last_twap + band)
                    }
                } else {
                    if !in_i64(last_twap - band) {
                        None
                    } else {
                        Some(last_twap - band)
                    }
                }
            } else {
                Some(new_price)
            }
        }
    }
}

#[verifier::rlimit(60)]
pub fn sanitize_new_price(new_price: i64, last_price_twap: i64, sanitize_clamp_denominator:
    Option<i64>) -> (r: DriftResult<i64>)
    ensures
        match r {
            Ok(v) => sanitize_new_price_spec(
                new_price as int,
                last_price_twap as int,
                sanitize_clamp_denominator,
            ) matches Some(sv) && sv == v as int,
            Err(e) => e == DriftError::MathError && sanitize_new_price_spec(
                new_price as int,
                last_price_twap as int,
                sanitize_clamp_denominator,
            ) is None,
        },
{
    // when/if the TWAP is 0, don't try to normalize the new price
    if last_price_twap == 0 {
        return Ok(new_price);
    }
    let new_price_spread = match safe_sub_i64(new_price, last_price_twap) {
        Ok(v) => v,
        Err(e) => {
            return Err(e);
        },
    };
    let denom = match sanitize_clamp_denominator {
        Some(d) => d,
        None => DEFAULT_MAX_TWAP_UPDATE_PRICE_BAND_DENOMINATOR,
    };
    if denom == 0 {
        // no price band check
        return Ok(new_price);
    }
    let band = match safe_div_i64(last_price_twap, denom) {
        Ok(v) => v,
        Err(e) => {
            return Err(e);
        },
    };
    let capped: i64 = if unsigned_abs_i64(new_price_spread) > unsigned_abs_i64(band) {
        if new_price > last_price_twap {
            match safe_add_i64(last_price_twap, band) {
                Ok(v) => v,
                Err(e) => {
                    return Err(e);
                },
            }
        } else {
            match safe_sub_i64(last_price_twap, band) {
                Ok(v) => v,
                Err(e) => {
                    return Err(e);
                },
            }
        }
    } else {
        new_price
    };
    proof {
        assert(last_price_twap != 0);
        assert(in_i64(new_price - last_price_twap));
        assert(denom as int == (match sanitize_clamp_denominator {
            Some(d) => d as int,
            None => DEFAULT_MAX_TWAP_UPDATE_PRICE_BAND_DENOMINATOR as int,
        }));
        assert(denom != 0);
        assert(!(last_price_twap == i64::MIN && denom == -1));
        assert(band as int == tdiv(last_price_twap as int, denom as int));
        assert(capped as int == (if iabs(new_price as int - last_price_twap as int) > iabs(
            band as int,
        ) {
            if new_price > last_price_twap {
                last_price_twap as int + band as int
            } else {
                last_price_twap as int - band as int
            }
        } else {
            new_price as int
        }));
        assert(sanitize_new_price_spec(
            new_price as int,
            last_price_twap as int,
            sanitize_clamp_denominator,
        ) == Some(capped as int));
    }
    Ok(capped)
}

/// The product of two 64-bit signed values stays well inside the
/// 128-bit signed range.
pub proof fn lemma_i64_product_bounds(x: int, y: int)
    by (nonlinear_arith)
    requires
        i64::MIN <= x <= i64::MAX,
        i64::MIN <= y <= i64::MAX,
    ensures
        -0x3fff_ffff_ffff_ffff_8000_0000_0000_0000 <= x * y
            <= 0x4000_0000_0000_0000_0000_0000_0000_0000,
{
}

/// Weighted average of two samples, with a one-unit bias toward the
/// newer sample when the division truncates.
pub open spec fn calculate_weighted_average_spec(d1: int, d2: int, w1: int, w2: int) -> Option<
    int,
> {
    if !in_i64(w1 + w2) {
        None
    } else if w1 == 0 {
        Some(d2)
    } else if w2 == 0 {
        Some(d1)
    } else {
        let denominator = w1 + w2;
        let prev = d1 * w1;
        let latest = d2 * w2;
        let bias: int = if w2 > 1 {
            if latest < prev {
                -1
            } else if latest > prev {
                1
            } else {
                0
            }
        } else {
            0
        };
        if !in_i128(prev + latest) {
            None
        } else if denominator == 0 {
            None
        } else {
            let twap = tdiv(prev + latest, denominator);
            if !in_i64(twap) {
                None
            } else if twap == 0 && bias < 0 {
                Some(0)
            } else if !in_i64(twap + bias) {
                None
            } else {
                Some(twap + bias)
            }
        }
    }
}

pub fn calculate_weighted_average(data1: i64, data2: i64, weight1: i64, weight2: i64) -> (r:
    DriftResult<i64>)
    ensures
        match r {
            Ok(v) => calculate_weighted_average_spec(
                data1 as int,
                data2 as int,
                weight1 as int,
                weight2 as int,
            ) matches Some(sv) && sv == v as int,
            Err(e) => e == DriftError::MathError && calculate_weighted_average_spec(
                data1 as int,
                data2 as int,
                weight1 as int,
                weight2 as int,
            ) is None,
        },
{
    proof {
        lemma_i64_product_bounds(data1 as int, weight1 as int);
        lemma_i64_product_bounds(data2 as int, weight2 as int);
    }
    let denominator_64 = match safe_add_i64(weight1, weight2) {
        Ok(v) => v,
        Err(e) => {
            return Err(e);
        },
    };
    let denominator = denominator_64 as i128;
    let prev_weighted = match safe_mul_i128(data1 as i128, weight1 as i128) {
        Ok(v) => v,
        Err(e) => {
            return Err(e);
        },
    };
    let latest_weighted = match safe_mul_i128(data2 as i128, weight2 as i128) {
        Ok(v) => v,
        Err(e) => {
            return Err(e);
        },
    };
    if weight1 == 0 {
        return Ok(data2);
    }
    if weight2 == 0 {
        return Ok(data1);
    }
    let bias: i64 = if weight2 > 1 {
        if latest_weighted < prev_weighted {
            -1
        } else if latest_weighted > prev_weighted {
            1
        } else {
            0
        }
    } else {
        0
    };
    let sum = match safe_add_i128(prev_weighted, latest_weighted) {
        Ok(v) => v,
        Err(e) => {
            return Err(e);
        },
    };
    let twap_128 = match safe_div_i128(sum, denominator) {
        Ok(v) => v,
        Err(e) => {
            return Err(e);
        },
    };
    let twap = match cast_i128_to_i64(twap_128) {
        Ok(v) => v,
        Err(e) => {
            return Err(e);
        },
    };
    if twap == 0 && bias < 0 {
        return Ok(twap);
    }
    match safe_add_i64(twap, bias) {
        Ok(v) => Ok(v),
        Err(e) => Err(e),
    }
}

/// TWAP update from one new sample: weights are the elapsed time and
/// the remaining share of the period.
pub open spec fn calculate_new_twap_spec(
    current_price: int,
    current_ts: int,
    last_twap: int,
    last_ts: int,
    period: int,
) -> Option<int> {
    if !in_i64(current_ts - last_ts) {
        None
    } else {
        let since_last = spec_max(0, current_ts - last_ts);
        if !in_i64(period - since_last) {
            None
        } else {
            let from_start = spec_max(1, period - since_last);
            calculate_weighted_average_spec(current_price, last_twap, since_last, from_start)
        }
    }
}

pub fn calculate_new_twap(current_price: i64, current_ts: i64, last_twap: i64, last_ts: i64,
    period: i64) -> (r: DriftResult<i64>)
    ensures
        match r {
            Ok(v) => calculate_new_twap_spec(
                current_price as int,
                current_ts as int,
                last_twap as int,
                last_ts as int,
                period as int,
            ) matches Some(sv) && sv == v as int,
            Err(e) => e == DriftError::MathError && calculate_new_twap_spec(
                current_price as int,
                current_ts as int,
                last_twap as int,
                last_ts as int,
                period as int,
            ) is None,
        },
{
    let elapsed = match safe_sub_i64(current_ts, last_ts) {
        Ok(v) => v,
        Err(e) => {
            return Err(e);
        },
    };
    let since_last = if elapsed >= 0 {
        elapsed
    } else {
        0
    };
    let rest = match safe_sub_i64(period, since_last) {
        Ok(v) => v,
        Err(e) => {
            return Err(e);
        },
    };
    let from_start = if rest >= 1 {
        rest
    } else {
        1
    };
    calculate_weighted_average(current_price, last_twap, since_last, from_start)
}

} // verus!

verus! {

/// Oracle TWAP update: interpolates the sample toward the mark TWAP
/// when the oracle lagged, then folds it into the running TWAP.
pub open spec fn calculate_new_oracle_price_twap_spec(amm: Amm, now: int, oracle_price: int)
    -> Option<int> {
    let last_mark_twap = amm.last_mark_price_twap as int;
    let last_oracle_twap = amm.historical_oracle_data.last_oracle_price_twap as int;
    let oracle_ts = amm.historical_oracle_data.last_oracle_price_twap_ts as int;
    let mark_ts = amm.last_mark_price_twap_ts as int;
    let period = amm.funding_period as int;
    if !in_i64(now - oracle_ts) {
        None
    } else {
        let since_last = spec_max(
            if period == 0 {
                1
            } else {
                0
            },
            now - oracle_ts,
        );
        if !in_i64(period - since_last) {
            None
        } else {
            let from_start = spec_max(0, period - since_last);
            if mark_ts > oracle_ts {
                if !in_i64(mark_ts - oracle_ts) {
                    None
                } else {
                    let since_last_valid = mark_ts - oracle_ts;
                    if !in_i64(period - since_last_valid) {
                        None
                    } else {
                        let from_start_valid = spec_max(1, period - since_last_valid);
                        if last_mark_twap > i64::MAX {
                            None
                        } else {
                            match calculate_weighted_average_spec(
                                last_mark_twap,
                                oracle_price,
                                since_last_valid,
                                from_start_valid,
                            ) {
                                Some(interp) => calculate_weighted_average_spec(
                                    interp,
                                    last_oracle_twap,
                                    since_last,
                                    from_start,
                                ),
                                None => None,
                            }
                        }
                    }
                }
            } else {
                calculate_weighted_average_spec(
                    oracle_price,
                    last_oracle_twap,
                    since_last,
                    from_start,
                )
            }
        }
    }
}

pub fn calculate_new_oracle_price_twap(amm: &Amm, now: i64, oracle_price: i64) -> (r: DriftResult<
    i64,
>)
    ensures
        match r {
            Ok(v) => calculate_new_oracle_price_twap_spec(*amm, now as int, oracle_price as int)
                matches Some(sv) && sv == v as int,
            Err(e) => e == DriftError::MathError && calculate_new_oracle_price_twap_spec(
                *amm,
                now as int,
                oracle_price as int,
            ) is None,
        },
{
    let last_mark_twap = amm.last_mark_price_twap;
    let last_oracle_twap = amm.historical_oracle_data.last_oracle_price_twap;
    let period: i64 = amm.funding_period;
    let elapsed = match safe_sub_i64(now, amm.historical_oracle_data.last_oracle_price_twap_ts) {
        Ok(v) => v,
        Err(e) => {
            return Err(e);
        },
    };
    let floor: i64 = if period == 0 {
        1
    } else {
        0
    };
    let since_last = if elapsed >= floor {
        elapsed
    } else {
        floor
    };
    let rest = match safe_sub_i64(period, since_last) {
        Ok(v) => v,
        Err(e) => {
            return Err(e);
        },
    };
    let from_start = if rest >= 0 {
        rest
    } else {
        0
    };
    // if an oracle delay impacted the last oracle TWAP, shrink toward the mark TWAP
    let interpolated_oracle_price = if amm.last_mark_price_twap_ts
        > amm.historical_oracle_data.last_oracle_price_twap_ts {
        let since_last_valid = match safe_sub_i64(
            amm.last_mark_price_twap_ts,
            amm.historical_oracle_data.last_oracle_price_twap_ts,
        ) {
            Ok(v) => v,
            Err(e) => {
                return Err(e);
            },
        };
        let rest_valid = match safe_sub_i64(period, since_last_valid) {
            Ok(v) => v,
            Err(e) => {
                return Err(e);
            },
        };
        let from_start_valid = if rest_valid >= 1 {
            rest_valid
        } else {
            1
        };
        let mark_twap_i64 = match cast_u64_to_i64(last_mark_twap) {
            Ok(v) => v,
            Err(e) => {
                return Err(e);
            },
        };
        match calculate_weighted_average(
            mark_twap_i64,
            oracle_price,
            since_last_valid,
            from_start_valid,
        ) {
            Ok(v) => v,
            Err(e) => {
                return Err(e);
            },
        }
    } else {
        return calculate_weighted_average(
            oracle_price,
            last_oracle_twap,
            since_last,
            from_start,
        );
    };
    calculate_weighted_average(interpolated_oracle_price, last_oracle_twap, since_last, from_start)
}

/// The funding payment owed on a position, in the AMM's precision:
/// magnitude `|delta| * |base| / 1e6 / 1000`, paid by longs when the
/// rate is positive.
pub open spec fn funding_payment_spec(delta: int, base: int) -> Option<int> {
    if iabs(delta) * iabs(base)
        >= 0x1_0000_0000_0000_0000_0000_0000_0000_0000_0000_0000_0000_0000 {
        None
    } else {
        let mag = iabs(delta) * iabs(base) / 1_000_000 / 1000;
        if mag > i128::MAX {
            None
        } else {
            if (delta > 0) == (base > 0) {
                Some(-mag)
            } else {
                Some(mag)
            }
        }
    }
}

pub fn calculate_funding_payment(funding_rate_delta: i128, base_asset_amount: i128) -> (r:
    DriftResult<i128>)
    ensures
        match r {
            Ok(v) => funding_payment_spec(funding_rate_delta as int, base_asset_amount as int)
                matches Some(sv) && sv == v as int,
            Err(e) => e == DriftError::MathError && funding_payment_spec(
                funding_rate_delta as int,
                base_asset_amount as int,
            ) is None,
        },
{
    let delta_mag = crate::safe_math::unsigned_abs_i128(funding_rate_delta);
    let base_mag = crate::safe_math::unsigned_abs_i128(base_asset_amount);
    let product = match U192::from_u128(delta_mag).safe_mul(U192::from_u128(base_mag)) {
        Ok(v) => v,
        Err(e) => {
            return Err(e);
        },
    };
    let scaled = match product.safe_div(U192::from_u128(PRICE_PRECISION)) {
        Ok(v) => v,
        Err(e) => {
            return Err(e);
        },
    };
    let buffered = match scaled.safe_div(U192::from_u128(1000)) {
        Ok(v) => v,
        Err(e) => {
            return Err(e);
        },
    };
    let magnitude = match buffered.to_i128() {
        Ok(v) => v,
        Err(e) => {
            return Err(e);
        },
    };
    proof {
        vstd::arithmetic::div_mod::lemma_div_nonincreasing(
            iabs(funding_rate_delta as int) * iabs(base_asset_amount as int),
            1_000_000,
        );
    }
    if (funding_rate_delta > 0) == (base_asset_amount > 0) {
        Ok(-magnitude)
    } else {
        Ok(magnitude)
    }
}

/// The funding payment scaled from AMM precision to quote precision.
pub open spec fn funding_payment_in_quote_precision_spec(delta: int, base: int) -> Option<int> {
    match funding_payment_spec(delta, base) {
        Some(p) => Some(tdiv(p, AMM_TO_QUOTE_PRECISION_RATIO as int)),
        None => None,
    }
}

pub fn calculate_funding_payment_in_quote_precision(funding_rate_delta: i128, base_asset_amount:
    i128) -> (r: DriftResult<i128>)
    ensures
        match r {
            Ok(v) => funding_payment_in_quote_precision_spec(
                funding_rate_delta as int,
                base_asset_amount as int,
            ) matches Some(sv) && sv == v as int,
            Err(e) => e == DriftError::MathError && funding_payment_in_quote_precision_spec(
                funding_rate_delta as int,
                base_asset_amount as int,
            ) is None,
        },
{
    let funding_payment = match calculate_funding_payment(funding_rate_delta, base_asset_amount) {
        Ok(v) => v,
        Err(e) => {
            return Err(e);
        },
    };
    match safe_div_i128(funding_payment, AMM_TO_QUOTE_PRECISION_RATIO as i128) {
        Ok(v) => Ok(v),
        Err(e) => Err(e),
    }
}

/// The funding rate that would exactly exhaust a profit-and-loss
/// budget on a given open base amount.
pub open spec fn funding_rate_from_pnl_limit_spec(pnl_limit: int, base: int) -> Option<int> {
    if base == 0 {
        Some(0)
    } else {
        let biased = if pnl_limit < 0 {
            pnl_limit + 1
        } else {
            pnl_limit
        };
        if !in_i128(biased * QUOTE_TO_BASE_AMT_FUNDING_PRECISION) {
            None
        } else if biased * QUOTE_TO_BASE_AMT_FUNDING_PRECISION == i128::MIN && base == -1 {
            None
        } else {
            Some(tdiv(biased * QUOTE_TO_BASE_AMT_FUNDING_PRECISION, base))
        }
    }
}

pub fn calculate_funding_rate_from_pnl_limit(pnl_limit: i128, base_asset_amount: i128) -> (r:
    DriftResult<i128>)
    ensures
        match r {
            Ok(v) => funding_rate_from_pnl_limit_spec(pnl_limit as int, base_asset_amount as int)
                matches Some(sv) && sv == v as int,
            Err(e) => e == DriftError::MathError && funding_rate_from_pnl_limit_spec(
                pnl_limit as int,
                base_asset_amount as int,
            ) is None,
        },
{
    if base_asset_amount == 0 {
        return Ok(0);
    }
    let pnl_limit_biased = if pnl_limit < 0 {
        match safe_add_i128(pnl_limit, 1) {
            Ok(v) => v,
            Err(e) => {
                return Err(e);
            },
        }
    } else {
        pnl_limit
    };
    let scaled = match safe_mul_i128(pnl_limit_biased, QUOTE_TO_BASE_AMT_FUNDING_PRECISION) {
        Ok(v) => v,
        Err(e) => {
            return Err(e);
        },
    };
    match safe_div_i128(scaled, base_asset_amount) {
        Ok(v) => Ok(v),
        Err(e) => Err(e),
    }
}

/// A price rounded onto the tick grid: down for longs, up for shorts.
pub open spec fn standardize_price_spec(price: int, tick_size: int, direction: PositionDirection)
    -> Option<int> {
    if price == 0 {
        Some(0)
    } else if tick_size == 0 {
        None
    } else {
        let remainder = price % tick_size;
        if remainder == 0 {
            Some(price)
        } else {
            match direction {
                PositionDirection::Long => Some(price - remainder),
                PositionDirection::Short => {
                    if price + tick_size > u64::MAX {
                        None
                    } else {
                        Some(price + tick_size - remainder)
                    }
                },
            }
        }
    }
}

pub fn standardize_price(price: u64, tick_size: u64, direction: PositionDirection) -> (r:
    DriftResult<u64>)
    ensures
        match r {
            Ok(v) => standardize_price_spec(price as int, tick_size as int, direction)
                matches Some(sv) && sv == v as int,
            Err(e) => e == DriftError::MathError && standardize_price_spec(
                price as int,
                tick_size as int,
                direction,
            ) is None,
        },
{
    if price == 0 {
        return Ok(0);
    }
    let remainder = match price.checked_rem_euclid(tick_size) {
        Some(v) => v,
        None => {
            return Err(DriftError::MathError);
        },
    };
    if remainder == 0 {
        return Ok(price);
    }
    proof {
        vstd::arithmetic::div_mod::lemma_mod_decreases(price as nat, tick_size as nat);
        vstd::arithmetic::div_mod::lemma_mod_bound(price as int, tick_size as int);
    }
    match direction {
        PositionDirection::Long => {
            match safe_sub_u64(price, remainder) {
                Ok(v) => Ok(v),
                Err(e) => Err(e),
            }
        },
        PositionDirection::Short => {
            let bumped = match safe_add_u64(price, tick_size) {
                Ok(v) => v,
                Err(e) => {
                    return Err(e);
                },
            };
            match safe_sub_u64(bumped, remainder) {
                Ok(v) => Ok(v),
                Err(e) => Err(e),
            }
        },
    }
}

} // verus!

verus! {

/// Reserve price of the AMM: `quote * peg / base`, computed through a
/// 192-bit intermediate.
pub open spec fn calculate_price_spec(q: int, b: int, peg: int) -> Option<int> {
    if q * peg > u128::MAX {
        None
    } else if b == 0 {
        None
    } else {
        let v = (q * peg) / b;
        if v > u64::MAX {
            None
        } else {
            Some(v)
        }
    }
}

pub open spec fn reserve_price_spec(amm: Amm) -> Option<int> {
    calculate_price_spec(
        amm.quote_asset_reserve as int,
        amm.base_asset_reserve as int,
        amm.peg_multiplier as int,
    )
}

/// Best bid implied by the reserve price and the short spread.
pub open spec fn bid_price_spec(rp: int, short_spread: int) -> Option<int> {
    if short_spread > PERCENTAGE_PRECISION {
        None
    } else {
        let v = rp * (PERCENTAGE_PRECISION - short_spread) / PERCENTAGE_PRECISION as int;
        if v > u64::MAX {
            None
        } else {
            Some(v)
        }
    }
}

/// Best ask implied by the reserve price and the long spread.
pub open spec fn ask_price_spec(rp: int, long_spread: int) -> Option<int> {
    let v = rp * (PERCENTAGE_PRECISION + long_spread) / PERCENTAGE_PRECISION as int;
    if v > u64::MAX {
        None
    } else {
        Some(v)
    }
}

impl Amm {
    pub fn calculate_price(quote_asset_reserve: u128, base_asset_reserve: u128, peg_multiplier:
        u128) -> (r: DriftResult<u64>)
        ensures
            match r {
                Ok(v) => calculate_price_spec(
                    quote_asset_reserve as int,
                    base_asset_reserve as int,
                    peg_multiplier as int,
                ) matches Some(sv) && sv == v as int,
                Err(e) => e == DriftError::MathError && calculate_price_spec(
                    quote_asset_reserve as int,
                    base_asset_reserve as int,
                    peg_multiplier as int,
                ) is None,
            },
    {
        let peg_quote_asset_amount = match safe_mul_u128(quote_asset_reserve, peg_multiplier) {
            Ok(v) => v,
            Err(e) => {
                return Err(e);
            },
        };
        let scaled = match U192::from_u128(peg_quote_asset_amount).safe_mul(
            U192::from_u128(PRICE_TO_PEG_PRECISION_RATIO),
        ) {
            Ok(v) => v,
            Err(e) => {
                return Err(e);
            },
        };
        let quotient = match scaled.safe_div(U192::from_u128(base_asset_reserve)) {
            Ok(v) => v,
            Err(e) => {
                return Err(e);
            },
        };
        quotient.to_u64()
    }

    pub fn reserve_price(&self) -> (r: DriftResult<u64>)
        ensures
            match r {
                Ok(v) => reserve_price_spec(*self) matches Some(sv) && sv == v as int,
                Err(e) => e == DriftError::MathError && reserve_price_spec(*self) is None,
            },
    {
        Amm::calculate_price(self.quote_asset_reserve, self.base_asset_reserve, self.peg_multiplier)
    }

    pub fn bid_price(&self, reserve_price: u64) -> (r: DriftResult<u64>)
        ensures
            match r {
                Ok(v) => bid_price_spec(reserve_price as int, self.short_spread as int)
                    matches Some(sv) && sv == v as int,
                Err(e) => e == DriftError::MathError && bid_price_spec(
                    reserve_price as int,
                    self.short_spread as int,
                ) is None,
            },
    {
        let factor = match safe_sub_u128(PERCENTAGE_PRECISION, self.short_spread as u128) {
            Ok(v) => v,
            Err(e) => {
                return Err(e);
            },
        };
        proof {
            vstd::arithmetic::mul::lemma_mul_upper_bound(
                reserve_price as int,
                u64::MAX as int,
                factor as int,
                PERCENTAGE_PRECISION as int,
            );
        }
        let scaled = match safe_mul_u128(reserve_price as u128, factor) {
            Ok(v) => v,
            Err(e) => {
                return Err(e);
            },
        };
        let quotient = match crate::safe_math::safe_div_u128(scaled, PERCENTAGE_PRECISION) {
            Ok(v) => v,
            Err(e) => {
                return Err(e);
            },
        };
        cast_u128_to_u64(quotient)
    }

    pub fn ask_price(&self, reserve_price: u64) -> (r: DriftResult<u64>)
        ensures
            match r {
                Ok(v) => ask_price_spec(reserve_price as int, self.long_spread as int)
                    matches Some(sv) && sv == v as int,
                Err(e) => e == DriftError::MathError && ask_price_spec(
                    reserve_price as int,
                    self.long_spread as int,
                ) is None,
            },
    {
        let factor = match safe_add_u128(PERCENTAGE_PRECISION, self.long_spread as u128) {
            Ok(v) => v,
            Err(e) => {
                return Err(e);
            },
        };
        proof {
            vstd::arithmetic::mul::lemma_mul_upper_bound(
                reserve_price as int,
                u64::MAX as int,
                factor as int,
                PERCENTAGE_PRECISION + u32::MAX as int,
            );
        }
        let scaled = match safe_mul_u128(reserve_price as u128, factor) {
            Ok(v) => v,
            Err(e) => {
                return Err(e);
            },
        };
        let quotient = match crate::safe_math::safe_div_u128(scaled, PERCENTAGE_PRECISION) {
            Ok(v) => v,
            Err(e) => {
                return Err(e);
            },
        };
        cast_u128_to_u64(quotient)
    }

    /// Oracle TWAP update from a fresh oracle sample; keeps the old
    /// TWAP when the sanitized price is not positive.
    pub fn calculate_oracle_price_twap(&self, reserve_price: u64, now: i64, oracle_price: i64,
        oracle_confidence: u64, sanitize_clamp_denominator: Option<i64>) -> (r: DriftResult<i64>)
        ensures
            match r {
                Ok(v) => oracle_price_twap_spec(
                    *self,
                    reserve_price as int,
                    now as int,
                    oracle_price as int,
                    oracle_confidence as int,
                    sanitize_clamp_denominator,
                ) matches Some(sv) && sv == v as int,
                Err(e) => e == DriftError::MathError && oracle_price_twap_spec(
                    *self,
                    reserve_price as int,
                    now as int,
                    oracle_price as int,
                    oracle_confidence as int,
                    sanitize_clamp_denominator,
                ) is None,
            },
    {
        let normalized = match normalize_oracle_price(oracle_price, oracle_confidence,
            reserve_price) {
            Ok(v) => v,
            Err(e) => {
                return Err(e);
            },
        };
        let capped_oracle_update_price = match sanitize_new_price(
            normalized,
            self.historical_oracle_data.last_oracle_price_twap,
            sanitize_clamp_denominator,
        ) {
            Ok(v) => v,
            Err(e) => {
                return Err(e);
            },
        };
        if capped_oracle_update_price > 0 && normalized > 0 {
            calculate_new_oracle_price_twap(self, now, capped_oracle_update_price)
        } else {
            Ok(self.historical_oracle_data.last_oracle_price_twap)
        }
    }
}

/// Oracle TWAP pipeline: normalize toward the reserve price, cap the
/// single-update delta, then blend into the running TWAP.
pub open spec fn oracle_price_twap_spec(
    amm: Amm,
    rp: int,
    now: int,
    oracle_price: int,
    conf: int,
    clamp: Option<i64>,
) -> Option<int> {
    match normalize_oracle_price_spec(oracle_price, conf, rp) {
        None => None,
        Some(normalized) => match sanitize_new_price_spec(
            normalized,
            amm.historical_oracle_data.last_oracle_price_twap as int,
            clamp,
        ) {
            None => None,
            Some(capped) => if capped > 0 && normalized > 0 {
                calculate_new_oracle_price_twap_spec(amm, now, capped)
            } else {
                Some(amm.historical_oracle_data.last_oracle_price_twap as int)
            },
        },
    }
}

impl PerpMarket {
    /// The clamp denominator that the market's tier imposes on a single
    /// TWAP update.
    pub fn get_sanitize_clamp_denominator(&self) -> (r: Option<i64>)
        ensures
            r == sanitize_clamp_denominator_spec(*self),
    {
        match self.contract_tier {
            ContractTier::A => Some(10),
            ContractTier::B => Some(5),
            ContractTier::C => Some(2),
            ContractTier::Speculative => None,
            ContractTier::Isolated => None,
        }
    }

    /// Half of the total exchange fee: the share of fees that funding
    /// may never consume.
    pub fn get_total_fee_lower_bound(&self) -> (r: DriftResult<u128>)
        ensures
            r matches Ok(v) && v as int == self.amm.total_exchange_fee as int / 2,
    {
        match crate::safe_math::safe_div_u128(self.amm.total_exchange_fee, 2) {
            Ok(v) => Ok(v),
            Err(e) => Err(e),
        }
    }

    /// The fee pool available to pay funding: what exceeds the fee
    /// lower bound, or nothing.
    pub fn calculate_fee_pool(&self) -> (r: DriftResult<u128>)
        ensures
            match r {
                Ok(v) => fee_pool_spec(*self) matches Some(sv) && sv == v as int,
                Err(e) => e == DriftError::MathError && fee_pool_spec(*self) is None,
            },
    {
        let lower_bound_u = match self.get_total_fee_lower_bound() {
            Ok(v) => v,
            Err(e) => {
                return Err(e);
            },
        };
        let lower_bound = match cast_u128_to_i128(lower_bound_u) {
            Ok(v) => v,
            Err(e) => {
                return Err(e);
            },
        };
        if self.total_fee_minus_distributions_exceeds(lower_bound) {
            let diff = match safe_sub_i128(self.amm.total_fee_minus_distributions, lower_bound) {
                Ok(v) => v,
                Err(e) => {
                    return Err(e);
                },
            };
            match cast_i128_to_u128(diff) {
                Ok(v) => Ok(v),
                Err(e) => Err(e),
            }
        } else {
            Ok(0)
        }
    }

    fn total_fee_minus_distributions_exceeds(&self, bound: i128) -> (r: bool)
        ensures
            r == (self.amm.total_fee_minus_distributions > bound),
    {
        self.amm.total_fee_minus_distributions > bound
    }
}

pub open spec fn sanitize_clamp_denominator_spec(m: PerpMarket) -> Option<i64> {
    match m.contract_tier {
        ContractTier::A => Some(10i64),
        ContractTier::B => Some(5i64),
        ContractTier::C => Some(2i64),
        ContractTier::Speculative => None,
        ContractTier::Isolated => None,
    }
}

/// Fee pool: the excess of collected fees over the protected half of
/// the total exchange fee.
pub open spec fn fee_pool_spec(m: PerpMarket) -> Option<int> {
    let lower = m.amm.total_exchange_fee as int / 2;
    if lower > i128::MAX {
        None
    } else if m.amm.total_fee_minus_distributions > lower {
        Some(m.amm.total_fee_minus_distributions - lower)
    } else {
        Some(0)
    }
}

} // verus!

verus! {

/// Magnitude bounds for funding payments: both precisions stay within
/// `±i128::MAX`, so negation never overflows.
pub proof fn lemma_quote_payment_bounds(delta: int, base: int)
    ensures
        funding_payment_spec(delta, base) matches Some(p) ==> -(i128::MAX as int) <= p
            <= i128::MAX,
        funding_payment_in_quote_precision_spec(delta, base) matches Some(v) ==> -(
        i128::MAX as int) <= v <= i128::MAX,
{
    match funding_payment_spec(delta, base) {
        Some(p) => {
            let prod = iabs(delta) * iabs(base);
            assert(iabs(delta) * iabs(base) >= 0) by (nonlinear_arith)
                requires
                    iabs(delta) >= 0,
                    iabs(base) >= 0,
            ;
            vstd::arithmetic::div_mod::lemma_div_pos_is_pos(prod, 1_000_000);
            vstd::arithmetic::div_mod::lemma_div_pos_is_pos(prod / 1_000_000, 1000);
            assert(-(i128::MAX as int) <= p <= i128::MAX);
            crate::safe_math::lemma_tdiv_range(
                p,
                AMM_TO_QUOTE_PRECISION_RATIO as int,
                0x8000_0000_0000_0000_0000_0000_0000_0000,
            );
        },
        None => {},
    }
}

/// Best-bid estimate before flooring by the AMM bid.
pub open spec fn best_bid_estimate_spec(
    base_spread: int,
    short_spread: int,
    oracle_u: int,
    trade_price: int,
    premium: int,
) -> Option<int> {
    if premium > 0 {
        let discount = spec_min(base_spread, short_spread / 2);
        let red = spec_min(discount, iabs(premium));
        if oracle_u < red {
            None
        } else {
            Some(oracle_u - red)
        }
    } else {
        Some(trade_price)
    }
}

/// Best-ask estimate before capping by the AMM ask.
pub open spec fn best_ask_estimate_spec(
    base_spread: int,
    long_spread: int,
    oracle_u: int,
    trade_price: int,
    premium: int,
) -> Option<int> {
    if premium < 0 {
        let prem = spec_min(base_spread, long_spread / 2);
        let add = spec_min(prem, iabs(premium));
        if oracle_u + add > u64::MAX {
            None
        } else {
            Some(oracle_u + add)
        }
    } else {
        Some(trade_price)
    }
}

/// Estimated best bid and ask around a trade price, bracketed by the
/// AMM's own bid and ask; fails `InvalidOracle` on a non-positive
/// oracle and `InvalidMarkTwapUpdateDetected` on a crossed estimate.
pub open spec fn estimate_bid_ask_spec(
    amm: Amm,
    rp: int,
    precomputed: Option<u64>,
    direction: Option<PositionDirection>,
) -> Result<(int, int), DriftError> {
    if amm.historical_oracle_data.last_oracle_price <= 0 {
        Err(DriftError::InvalidOracle)
    } else {
        let oracle_u = amm.historical_oracle_data.last_oracle_price as int;
        let trade_price: int = match precomputed {
            Some(tp) => tp as int,
            None => oracle_u,
        };
        if trade_price > i64::MAX {
            Err(DriftError::MathError)
        } else if !in_i64(trade_price - oracle_u) {
            Err(DriftError::MathError)
        } else {
            let premium = trade_price - oracle_u;
            match bid_price_spec(rp, amm.short_spread as int) {
                None => Err(DriftError::MathError),
                Some(amm_bid) => match ask_price_spec(rp, amm.long_spread as int) {
                    None => Err(DriftError::MathError),
                    Some(amm_ask) => match best_bid_estimate_spec(
                        amm.base_spread as int,
                        amm.short_spread as int,
                        oracle_u,
                        trade_price,
                        premium,
                    ) {
                        None => Err(DriftError::MathError),
                        Some(bb0) => match best_ask_estimate_spec(
                            amm.base_spread as int,
                            amm.long_spread as int,
                            oracle_u,
                            trade_price,
                            premium,
                        ) {
                            None => Err(DriftError::MathError),
                            Some(ba0) => {
                                let bb = spec_max(bb0, amm_bid);
                                let ba = spec_min(ba0, amm_ask);
                                let pair: (int, int) = match direction {
                                    Some(PositionDirection::Long) => (
                                        bb,
                                        spec_max(trade_price, bb),
                                    ),
                                    Some(PositionDirection::Short) => (
                                        spec_min(trade_price, ba),
                                        ba,
                                    ),
                                    None => {
                                        let c = spec_min(
                                            spec_max(trade_price, amm_bid),
                                            amm_ask,
                                        );
                                        (c, c)
                                    },
                                };
                                if pair.0 > pair.1 {
                                    Err(DriftError::InvalidMarkTwapUpdateDetected)
                                } else {
                                    Ok(pair)
                                }
                            },
                        },
                    },
                },
            }
        }
    }
}

impl Amm {
    fn estimate_best_bid_ask_price(&self, amm_reserve_price: u64, precomputed_trade_price: Option<
        u64,
    >, direction: Option<PositionDirection>) -> (r: DriftResult<(u64, u64)>)
        ensures
            match r {
                Ok(v) => estimate_bid_ask_spec(
                    *self,
                    amm_reserve_price as int,
                    precomputed_trade_price,
                    direction,
                ) == Ok::<(int, int), DriftError>((v.0 as int, v.1 as int)),
                Err(e) => estimate_bid_ask_spec(
                    *self,
                    amm_reserve_price as int,
                    precomputed_trade_price,
                    direction,
                ) == Err::<(int, int), DriftError>(e),
            },
    {
        if self.historical_oracle_data.last_oracle_price <= 0 {
            return Err(DriftError::InvalidOracle);
        }
        let base_spread_u64 = self.base_spread as u64;
        let last_oracle_price_u64 = self.historical_oracle_data.last_oracle_price as u64;
        let trade_price: u64 = match precomputed_trade_price {
            Some(tp) => tp,
            None => last_oracle_price_u64,
        };
        let trade_price_i64 = match cast_u64_to_i64(trade_price) {
            Ok(v) => v,
            Err(e) => {
                return Err(e);
            },
        };
        let trade_premium = match safe_sub_i64(
            trade_price_i64,
            self.historical_oracle_data.last_oracle_price,
        ) {
            Ok(v) => v,
            Err(e) => {
                return Err(e);
            },
        };
        let amm_bid_price = match self.bid_price(amm_reserve_price) {
            Ok(v) => v,
            Err(e) => {
                return Err(e);
            },
        };
        let amm_ask_price = match self.ask_price(amm_reserve_price) {
            Ok(v) => v,
            Err(e) => {
                return Err(e);
            },
        };
        let best_bid_raw: u64 = if trade_premium > 0 {
            let half_short = (self.short_spread as u64) / 2;
            let discount = if base_spread_u64 <= half_short {
                base_spread_u64
            } else {
                half_short
            };
            let premium_mag = unsigned_abs_i64(trade_premium);
            let red = if discount <= premium_mag {
                discount
            } else {
                premium_mag
            };
            match safe_sub_u64(last_oracle_price_u64, red) {
                Ok(v) => v,
                Err(e) => {
                    return Err(e);
                },
            }
        } else {
            trade_price
        };
        let best_bid_estimate = if best_bid_raw >= amm_bid_price {
            best_bid_raw
        } else {
            amm_bid_price
        };
        let best_ask_raw: u64 = if trade_premium < 0 {
            let half_long = (self.long_spread as u64) / 2;
            let premium_cap = if base_spread_u64 <= half_long {
                base_spread_u64
            } else {
                half_long
            };
            let premium_mag = unsigned_abs_i64(trade_premium);
            let add = if premium_cap <= premium_mag {
                premium_cap
            } else {
                premium_mag
            };
            match safe_add_u64(last_oracle_price_u64, add) {
                Ok(v) => v,
                Err(e) => {
                    return Err(e);
                },
            }
        } else {
            trade_price
        };
        let best_ask_estimate = if best_ask_raw <= amm_ask_price {
            best_ask_raw
        } else {
            amm_ask_price
        };
        let (bid_price, ask_price): (u64, u64) = match direction {
            Some(PositionDirection::Long) => (
                best_bid_estimate,
                if trade_price >= best_bid_estimate {
                    trade_price
                } else {
                    best_bid_estimate
                },
            ),
            Some(PositionDirection::Short) => (
                if trade_price <= best_ask_estimate {
                    trade_price
                } else {
                    best_ask_estimate
                },
                best_ask_estimate,
            ),
            None => {
                let floored = if trade_price >= amm_bid_price {
                    trade_price
                } else {
                    amm_bid_price
                };
                let clamped = if floored <= amm_ask_price {
                    floored
                } else {
                    amm_ask_price
                };
                (clamped, clamped)
            },
        };
        if bid_price > ask_price {
            return Err(DriftError::InvalidMarkTwapUpdateDetected);
        }
        Ok((bid_price, ask_price))
    }
}

} // verus!

verus! {

/// Re-seeded bid and ask TWAPs: when no trade arrived for more than
/// the threshold since the last oracle TWAP update, both mark TWAPs
/// are first pulled toward the oracle TWAP.
pub open spec fn reseed_twaps_spec(amm: Amm, since: int, threshold: int) -> Option<(int, int)> {
    let last_oracle_twap = amm.historical_oracle_data.last_oracle_price_twap as int;
    let period = amm.funding_period as int;
    if since > threshold {
        if !in_i64(period - since) {
            None
        } else {
            let fsv = spec_max(0, period - since);
            if amm.last_bid_price_twap > i64::MAX {
                None
            } else {
                match calculate_weighted_average_spec(
                    last_oracle_twap,
                    amm.last_bid_price_twap as int,
                    since,
                    fsv,
                ) {
                    None => None,
                    Some(lb) => if amm.last_ask_price_twap > i64::MAX {
                        None
                    } else {
                        match calculate_weighted_average_spec(
                            last_oracle_twap,
                            amm.last_ask_price_twap as int,
                            since,
                            fsv,
                        ) {
                            None => None,
                            Some(la) => Some((lb, la)),
                        }
                    },
                }
            }
        }
    } else {
        if amm.last_bid_price_twap > i64::MAX {
            None
        } else if amm.last_ask_price_twap > i64::MAX {
            None
        } else {
            Some((amm.last_bid_price_twap as int, amm.last_ask_price_twap as int))
        }
    }
}

/// Mark TWAP update: estimate the best bid and ask, cap each against
/// its previous TWAP, optionally re-seed after a quiet stretch, fold
/// both in, and return their midpoint.
pub open spec fn mark_twap_spec(
    amm: Amm,
    now: int,
    rp: int,
    trade_price: u64,
    direction: Option<PositionDirection>,
    clamp: Option<i64>,
) -> Result<int, DriftError> {
    let oracle_ts = amm.historical_oracle_data.last_oracle_price_twap_ts as int;
    let mark_ts = amm.last_mark_price_twap_ts as int;
    let period = amm.funding_period as int;
    match estimate_bid_ask_spec(amm, rp, Some(trade_price), direction) {
        Err(e) => Err(e),
        Ok(pair) => if pair.0 > i64::MAX {
            Err(DriftError::MathError)
        } else if amm.last_bid_price_twap > i64::MAX {
            Err(DriftError::MathError)
        } else {
            match sanitize_new_price_spec(pair.0, amm.last_bid_price_twap as int, clamp) {
                None => Err(DriftError::MathError),
                Some(bid_capped) => if pair.1 > i64::MAX {
                    Err(DriftError::MathError)
                } else if amm.last_ask_price_twap > i64::MAX {
                    Err(DriftError::MathError)
                } else {
                    match sanitize_new_price_spec(
                        pair.1,
                        amm.last_ask_price_twap as int,
                        clamp,
                    ) {
                        None => Err(DriftError::MathError),
                        Some(ask_capped) => if bid_capped > ask_capped {
                            Err(DriftError::InvalidMarkTwapUpdateDetected)
                        } else if !in_i64(oracle_ts - mark_ts) {
                            Err(DriftError::MathError)
                        } else {
                            let since = oracle_ts - mark_ts;
                            let threshold = spec_max(tdiv(period, 60), 60);
                            match reseed_twaps_spec(amm, since, threshold) {
                                None => Err(DriftError::MathError),
                                Some(seeds) => match calculate_new_twap_spec(
                                    bid_capped,
                                    now,
                                    seeds.0,
                                    mark_ts,
                                    period,
                                ) {
                                    None => Err(DriftError::MathError),
                                    Some(bid_twap) => match calculate_new_twap_spec(
                                        ask_capped,
                                        now,
                                        seeds.1,
                                        mark_ts,
                                        period,
                                    ) {
                                        None => Err(DriftError::MathError),
                                        Some(ask_twap) => if !in_i64(bid_twap + ask_twap) {
                                            Err(DriftError::MathError)
                                        } else {
                                            let mid = tdiv(bid_twap + ask_twap, 2);
                                            if mid < 0 {
                                                Err(DriftError::MathError)
                                            } else {
                                                Ok(mid)
                                            }
                                        },
                                    },
                                },
                            }
                        },
                    }
                },
            }
        },
    }
}

impl Amm {
    pub fn calculate_mark_twap(&self, now: i64, reserve_price: u64, precomputed_trade_price: u64,
        direction: Option<PositionDirection>, sanitize_clamp: Option<i64>) -> (r: DriftResult<u64>)
        ensures
            match r {
                Ok(v) => mark_twap_spec(
                    *self,
                    now as int,
                    reserve_price as int,
                    precomputed_trade_price,
                    direction,
                    sanitize_clamp,
                ) == Ok::<int, DriftError>(v as int),
                Err(e) => mark_twap_spec(
                    *self,
                    now as int,
                    reserve_price as int,
                    precomputed_trade_price,
                    direction,
                    sanitize_clamp,
                ) == Err::<int, DriftError>(e),
            },
    {
        let (bid_price, ask_price) = match self.estimate_best_bid_ask_price(
            reserve_price,
            Some(precomputed_trade_price),
            direction,
        ) {
            Ok(v) => v,
            Err(e) => {
                return Err(e);
            },
        };
        let bid_i64 = match cast_u64_to_i64(bid_price) {
            Ok(v) => v,
            Err(e) => {
                return Err(e);
            },
        };
        let last_bid_i64 = match cast_u64_to_i64(self.last_bid_price_twap) {
            Ok(v) => v,
            Err(e) => {
                return Err(e);
            },
        };
        let bid_price_capped_update = match sanitize_new_price(
            bid_i64,
            last_bid_i64,
            sanitize_clamp,
        ) {
            Ok(v) => v,
            Err(e) => {
                return Err(e);
            },
        };
        let ask_i64 = match cast_u64_to_i64(ask_price) {
            Ok(v) => v,
            Err(e) => {
                return Err(e);
            },
        };
        let last_ask_i64 = match cast_u64_to_i64(self.last_ask_price_twap) {
            Ok(v) => v,
            Err(e) => {
                return Err(e);
            },
        };
        let ask_price_capped_update = match sanitize_new_price(
            ask_i64,
            last_ask_i64,
            sanitize_clamp,
        ) {
            Ok(v) => v,
            Err(e) => {
                return Err(e);
            },
        };
        if bid_price_capped_update > ask_price_capped_update {
            return Err(DriftError::InvalidMarkTwapUpdateDetected);
        }
        let last_valid_trade_since_oracle_twap_update = match safe_sub_i64(
            self.historical_oracle_data.last_oracle_price_twap_ts,
            self.last_mark_price_twap_ts,
        ) {
            Ok(v) => v,
            Err(e) => {
                return Err(e);
            },
        };
        let period_minutes = match safe_div_i64(self.funding_period, 60) {
            Ok(v) => v,
            Err(e) => {
                return Err(e);
            },
        };
        let threshold = if period_minutes >= 60 {
            period_minutes
        } else {
            60
        };
        let (last_bid_price_twap, last_ask_price_twap): (i64, i64) = if
            last_valid_trade_since_oracle_twap_update > threshold {
            let rest = match safe_sub_i64(
                self.funding_period,
                last_valid_trade_since_oracle_twap_update,
            ) {
                Ok(v) => v,
                Err(e) => {
                    return Err(e);
                },
            };
            let from_start_valid = if rest >= 0 {
                rest
            } else {
                0
            };
            let lb = match calculate_weighted_average(
                self.historical_oracle_data.last_oracle_price_twap,
                last_bid_i64,
                last_valid_trade_since_oracle_twap_update,
                from_start_valid,
            ) {
                Ok(v) => v,
                Err(e) => {
                    return Err(e);
                },
            };
            let la = match calculate_weighted_average(
                self.historical_oracle_data.last_oracle_price_twap,
                last_ask_i64,
                last_valid_trade_since_oracle_twap_update,
                from_start_valid,
            ) {
                Ok(v) => v,
                Err(e) => {
                    return Err(e);
                },
            };
            (lb, la)
        } else {
            (last_bid_i64, last_ask_i64)
        };
        // fold the capped updates into the bid and ask TWAPs
        let bid_twap = match calculate_new_twap(
            bid_price_capped_update,
            now,
            last_bid_price_twap,
            self.last_mark_price_twap_ts,
            self.funding_period,
        ) {
            Ok(v) => v,
            Err(e) => {
                return Err(e);
            },
        };
        let ask_twap = match calculate_new_twap(
            ask_price_capped_update,
            now,
            last_ask_price_twap,
            self.last_mark_price_twap_ts,
            self.funding_period,
        ) {
            Ok(v) => v,
            Err(e) => {
                return Err(e);
            },
        };
        let sum = match safe_add_i64(bid_twap, ask_twap) {
            Ok(v) => v,
            Err(e) => {
                return Err(e);
            },
        };
        let mid_twap = match safe_div_i64(sum, 2) {
            Ok(v) => v,
            Err(e) => {
                return Err(e);
            },
        };
        cast_i64_to_u64(mid_twap)
    }
}

} // verus!

verus! {

/// Funding rate reduced so that the protocol never pays more than a
/// third of its fee pool, crediting payments already flowing between
/// users.
pub open spec fn capped_funding_rate_spec(m: PerpMarket, uncapped_pnl: int, funding_rate: int)
    -> Option<(int, int)> {
    match fee_pool_spec(m) {
        None => None,
        Some(fee_pool) => {
            let pnl_limit = -(fee_pool / 3);
            let capped_pnl = spec_max(uncapped_pnl, pnl_limit);
            if uncapped_pnl < pnl_limit {
                let payer_base = if funding_rate > 0 {
                    m.amm.base_asset_amount_long as int
                } else {
                    m.amm.base_asset_amount_short as int
                };
                match funding_payment_in_quote_precision_spec(funding_rate, payer_base) {
                    None => None,
                    Some(from_users) => if !in_i128(pnl_limit - iabs(from_users)) {
                        None
                    } else {
                        let widened_limit = pnl_limit - iabs(from_users);
                        let receiver_base = if funding_rate < 0 {
                            m.amm.base_asset_amount_long as int
                        } else {
                            m.amm.base_asset_amount_short as int
                        };
                        match funding_rate_from_pnl_limit_spec(widened_limit, receiver_base) {
                            None => None,
                            Some(capped_rate) => Some((capped_rate, capped_pnl)),
                        }
                    },
                }
            } else {
                Some((funding_rate, capped_pnl))
            }
        },
    }
}

/// Long and short funding rates: the side the protocol would pay is
/// capped by the fee pool; fails `InvalidFundingProfitability` when
/// even the capped payment would breach the protected fee share.
pub open spec fn funding_rate_long_short_spec(m: PerpMarket, funding_rate: int) -> Result<
    (int, int, int),
    DriftError,
> {
    if !in_i128(
        m.amm.base_asset_amount_with_amm + m.amm.base_asset_amount_with_unsettled_lp,
    ) {
        Err(DriftError::MathError)
    } else {
        let settled = m.amm.base_asset_amount_with_amm
            + m.amm.base_asset_amount_with_unsettled_lp;
        match funding_payment_in_quote_precision_spec(funding_rate, settled) {
            None => Err(DriftError::MathError),
            Some(payment) => {
                let uncapped_pnl = -payment;
                if uncapped_pnl >= 0 {
                    Ok((funding_rate, funding_rate, uncapped_pnl))
                } else {
                    match capped_funding_rate_spec(m, uncapped_pnl, funding_rate) {
                        None => Err(DriftError::MathError),
                        Some(capped) => {
                            let capped_rate = capped.0;
                            let capped_pnl = capped.1;
                            if !in_i128(m.amm.total_fee_minus_distributions + capped_pnl) {
                                Err(DriftError::MathError)
                            } else {
                                let new_tfmd = m.amm.total_fee_minus_distributions + capped_pnl;
                                let lower = m.amm.total_exchange_fee as int / 2;
                                if capped_pnl != 0 && lower > i128::MAX {
                                    Err(DriftError::MathError)
                                } else if capped_pnl != 0 && new_tfmd < lower {
                                    Err(DriftError::InvalidFundingProfitability)
                                } else {
                                    Ok(
                                        (
                                            if funding_rate < 0 {
                                                capped_rate
                                            } else {
                                                funding_rate
                                            },
                                            if funding_rate > 0 {
                                                capped_rate
                                            } else {
                                                funding_rate
                                            },
                                            uncapped_pnl,
                                        ),
                                    )
                                }
                            }
                        },
                    }
                }
            },
        }
    }
}

impl PerpMarket {
    pub fn calculate_capped_funding_rate(&self, uncapped_funding_pnl: i128, funding_rate: i128)
        -> (r: DriftResult<(i128, i128)>)
        ensures
            match r {
                Ok(v) => capped_funding_rate_spec(
                    *self,
                    uncapped_funding_pnl as int,
                    funding_rate as int,
                ) matches Some(sv) && sv == (v.0 as int, v.1 as int),
                Err(e) => e == DriftError::MathError && capped_funding_rate_spec(
                    *self,
                    uncapped_funding_pnl as int,
                    funding_rate as int,
                ) is None,
            },
    {
        // the pnl limit is the share of fees the protocol may spend per period
        let fee_pool_u = match self.calculate_fee_pool() {
            Ok(v) => v,
            Err(e) => {
                return Err(e);
            },
        };
        let fee_pool = match cast_u128_to_i128(fee_pool_u) {
            Ok(v) => v,
            Err(e) => {
                return Err(e);
            },
        };
        let third = match safe_div_i128(fee_pool, 3) {
            Ok(v) => v,
            Err(e) => {
                return Err(e);
            },
        };
        proof {
            crate::safe_math::lemma_tdiv_range(
                fee_pool as int,
                3,
                0x8000_0000_0000_0000_0000_0000_0000_0000,
            );
        }
        let funding_rate_pnl_limit = match safe_sub_i128(0, third) {
            Ok(v) => v,
            Err(e) => {
                return Err(e);
            },
        };
        let capped_funding_pnl = if uncapped_funding_pnl >= funding_rate_pnl_limit {
            uncapped_funding_pnl
        } else {
            funding_rate_pnl_limit
        };
        if uncapped_funding_pnl < funding_rate_pnl_limit {
            let payer_base = if funding_rate > 0 {
                self.amm.base_asset_amount_long
            } else {
                self.amm.base_asset_amount_short
            };
            let funding_payment_from_users = match calculate_funding_payment_in_quote_precision(
                funding_rate,
                payer_base,
            ) {
                Ok(v) => v,
                Err(e) => {
                    return Err(e);
                },
            };
            proof {
                lemma_quote_payment_bounds(funding_rate as int, payer_base as int);
            }
            let from_users_mag = crate::safe_math::abs_i128(funding_payment_from_users);
            let widened_limit = match safe_sub_i128(funding_rate_pnl_limit, from_users_mag) {
                Ok(v) => v,
                Err(e) => {
                    return Err(e);
                },
            };
            let receiver_base = if funding_rate < 0 {
                self.amm.base_asset_amount_long
            } else {
                self.amm.base_asset_amount_short
            };
            let capped_rate = match calculate_funding_rate_from_pnl_limit(
                widened_limit,
                receiver_base,
            ) {
                Ok(v) => v,
                Err(e) => {
                    return Err(e);
                },
            };
            Ok((capped_rate, capped_funding_pnl))
        } else {
            Ok((funding_rate, capped_funding_pnl))
        }
    }

    pub fn calculate_funding_rate_long_short(&self, funding_rate: i128) -> (r: DriftResult<
        (i128, i128, i128),
    >)
        ensures
            match r {
                Ok(v) => funding_rate_long_short_spec(*self, funding_rate as int)
                    == Ok::<(int, int, int), DriftError>((v.0 as int, v.1 as int, v.2 as int)),
                Err(e) => funding_rate_long_short_spec(*self, funding_rate as int)
                    == Err::<(int, int, int), DriftError>(e),
            },
    {
        let settled_net_market_position = match safe_add_i128(
            self.amm.base_asset_amount_with_amm,
            self.amm.base_asset_amount_with_unsettled_lp,
        ) {
            Ok(v) => v,
            Err(e) => {
                return Err(e);
            },
        };
        let net_position_payment = match calculate_funding_payment_in_quote_precision(
            funding_rate,
            settled_net_market_position,
        ) {
            Ok(v) => v,
            Err(e) => {
                return Err(e);
            },
        };
        proof {
            lemma_quote_payment_bounds(funding_rate as int, settled_net_market_position as int);
        }
        let uncapped_funding_pnl = match safe_sub_i128(0, net_position_payment) {
            Ok(v) => v,
            Err(e) => {
                return Err(e);
            },
        };
        // a non-negative pnl means the protocol receives money
        if uncapped_funding_pnl >= 0 {
            return Ok((funding_rate, funding_rate, uncapped_funding_pnl));
        }
        let (capped_funding_rate, capped_funding_pnl) = match self.calculate_capped_funding_rate(
            uncapped_funding_pnl,
            funding_rate,
        ) {
            Ok(v) => v,
            Err(e) => {
                return Err(e);
            },
        };
        let new_total_fee_minus_distributions = match safe_add_i128(
            self.amm.total_fee_minus_distributions,
            capped_funding_pnl,
        ) {
            Ok(v) => v,
            Err(e) => {
                return Err(e);
            },
        };
        if capped_funding_pnl != 0 {
            let lower_u = match self.get_total_fee_lower_bound() {
                Ok(v) => v,
                Err(e) => {
                    return Err(e);
                },
            };
            let lower = match cast_u128_to_i128(lower_u) {
                Ok(v) => v,
                Err(e) => {
                    return Err(e);
                },
            };
            // the protocol may not pay past the protected fee share
            if new_total_fee_minus_distributions < lower {
                return Err(DriftError::InvalidFundingProfitability);
            }
        }
        let funding_rate_long = if funding_rate < 0 {
            capped_funding_rate
        } else {
            funding_rate
        };
        let funding_rate_short = if funding_rate > 0 {
            capped_funding_rate
        } else {
            funding_rate
        };
        Ok((funding_rate_long, funding_rate_short, uncapped_funding_pnl))
    }
}

} // verus!

verus! {

/// The venue-D instantaneous funding rate as a yearly rate in parts
/// per million: the clamped mark-to-oracle TWAP spread, scaled by the
/// funding period, capped by profitability, and annualized.
pub open spec fn drift_funding_rate_spec(
    m: PerpMarket,
    oracle_price: int,
    oracle_confidence: int,
    now: int,
) -> Result<int, DriftError> {
    let amm = m.amm;
    let clamp = sanitize_clamp_denominator_spec(m);
    match reserve_price_spec(amm) {
        None => Err(DriftError::MathError),
        Some(rp) => match oracle_price_twap_spec(
            amm,
            rp,
            now,
            oracle_price,
            oracle_confidence,
            clamp,
        ) {
            None => Err(DriftError::MathError),
            Some(oracle_twap) => {
                let premium: Result<(int, Option<PositionDirection>), DriftError> = if
                    amm.long_spread > amm.short_spread {
                    match ask_price_spec(rp, amm.long_spread as int) {
                        None => Err(DriftError::MathError),
                        Some(p) => Ok((p, Some(PositionDirection::Long))),
                    }
                } else if amm.long_spread < amm.short_spread {
                    match bid_price_spec(rp, amm.short_spread as int) {
                        None => Err(DriftError::MathError),
                        Some(p) => Ok((p, Some(PositionDirection::Short))),
                    }
                } else {
                    Ok((rp, None))
                };
                match premium {
                    Err(e) => Err(e),
                    Ok(pd) => match mark_twap_spec(amm, now, rp, pd.0 as u64, pd.1, clamp) {
                        Err(e) => Err(e),
                        Ok(mark_twap) => if mark_twap > i64::MAX {
                            Err(DriftError::MathError)
                        } else {
                            match raw_funding_rate_spec(
                                mark_twap,
                                oracle_twap,
                                amm.funding_period as int,
                            ) {
                                None => Err(DriftError::MathError),
                                Some(funding_rate) => match funding_rate_long_short_spec(
                                    m,
                                    funding_rate,
                                ) {
                                    Err(e) => Err(e),
                                    Ok(ls) => {
                                        let delta = if mark_twap > oracle_twap {
                                            ls.1
                                        } else {
                                            ls.0
                                        };
                                        match apr_magnitude_spec(delta, oracle_twap) {
                                            None => Err(DriftError::MathError),
                                            Some(apr) => if mark_twap > oracle_twap {
                                                Ok(apr)
                                            } else {
                                                Ok(-apr)
                                            },
                                        }
                                    },
                                },
                            }
                        },
                    },
                }
            },
        },
    }
}


/// The raw funding rate for one period: the mark-to-oracle spread,
/// clamped to about 3%, scaled by the funding-rate buffer, and spread
/// across the daily settlement window.
pub open spec fn raw_funding_rate_spec(mark_twap: int, oracle_twap: int, period: int) -> Option<
    int,
> {
    let period_adjustment: int = 86400int / spec_max(3600, period);
    if !in_i64(mark_twap - oracle_twap) {
        None
    } else {
        let price_spread = mark_twap - oracle_twap;
        let max_price_spread = tdiv(oracle_twap, 33);
        let clamped_price_spread = spec_max(
            -max_price_spread,
            spec_min(price_spread, max_price_spread),
        );
        if period_adjustment == 0 {
            None
        } else if !in_i64(tdiv(clamped_price_spread * 1000, period_adjustment)) {
            None
        } else {
            Some(tdiv(clamped_price_spread * 1000, period_adjustment))
        }
    }
}

/// The annualized magnitude of a funding rate relative to the oracle
/// TWAP, in parts per million per year.
pub open spec fn apr_magnitude_spec(delta: int, oracle_twap: int) -> Option<int> {
    if !in_i128(delta * 1000) {
        None
    } else if oracle_twap == 0 {
        None
    } else if delta * 1000 == i128::MIN && oracle_twap == -1 {
        None
    } else {
        let scaled_mag = iabs(tdiv(delta * 1000, oracle_twap));
        if scaled_mag * 100 > u128::MAX {
            None
        } else if scaled_mag * 100 * 24 > u128::MAX {
            None
        } else if scaled_mag * 100 * 24 * 365 > u128::MAX {
            None
        } else if scaled_mag * 100 * 24 * 365 > i64::MAX {
            None
        } else {
            Some(scaled_mag * 100 * 24 * 365)
        }
    }
}

/// The raw per-period funding rate from the two TWAPs.
fn compute_raw_funding_rate(mid_twap_i64: i64, oracle_price_twap: i64, funding_period: i64) -> (r:
    DriftResult<i64>)
    ensures
        match r {
            Ok(v) => raw_funding_rate_spec(
                mid_twap_i64 as int,
                oracle_price_twap as int,
                funding_period as int,
            ) matches Some(sv) && sv == v as int,
            Err(e) => e == DriftError::MathError && raw_funding_rate_spec(
                mid_twap_i64 as int,
                oracle_price_twap as int,
                funding_period as int,
            ) is None,
        },
{
    // funding period of one hour settles across a one-day window
    let period_floor: i128 = if funding_period as i128 >= ONE_HOUR_I128 {
        funding_period as i128
    } else {
        ONE_HOUR_I128
    };
    let period_adjustment = match safe_div_i128(86400, period_floor) {
        Ok(v) => v,
        Err(e) => {
            return Err(e);
        },
    };
    let price_spread = match safe_sub_i64(mid_twap_i64, oracle_price_twap) {
        Ok(v) => v,
        Err(e) => {
            return Err(e);
        },
    };
    // clamp the divergence to about 3% for the funding computation
    let max_price_spread = match safe_div_i64(oracle_price_twap, 33) {
        Ok(v) => v,
        Err(e) => {
            return Err(e);
        },
    };
    proof {
        crate::safe_math::lemma_tdiv_range(oracle_price_twap as int, 33, 0x8000_0000_0000_0000);
    }
    let neg_max_spread = match safe_sub_i64(0, max_price_spread) {
        Ok(v) => v,
        Err(e) => {
            return Err(e);
        },
    };
    let upper = if price_spread <= max_price_spread {
        price_spread
    } else {
        max_price_spread
    };
    let clamped_price_spread = if neg_max_spread >= upper {
        neg_max_spread
    } else {
        upper
    };
    let scaled_spread = match safe_mul_i128(clamped_price_spread as i128, 1000) {
        Ok(v) => v,
        Err(e) => {
            return Err(e);
        },
    };
    let funding_rate_128 = match safe_div_i128(scaled_spread, period_adjustment) {
        Ok(v) => v,
        Err(e) => {
            return Err(e);
        },
    };
    cast_i128_to_i64(funding_rate_128)
}

/// Annualized funding magnitude in parts per million.
fn compute_apr_magnitude(funding_delta: i128, oracle_price_twap: i64) -> (r: DriftResult<i64>)
    ensures
        match r {
            Ok(v) => apr_magnitude_spec(funding_delta as int, oracle_price_twap as int)
                matches Some(sv) && sv == v as int,
            Err(e) => e == DriftError::MathError && apr_magnitude_spec(
                funding_delta as int,
                oracle_price_twap as int,
            ) is None,
        },
{
    let delta_scaled = match safe_mul_i128(funding_delta, 1000) {
        Ok(v) => v,
        Err(e) => {
            return Err(e);
        },
    };
    let rate_over_oracle = match safe_div_i128(delta_scaled, oracle_price_twap as i128) {
        Ok(v) => v,
        Err(e) => {
            return Err(e);
        },
    };
    let rate_mag: u128 = crate::safe_math::unsigned_abs_i128(rate_over_oracle);
    let m1 = match safe_mul_u128(rate_mag, 100) {
        Ok(v) => v,
        Err(e) => {
            return Err(e);
        },
    };
    let m2 = match safe_mul_u128(m1, 24) {
        Ok(v) => v,
        Err(e) => {
            return Err(e);
        },
    };
    let m3 = match safe_mul_u128(m2, 365) {
        Ok(v) => v,
        Err(e) => {
            return Err(e);
        },
    };
    cast_u128_to_i64(m3)
}

impl PerpMarket {
    #[verifier::rlimit(100)]
    pub fn calculate_funding_rate(&self, oracle_price: i64, oracle_confidence: u64, now_ts: i64)
        -> (r: DriftResult<i64>)
        ensures
            match r {
                Ok(v) => drift_funding_rate_spec(
                    *self,
                    oracle_price as int,
                    oracle_confidence as int,
                    now_ts as int,
                ) == Ok::<int, DriftError>(v as int),
                Err(e) => drift_funding_rate_spec(
                    *self,
                    oracle_price as int,
                    oracle_confidence as int,
                    now_ts as int,
                ) == Err::<int, DriftError>(e),
            },
    {
        let reserve_price = match self.amm.reserve_price() {
            Ok(v) => v,
            Err(e) => {
                return Err(e);
            },
        };
        let sanitize_clamp_denominator = self.get_sanitize_clamp_denominator();
        let oracle_price_twap = match self.amm.calculate_oracle_price_twap(
            reserve_price,
            now_ts,
            oracle_price,
            oracle_confidence,
            sanitize_clamp_denominator,
        ) {
            Ok(v) => v,
            Err(e) => {
                return Err(e);
            },
        };
        let (execution_premium_price, execution_premium_direction): (
            u64,
            Option<PositionDirection>,
        ) = if self.amm.long_spread > self.amm.short_spread {
            let p = match self.amm.ask_price(reserve_price) {
                Ok(v) => v,
                Err(e) => {
                    return Err(e);
                },
            };
            (p, Some(PositionDirection::Long))
        } else if self.amm.long_spread < self.amm.short_spread {
            let p = match self.amm.bid_price(reserve_price) {
                Ok(v) => v,
                Err(e) => {
                    return Err(e);
                },
            };
            (p, Some(PositionDirection::Short))
        } else {
            (reserve_price, None)
        };
        let mid_price_twap = match self.amm.calculate_mark_twap(
            now_ts,
            reserve_price,
            execution_premium_price,
            execution_premium_direction,
            sanitize_clamp_denominator,
        ) {
            Ok(v) => v,
            Err(e) => {
                return Err(e);
            },
        };
        let mid_twap_i64 = match cast_u64_to_i64(mid_price_twap) {
            Ok(v) => v,
            Err(e) => {
                return Err(e);
            },
        };
        let funding_rate = match compute_raw_funding_rate(
            mid_twap_i64,
            oracle_price_twap,
            self.amm.funding_period,
        ) {
            Ok(v) => v,
            Err(e) => {
                return Err(e);
            },
        };
        let (funding_rate_long, funding_rate_short, _uncapped) = match self
            .calculate_funding_rate_long_short(funding_rate as i128) {
            Ok(v) => v,
            Err(e) => {
                return Err(e);
            },
        };
        let funding_delta = if mid_twap_i64 > oracle_price_twap {
            funding_rate_short
        } else {
            funding_rate_long
        };
        let funding_apr = match compute_apr_magnitude(funding_delta, oracle_price_twap) {
            Ok(v) => v,
            Err(e) => {
                return Err(e);
            },
        };
        if mid_twap_i64 > oracle_price_twap {
            Ok(funding_apr)
        } else {
            match safe_sub_i64(0, funding_apr) {
                Ok(v) => Ok(v),
                Err(e) => Err(e),
            }
        }
    }
}

} // verus!

verus! {

/// The raw per-period funding rate is bounded by the spread clamp: its
/// magnitude never exceeds a thousandth-scaled share of the oracle
/// TWAP's 3% band, whatever the mark TWAP was. The rate the
/// profitability cap substitutes afterwards is not covered here.
pub proof fn lemma_raw_funding_rate_bounded(mark_twap: int, oracle_twap: int, period: int)
    ensures
        raw_funding_rate_spec(mark_twap, oracle_twap, period) matches Some(v) ==> iabs(v) <= iabs(
            tdiv(oracle_twap, 33),
        ) * 1000,
{
    match raw_funding_rate_spec(mark_twap, oracle_twap, period) {
        Some(v) => {
            let period_adjustment: int = 86400int / spec_max(3600, period);
            let m = tdiv(oracle_twap, 33);
            let clamped = spec_max(-m, spec_min(mark_twap - oracle_twap, m));
            assert(iabs(clamped) <= iabs(m));
            assert(iabs(clamped * 1000) == iabs(clamped) * 1000) by (nonlinear_arith);
            vstd::arithmetic::div_mod::lemma_div_pos_is_pos(86400, spec_max(3600, period));
            crate::safe_math::lemma_tdiv_range(
                clamped * 1000,
                period_adjustment,
                iabs(clamped) * 1000 + 1,
            );
            vstd::arithmetic::mul::lemma_mul_inequality(iabs(clamped), iabs(m), 1000);
        },
        None => {},
    }
}

} // verus!
