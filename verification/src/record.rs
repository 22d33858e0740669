//! The on-chain funding record: a fixed 77-byte header followed by a
//! dense ring of optional signed data points, 16 bytes per slot.

use vstd::prelude::*;

use crate::address::Address;
use crate::codec::{
    le128_at, le16_at, le32_at, le64_at, lei64_at, read_i64_at, read_u128_at, read_u16_at,
    read_u32_at, read_u64_at, write_i64_at, write_u128_at, write_u16_at, write_u32_at,
    write_u64_at,
};
use crate::errors::{ErrorCode, FundingError, FundingResult, ProgramFault};
use crate::safe_math::{in_i64, tdiv};

verus! {

/// Size of the fixed header in bytes.
pub const HEADER_SIZE: usize = 77;

/// Size of one data-point slot: a tag byte, eight value bytes, and
/// seven bytes of padding. Resizing arithmetic depends on this value.
pub const DATA_POINT_SIZE: usize = 16;

/// The venue a funding record tracks.
#[derive(Clone, Copy, PartialEq, Eq, Structural, Debug)]
pub enum Exchange {
    Drift,
    Mango,
}

impl Exchange {
    /// The single byte persisted for the venue.
    pub fn discriminator(&self) -> (r: u8)
        ensures
            r == self.discriminator_spec(),
    {
        match self {
            Self::Drift => 0,
            Self::Mango => 1,
        }
    }

    pub open spec fn discriminator_spec(&self) -> u8 {
        match self {
            Self::Drift => 0u8,
            Self::Mango => 1u8,
        }
    }
}

impl Default for Exchange {
    fn default() -> (r: Self)
        ensures
            r == Exchange::Drift,
    {
        Self::Drift
    }
}

/// Cadence and ring configuration of a funding record.
#[derive(Clone, Copy, PartialEq, Eq, Structural, Debug)]
pub struct FundingAccountConfig {
    pub update_frequency_secs: u64,
    pub staleness_threshold_secs: u64,
    /// used in the EMA computation:
    /// `(data_point - prev_ema) * 2 / (period + 1) + prev_ema`
    pub period_length: u32,
    pub data_points_count: u16,
}

impl FundingAccountConfig {
    /// The combined validity rule on a configuration.
    pub open spec fn valid(self) -> bool {
        &&& self.update_frequency_secs < self.staleness_threshold_secs
        &&& self.period_length > 0
        &&& self.data_points_count > 1
    }
}

impl Default for FundingAccountConfig {
    fn default() -> (r: Self)
        ensures
            r.update_frequency_secs == 0,
            r.staleness_threshold_secs == 0,
            r.period_length == 0,
            r.data_points_count == 0,
    {
        FundingAccountConfig {
            update_frequency_secs: 0,
            staleness_threshold_secs: 0,
            period_length: 0,
            data_points_count: 0,
        }
    }
}

/// The fixed header of a funding record.
#[derive(Clone, Copy, PartialEq, Eq, Structural, Debug)]
pub struct FundingAccountFixed {
    pub bump: u8,
    pub id: u16,
    pub exchange: Exchange,
    pub market_index: u16,
    pub authority: Address,
    pub last_updated_ts: i64,
    pub config: FundingAccountConfig,
    /// Percentage with 6 implicit decimals: 1000000 is 10.000000%.
    pub funding_ema: Option<i64>,
}

impl Default for FundingAccountFixed {
    fn default() -> (r: Self)
        ensures
            r == FundingAccountFixed::default_spec(),
    {
        FundingAccountFixed {
            bump: 0,
            id: 0,
            exchange: Exchange::Drift,
            market_index: 0,
            authority: Address { lo: 0, hi: 0 },
            last_updated_ts: 0,
            config: FundingAccountConfig {
                update_frequency_secs: 0,
                staleness_threshold_secs: 0,
                period_length: 0,
                data_points_count: 0,
            },
            funding_ema: None,
        }
    }
}

impl FundingAccountFixed {
    pub open spec fn default_spec() -> FundingAccountFixed {
        FundingAccountFixed {
            bump: 0u8,
            id: 0u16,
            exchange: Exchange::Drift,
            market_index: 0u16,
            authority: Address { lo: 0u128, hi: 0u128 },
            last_updated_ts: 0i64,
            config: FundingAccountConfig {
                update_frequency_secs: 0u64,
                staleness_threshold_secs: 0u64,
                period_length: 0u32,
                data_points_count: 0u16,
            },
            funding_ema: None,
        }
    }
}

/// The venue encoded by a tag byte.
pub open spec fn exchange_view(tag: int) -> Option<Exchange> {
    if tag == 0 {
        Some(Exchange::Drift)
    } else if tag == 1 {
        Some(Exchange::Mango)
    } else {
        None
    }
}

/// The header decoded from the first 77 bytes; `None` when the buffer
/// is too short or a tag byte is invalid.
pub open spec fn fixed_view(b: Seq<u8>) -> Option<FundingAccountFixed> {
    if b.len() < HEADER_SIZE {
        None
    } else {
        match exchange_view(b[3] as int) {
            None => None,
            Some(exchange) => {
                let ema: Option<Option<i64>> = if b[68] == 0 {
                    Some(None)
                } else if b[68] == 1 {
                    Some(Some(lei64_at(b, 69) as i64))
                } else {
                    None
                };
                match ema {
                    None => None,
                    Some(funding_ema) => Some(
                        FundingAccountFixed {
                            bump: b[0],
                            id: le16_at(b, 1) as u16,
                            exchange,
                            market_index: le16_at(b, 4) as u16,
                            authority: Address {
                                lo: le128_at(b, 6) as u128,
                                hi: le128_at(b, 22) as u128,
                            },
                            last_updated_ts: lei64_at(b, 38) as i64,
                            config: FundingAccountConfig {
                                update_frequency_secs: le64_at(b, 46) as u64,
                                staleness_threshold_secs: le64_at(b, 54) as u64,
                                period_length: le32_at(b, 62) as u32,
                                data_points_count: le16_at(b, 66) as u16,
                            },
                            funding_ema,
                        },
                    ),
                }
            },
        }
    }
}

/// One data-point slot of the ring region: present when its tag byte
/// is one.
pub open spec fn slot_view(b: Seq<u8>, i: int) -> Option<i64> {
    if b[16 * i] == 1 {
        Some(lei64_at(b, 16 * i + 1) as i64)
    } else {
        None
    }
}

/// All data points of a ring region.
pub open spec fn points_view(b: Seq<u8>) -> Seq<Option<i64>> {
    Seq::new((b.len() / 16) as nat, |i: int| slot_view(b, i))
}

/// Decode the fixed header from account bytes.
pub fn decode_fixed(b: &Vec<u8>) -> (r: FundingResult<FundingAccountFixed>)
    ensures
        match r {
            Ok(f) => fixed_view(b@) == Some(f),
            Err(e) => fixed_view(b@) is None && (e == FundingError::Program(
                ProgramFault::AccountDataTooSmall,
            ) || e == FundingError::Program(ProgramFault::InvalidAccountData)),
        },
{
    if b.len() < HEADER_SIZE {
        return Err(FundingError::Program(ProgramFault::AccountDataTooSmall));
    }
    let exchange = if b[3] == 0 {
        Exchange::Drift
    } else if b[3] == 1 {
        Exchange::Mango
    } else {
        return Err(FundingError::Program(ProgramFault::InvalidAccountData));
    };
    let funding_ema = if b[68] == 0 {
        None
    } else if b[68] == 1 {
        Some(read_i64_at(b, 69))
    } else {
        return Err(FundingError::Program(ProgramFault::InvalidAccountData));
    };
    Ok(
        FundingAccountFixed {
            bump: b[0],
            id: read_u16_at(b, 1),
            exchange,
            market_index: read_u16_at(b, 4),
            authority: Address { lo: read_u128_at(b, 6), hi: read_u128_at(b, 22) },
            last_updated_ts: read_i64_at(b, 38),
            config: FundingAccountConfig {
                update_frequency_secs: read_u64_at(b, 46),
                staleness_threshold_secs: read_u64_at(b, 54),
                period_length: read_u32_at(b, 62),
                data_points_count: read_u16_at(b, 66),
            },
            funding_ema,
        },
    )
}

/// Write the fixed header into the first 77 bytes of a buffer; bytes
/// past the header are left alone.
pub fn encode_fixed_into(b: &mut Vec<u8>, f: &FundingAccountFixed)
    requires
        old(b)@.len() >= HEADER_SIZE,
    ensures
        final(b)@.len() == old(b)@.len(),
        fixed_view(final(b)@) == Some(*f),
        forall|k: int|
            HEADER_SIZE <= k < old(b)@.len() ==> final(b)@[k] == old(b)@[k],
{
    let n = b.len();
    b[0] = f.bump;
    write_u16_at(b, 1, f.id);
    b[3] = f.exchange.discriminator();
    write_u16_at(b, 4, f.market_index);
    write_u128_at(b, 6, f.authority.lo);
    write_u128_at(b, 22, f.authority.hi);
    write_i64_at(b, 38, f.last_updated_ts);
    write_u64_at(b, 46, f.config.update_frequency_secs);
    write_u64_at(b, 54, f.config.staleness_threshold_secs);
    write_u32_at(b, 62, f.config.period_length);
    write_u16_at(b, 66, f.config.data_points_count);
    match f.funding_ema {
        Some(v) => {
            b[68] = 1;
            write_i64_at(b, 69, v);
        },
        None => {
            b[68] = 0;
        },
    }
}

/// A vector of `n` zero bytes.
pub fn zeroed_vec(n: usize) -> (r: Vec<u8>)
    ensures
        r@.len() == n,
        forall|k: int| 0 <= k < n ==> r@[k] == 0u8,
{
    let mut v: Vec<u8> = Vec::new();
    let mut i: usize = 0;
    while i < n
        invariant
            i <= n,
            v@.len() == i,
            forall|k: int| 0 <= k < i ==> v@[k] == 0u8,
        decreases n - i,
    {
        v.push(0);
        i = i + 1;
    }
    v
}

} // verus!

verus! {

/// One EMA step: `(x - prev) * 2 / (period + 1) + prev` with
/// truncating division.
pub open spec fn ema_step(prev: int, x: int, k: int) -> int {
    tdiv((x - prev) * 2, k) + prev
}

pub open spec fn opt_point(p: Option<i64>) -> int {
    match p {
        Some(v) => v as int,
        None => 0,
    }
}

/// The EMA after folding points `0..=j` with smoothing divisor `k`.
pub open spec fn ema_fold(points: Seq<Option<i64>>, j: int, k: int) -> int
    decreases j,
{
    if j <= 0 {
        opt_point(points[0])
    } else {
        ema_step(ema_fold(points, j - 1, k), opt_point(points[j]), k)
    }
}

/// Whether every intermediate value of the EMA fold stays inside the
/// signed 64-bit range, so that the computation never overflows.
pub open spec fn ema_defined(points: Seq<Option<i64>>, j: int, k: int) -> bool
    decreases j,
{
    if j <= 0 {
        true
    } else {
        ema_defined(points, j - 1, k) && {
            let prev = ema_fold(points, j - 1, k);
            let x = opt_point(points[j]);
            &&& in_i64(x - prev)
            &&& in_i64((x - prev) * 2)
            &&& in_i64(ema_step(prev, x, k))
        }
    }
}

/// The in-memory working copy of a funding record: the decoded header
/// and the raw bytes of the data-point region.
pub struct FundingAccountLoader {
    pub fixed: FundingAccountFixed,
    pub dynamic: Vec<u8>,
}

impl FundingAccountLoader {
    /// The data-point region matches the configured ring size.
    pub open spec fn wf(self) -> bool {
        self.dynamic@.len() == 16 * self.fixed.config.data_points_count
    }

    /// The decoded ring.
    pub open spec fn points(self) -> Seq<Option<i64>> {
        points_view(self.dynamic@)
    }

    /// Total account size for a ring of `data_points_count` slots.
    pub fn size(data_points_count: u16) -> (r: usize)
        ensures
            r == HEADER_SIZE + 16 * data_points_count,
    {
        HEADER_SIZE + DATA_POINT_SIZE * data_points_count as usize
    }

    /// Byte range of slot `i` in the data-point region.
    pub fn get_start_and_end_index(i: usize) -> (r: (usize, usize))
        requires
            16 * i + 16 <= usize::MAX,
        ensures
            r.0 == 16 * i,
            r.1 == 16 * i + 16,
    {
        let start_index = i * DATA_POINT_SIZE;
        let end_index = start_index + DATA_POINT_SIZE;
        (start_index, end_index)
    }

    /// Write one data point; a present point writes tag one and its
    /// value, an absent one only clears the tag byte.
    pub fn write_data_point(&mut self, data_point: Option<i64>, i: usize)
        requires
            old(self).wf(),
            i < old(self).fixed.config.data_points_count,
        ensures
            final(self).wf(),
            final(self).fixed == old(self).fixed,
            final(self).points() == old(self).points().update(i as int, data_point),
    {
        let n = self.dynamic.len();
        let start = i * 16;
        match data_point {
            Some(v) => {
                self.dynamic[start] = 1;
                write_i64_at(&mut self.dynamic, start + 1, v);
            },
            None => {
                self.dynamic[start] = 0;
            },
        }
        proof {
            assert forall|j: int| 0 <= j < old(self).points().len() implies #[trigger] self.points()[j]
                == old(self).points().update(i as int, data_point)[j] by {
                if j != i {
                    assert(self.dynamic@[16 * j] == old(self).dynamic@[16 * j]);
                    assert(forall|k: int|
                        16 * j + 1 <= k < 16 * j + 9 ==> self.dynamic@[k] == old(self).dynamic@[k]);
                }
            }
            assert(self.points() =~= old(self).points().update(i as int, data_point));
        }
    }

    /// Read one data point.
    pub fn load_data_point(&self, i: usize) -> (r: Option<i64>)
        requires
            self.wf(),
            i < self.fixed.config.data_points_count,
        ensures
            r == self.points()[i as int],
    {
        let n = self.dynamic.len();
        let start = i * 16;
        if self.dynamic[start] == 1 {
            Some(read_i64_at(&self.dynamic, start + 1))
        } else {
            None
        }
    }

    /// Recompute the EMA over the full ring:
    /// `ema[0] = p[0]; ema[i] = (p[i] - ema[i-1]) * 2 / (period+1) + ema[i-1]`.
    pub fn update_ema(&mut self)
        requires
            old(self).wf(),
            old(self).fixed.config.data_points_count >= 1,
            forall|i: int|
                0 <= i < old(self).fixed.config.data_points_count ==> old(self).points()[i]
                    is Some,
            ema_defined(
                old(self).points(),
                old(self).fixed.config.data_points_count - 1,
                old(self).fixed.config.period_length + 1,
            ),
        ensures
            final(self).wf(),
            final(self).dynamic == old(self).dynamic,
            final(self).fixed == (FundingAccountFixed {
                funding_ema: Some(
                    ema_fold(
                        old(self).points(),
                        old(self).fixed.config.data_points_count - 1,
                        old(self).fixed.config.period_length + 1,
                    ) as i64,
                ),
                ..old(self).fixed
            }),
    {
        let ghost pts = self.points();
        let ghost kg = self.fixed.config.period_length + 1;
        let mut ema: i64 = match self.load_data_point(0) {
            Some(v) => v,
            None => {
                proof {
                    assert(false);
                }
                0
            },
        };
        let k = (self.fixed.config.period_length as i64) + 1;
        let n = self.fixed.config.data_points_count as usize;
        let mut i: usize = 1;
        while i < n
            invariant
                self.wf(),
                self == old(self),
                n == self.fixed.config.data_points_count,
                pts == self.points(),
                kg == self.fixed.config.period_length + 1,
                k == kg,
                1 <= i <= n,
                forall|j: int| 0 <= j < n ==> self.points()[j] is Some,
                ema_defined(pts, n - 1, kg),
                ema == ema_fold(pts, i - 1, kg),
            decreases n - i,
        {
            proof {
                lemma_ema_defined_prefix(pts, n - 1, i as int, kg);
            }
            let data_point = match self.load_data_point(i) {
                Some(v) => v,
                None => {
                    proof {
                        assert(false);
                    }
                    0
                },
            };
            let diff = match crate::safe_math::safe_sub_i64(data_point, ema) {
                Ok(v) => v,
                Err(_) => {
                    proof {
                        assert(false);
                    }
                    0
                },
            };
            let doubled = match crate::safe_math::safe_mul_i64(diff, 2) {
                Ok(v) => v,
                Err(_) => {
                    proof {
                        assert(false);
                    }
                    0
                },
            };
            let quot = match crate::safe_math::safe_div_i64(doubled, k) {
                Ok(v) => v,
                Err(_) => {
                    proof {
                        assert(false);
                    }
                    0
                },
            };
            ema = match crate::safe_math::safe_add_i64(quot, ema) {
                Ok(v) => v,
                Err(_) => {
                    proof {
                        assert(false);
                    }
                    0
                },
            };
            i = i + 1;
        }
        self.fixed.funding_ema = Some(ema);
    }
}

/// Definedness of an EMA fold carries down to every prefix.
pub proof fn lemma_ema_defined_prefix(points: Seq<Option<i64>>, j: int, i: int, k: int)
    requires
        ema_defined(points, j, k),
        0 <= i <= j,
    ensures
        ema_defined(points, i, k),
    decreases j - i,
{
    if i < j {
        lemma_ema_defined_prefix(points, j - 1, i, k);
    }
}

} // verus!

verus! {

/// The occupied slots of a ring form a prefix: nothing sits above a
/// hole.
pub open spec fn ring_packed(points: Seq<Option<i64>>) -> bool {
    forall|i: int, j: int| 0 <= i < j < points.len() && points[j] is Some ==> points[i] is Some
}

/// Index of the first free slot, or the length when the ring is full.
pub open spec fn first_free(points: Seq<Option<i64>>) -> int
    decreases points.len(),
{
    if points.len() == 0 {
        0
    } else if points[0] is None {
        0
    } else {
        1 + first_free(points.drop_first())
    }
}

/// `first_free` marks the boundary: everything below is occupied, and
/// the slot there (if any) is free.
pub proof fn lemma_first_free(points: Seq<Option<i64>>)
    ensures
        0 <= first_free(points) <= points.len(),
        forall|i: int| 0 <= i < first_free(points) ==> points[i] is Some,
        first_free(points) < points.len() ==> points[first_free(points)] is None,
    decreases points.len(),
{
    if points.len() > 0 && points[0] is Some {
        lemma_first_free(points.drop_first());
        assert forall|i: int| 0 <= i < first_free(points) implies points[i] is Some by {
            if i > 0 {
                assert(points.drop_first()[i - 1] is Some);
            }
        }
    }
}

impl FundingAccountLoader {
    /// Append a fresh data point: fill the first free slot, or, when
    /// the ring is full, drop the oldest point, append at the top and
    /// recompute the EMA.
    pub fn update_data_points(&mut self, new_data_point: i64) -> (r: FundingResult<()>)
        requires
            old(self).wf(),
            old(self).fixed.config.data_points_count >= 1,
            (forall|i: int|
                0 <= i < old(self).points().len() ==> old(self).points()[i] is Some)
                ==> ema_defined(
                old(self).points().drop_first().push(Some(new_data_point)),
                old(self).fixed.config.data_points_count - 1,
                old(self).fixed.config.period_length + 1,
            ),
        ensures
            r is Ok,
            final(self).wf(),
            ({
                let pts = old(self).points();
                let ff = first_free(pts);
                if ff < pts.len() {
                    final(self).points() == pts.update(ff, Some(new_data_point))
                        && final(self).fixed == old(self).fixed
                } else {
                    final(self).points() == pts.drop_first().push(Some(new_data_point))
                        && final(self).fixed == (FundingAccountFixed {
                        funding_ema: Some(
                            ema_fold(
                                pts.drop_first().push(Some(new_data_point)),
                                old(self).fixed.config.data_points_count - 1,
                                old(self).fixed.config.period_length + 1,
                            ) as i64,
                        ),
                        ..old(self).fixed
                    })
                }
            }),
    {
        proof {
            lemma_first_free(old(self).points());
        }
        let data_points_count = self.fixed.config.data_points_count as usize;
        let ghost pts = self.points();
        let mut i: usize = 0;
        while i < data_points_count
            invariant
                self == old(self),
                self.wf(),
                pts == self.points(),
                data_points_count == self.fixed.config.data_points_count,
                0 <= i <= data_points_count,
                forall|j: int| 0 <= j < i ==> self.points()[j] is Some,
            decreases data_points_count - i,
        {
            let data_point = self.load_data_point(i);
            if data_point.is_none() {
                proof {
                    assert(first_free(pts) == i as int) by {
                        lemma_first_free(pts);
                        if first_free(pts) < i {
                            assert(pts[first_free(pts)] is Some);
                        }
                    }
                }
                self.write_data_point(Some(new_data_point), i);
                return Ok(());
            }
            i = i + 1;
        }
        proof {
            assert(first_free(pts) == pts.len()) by {
                lemma_first_free(pts);
            }
        }
        // the ring is full: shift every slot down by one
        let mut j: usize = 0;
        while j + 1 < data_points_count
            invariant
                self.wf(),
                self.fixed == old(self).fixed,
                data_points_count == self.fixed.config.data_points_count,
                data_points_count >= 1,
                0 <= j <= data_points_count - 1,
                pts.len() == data_points_count,
                forall|t: int| 0 <= t < j ==> self.points()[t] == pts[t + 1],
                forall|t: int| j <= t < data_points_count ==> self.points()[t] == pts[t],
            decreases data_points_count - j,
        {
            let moved = self.load_data_point(j + 1);
            self.write_data_point(moved, j);
            j = j + 1;
        }
        self.write_data_point(Some(new_data_point), data_points_count - 1);
        proof {
            assert(self.points() =~= pts.drop_first().push(Some(new_data_point)));
            assert(forall|t: int|
                0 <= t < self.points().len() ==> #[trigger] self.points()[t] is Some);
        }
        self.update_ema();
        Ok(())
    }

    /// Start the ring over: clear the EMA, store the fresh point at
    /// slot zero and empty every other slot.
    pub fn reset_data_points_and_write_first(&mut self, data_point: i64) -> (r: FundingResult<()>)
        requires
            old(self).wf(),
            old(self).fixed.config.data_points_count >= 1,
        ensures
            r is Ok,
            final(self).wf(),
            final(self).fixed == (FundingAccountFixed { funding_ema: None, ..old(self).fixed }),
            final(self).points().len() == old(self).points().len(),
            final(self).points()[0] == Some(data_point),
            forall|i: int|
                1 <= i < final(self).points().len() ==> final(self).points()[i] is None,
    {
        self.fixed.funding_ema = None;
        self.write_data_point(Some(data_point), 0);
        let count = self.fixed.config.data_points_count as usize;
        let mut i: usize = 1;
        while i < count
            invariant
                self.wf(),
                count == self.fixed.config.data_points_count,
                count >= 1,
                self.fixed == (FundingAccountFixed { funding_ema: None, ..old(self).fixed }),
                1 <= i <= count,
                self.points().len() == old(self).points().len(),
                self.points()[0] == Some(data_point),
                forall|j: int| 1 <= j < i ==> self.points()[j] is None,
            decreases count - i,
        {
            self.write_data_point(None, i);
            i = i + 1;
        }
        Ok(())
    }
}

} // verus!

verus! {

/// The address that owns funding records.
pub open spec fn funding_program_id_spec() -> Address {
    Address { lo: 0x55590dfd133a0b938ff2d9a54a7ab3dbu128, hi: 0xb4ec758b7c4ee579657c057381051af8u128 }
}

/// The address of the funding program itself.
pub fn funding_program_id() -> (r: Address)
    ensures
        r == funding_program_id_spec(),
{
    Address { lo: 0x55590dfd133a0b938ff2d9a54a7ab3db, hi: 0xb4ec758b7c4ee579657c057381051af8 }
}

/// The seed namespace of funding records.
pub open spec fn namespace_seed() -> Seq<u8> {
    seq![102u8, 117u8, 110u8, 100u8, 105u8, 110u8, 103u8]
}

/// The seed list of a funding record: the namespace, the tenant id,
/// the market index, and the venue discriminant, all little-endian.
pub open spec fn funding_seeds_spec(id: u16, market_index: u16, disc: u8) -> Seq<Seq<u8>> {
    seq![
        namespace_seed(),
        seq![(id % 0x100) as u8, (id / 0x100) as u8],
        seq![(market_index % 0x100) as u8, (market_index / 0x100) as u8],
        seq![disc],
    ]
}

/// Build the funding-record seed list.
pub fn funding_seeds(id: u16, market_index: u16, exchange: &Exchange) -> (r: Vec<Vec<u8>>)
    ensures
        r@.map_values(|s: Vec<u8>| s@) == funding_seeds_spec(
            id,
            market_index,
            exchange.discriminator_spec(),
        ),
{
    let mut namespace: Vec<u8> = Vec::new();
    namespace.push(102);
    namespace.push(117);
    namespace.push(110);
    namespace.push(100);
    namespace.push(105);
    namespace.push(110);
    namespace.push(103);
    let mut id_bytes: Vec<u8> = Vec::new();
    id_bytes.push((id % 0x100) as u8);
    id_bytes.push((id / 0x100) as u8);
    let mut market_bytes: Vec<u8> = Vec::new();
    market_bytes.push((market_index % 0x100) as u8);
    market_bytes.push((market_index / 0x100) as u8);
    let mut disc_bytes: Vec<u8> = Vec::new();
    disc_bytes.push(exchange.discriminator());
    let mut seeds: Vec<Vec<u8>> = Vec::new();
    seeds.push(namespace);
    seeds.push(id_bytes);
    seeds.push(market_bytes);
    seeds.push(disc_bytes);
    proof {
        let m = seeds@.map_values(|s: Vec<u8>| s@);
        assert(m.len() == 4);
        assert(m[0] =~= namespace_seed());
        assert(m[1] =~= seq![(id % 0x100) as u8, (id / 0x100) as u8]);
        assert(m[2] =~= seq![(market_index % 0x100) as u8, (market_index / 0x100) as u8]);
        assert(m[3] =~= seq![exchange.discriminator_spec()]);
        assert(m =~~= funding_seeds_spec(id, market_index, exchange.discriminator_spec()));
    }
    seeds
}

/// An account as the program sees it: address, balance, owner, data
/// and the signer and writability flags of this instruction.
pub struct ChainAccount {
    pub key: Address,
    pub lamports: u64,
    pub owner: Address,
    pub data: Vec<u8>,
    pub is_signer: bool,
    pub is_writable: bool,
}

impl FundingAccountLoader {
    /// Derive the record's program address and canonical bump for a
    /// tenant, market and venue.
    pub fn pda(id: u16, market_index: u16, exchange: &Exchange) -> (r: Option<(Address, u8)>)
        ensures
            r matches Some(p) ==> crate::pda::canonical_bump(
                funding_seeds_spec(id, market_index, exchange.discriminator_spec()),
                funding_program_id_spec(),
                p.1,
            ) && crate::pda::pda_create(
                funding_seeds_spec(id, market_index, exchange.discriminator_spec()).push(
                    seq![p.1],
                ),
                funding_program_id_spec(),
            ) == Some(p.0),
            r is None ==> forall|b: u8|
                1 <= b ==> crate::pda::pda_create(
                    funding_seeds_spec(id, market_index, exchange.discriminator_spec()).push(
                        seq![b],
                    ),
                    funding_program_id_spec(),
                ) is None,
    {
        let seeds = funding_seeds(id, market_index, exchange);
        let pid = funding_program_id();
        crate::pda::try_find_program_address(&seeds, &pid)
    }

    /// Deriving a record address and bump and then re-deriving from the
    /// same seeds plus that bump reproduces the same address. Returns
    /// `None` only if no bump exists at all.
    pub fn pda_round_trip(id: u16, market_index: u16, exchange: &Exchange) -> (r: Option<bool>)
        ensures
            r matches Some(b) ==> b,
    {
        match Self::pda(id, market_index, exchange) {
            None => None,
            Some((address, bump)) => {
                let mut seeds = funding_seeds(id, market_index, exchange);
                let mut bump_bytes: Vec<u8> = Vec::new();
                bump_bytes.push(bump);
                seeds.push(bump_bytes);
                let pid = funding_program_id();
                proof {
                    assert(seeds@.map_values(|s: Vec<u8>| s@) =~= funding_seeds_spec(
                        id,
                        market_index,
                        exchange.discriminator_spec(),
                    ).push(seq![bump]));
                }
                match crate::pda::create_program_address(&seeds, &pid) {
                    Some(derived) => Some(derived == address),
                    None => Some(false),
                }
            },
        }
    }

    /// The stored bump is the canonical one, and the record's seeds
    /// plus that bump derive exactly the account's address.
    pub open spec fn derives_key(f: FundingAccountFixed, key: Address) -> bool {
        &&& crate::pda::canonical_bump(
            funding_seeds_spec(f.id, f.market_index, f.exchange.discriminator_spec()),
            funding_program_id_spec(),
            f.bump,
        )
        &&& crate::pda::pda_create(
            funding_seeds_spec(f.id, f.market_index, f.exchange.discriminator_spec()).push(
                seq![f.bump],
            ),
            funding_program_id_spec(),
        ) == Some(key)
    }

    /// A fully valid funding record held by `authority`: writable,
    /// owned by this program, sized to its ring, at its canonically
    /// derived address.
    pub open spec fn valid_record(account: ChainAccount, authority: Address) -> bool {
        &&& account.is_writable
        &&& account.owner == funding_program_id_spec()
        &&& (fixed_view(account.data@) matches Some(f) && {
            &&& account.data@.len() == HEADER_SIZE + 16 * f.config.data_points_count
            &&& FundingAccountLoader::derives_key(f, account.key)
            &&& f.authority == authority
        })
    }

    /// Load and fully validate a funding record from an account: the
    /// account must be writable, owned by this program, sized to its
    /// ring, at its derived address with the stored bump, and held by
    /// the given authority.
    pub fn try_load(account: &ChainAccount, authority: &Address) -> (r: FundingResult<
        FundingAccountLoader,
    >)
        ensures
            match r {
                Ok(loader) => {
                    &&& FundingAccountLoader::valid_record(*account, *authority)
                    &&& loader.wf()
                    &&& fixed_view(account.data@) == Some(loader.fixed)
                    &&& loader.dynamic@ == account.data@.skip(HEADER_SIZE as int)
                },
                Err(e) => {
                    &&& !FundingAccountLoader::valid_record(*account, *authority)
                    &&& (!account.is_writable ==> e == FundingError::Funding(
                        ErrorCode::AccountsNeedToBeWritable,
                    ))
                    &&& (account.is_writable && account.owner != funding_program_id_spec()
                        ==> e == FundingError::Funding(ErrorCode::InvalidAccount))
                    &&& (account.is_writable && account.owner == funding_program_id_spec()
                        && account.data@.len() < HEADER_SIZE ==> e == FundingError::Program(
                        ProgramFault::AccountDataTooSmall,
                    ))
                    &&& (e == FundingError::Funding(ErrorCode::MissingOrInvalidAuthority)
                        ==> (fixed_view(account.data@) matches Some(f) && f.authority
                        != *authority))
                    &&& (e == FundingError::Funding(ErrorCode::AccountsNeedToBeWritable) || e
                        == FundingError::Funding(ErrorCode::InvalidAccount) || e
                        == FundingError::Program(ProgramFault::AccountDataTooSmall) || e
                        == FundingError::Program(ProgramFault::InvalidAccountData) || e
                        == FundingError::Funding(ErrorCode::MissingOrInvalidAuthority))
                },
            },
            r is Ok <==> FundingAccountLoader::valid_record(*account, *authority),
    {
        if !account.is_writable {
            return Err(FundingError::Funding(ErrorCode::AccountsNeedToBeWritable));
        }
        let pid = funding_program_id();
        if !(account.owner == pid) {
            return Err(FundingError::Funding(ErrorCode::InvalidAccount));
        }
        if account.data.len() < HEADER_SIZE {
            return Err(FundingError::Program(ProgramFault::AccountDataTooSmall));
        }
        let fixed = match decode_fixed(&account.data) {
            Ok(f) => f,
            Err(e) => {
                return Err(e);
            },
        };
        let dynamic_len = account.data.len() - HEADER_SIZE;
        if dynamic_len != DATA_POINT_SIZE * (fixed.config.data_points_count as usize) {
            return Err(FundingError::Program(ProgramFault::InvalidAccountData));
        }
        let derived = match Self::pda(fixed.id, fixed.market_index, &fixed.exchange) {
            Some(p) => p,
            None => {
                proof {
                    // no bump derives at all, so the stored bump cannot
                    if FundingAccountLoader::valid_record(*account, *authority) {
                        assert(crate::pda::pda_create(
                            funding_seeds_spec(
                                fixed.id,
                                fixed.market_index,
                                fixed.exchange.discriminator_spec(),
                            ).push(seq![fixed.bump]),
                            funding_program_id_spec(),
                        ) is None);
                    }
                }
                return Err(FundingError::Program(ProgramFault::InvalidAccountData));
            },
        };
        if !(account.key == derived.0) || fixed.bump != derived.1 {
            proof {
                // a canonical stored bump would have to be the found one
                if FundingAccountLoader::valid_record(*account, *authority) {
                    crate::pda::lemma_canonical_bump_unique(
                        funding_seeds_spec(
                            fixed.id,
                            fixed.market_index,
                            fixed.exchange.discriminator_spec(),
                        ),
                        funding_program_id_spec(),
                        fixed.bump,
                        derived.1,
                    );
                }
            }
            return Err(FundingError::Program(ProgramFault::InvalidAccountData));
        }
        if !(fixed.authority == *authority) {
            return Err(FundingError::Funding(ErrorCode::MissingOrInvalidAuthority));
        }
        let mut dynamic: Vec<u8> = Vec::new();
        let mut i: usize = HEADER_SIZE;
        let total = account.data.len();
        while i < total
            invariant
                HEADER_SIZE <= i <= total,
                total == account.data@.len(),
                dynamic@ == account.data@.subrange(HEADER_SIZE as int, i as int),
            decreases total - i,
        {
            dynamic.push(account.data[i]);
            i = i + 1;
        }
        proof {
            assert(dynamic@ =~= account.data@.skip(HEADER_SIZE as int));
        }
        Ok(FundingAccountLoader { fixed, dynamic })
    }

    /// Write the record back into account data: the header bytes and
    /// the data-point region.
    pub fn save(&self, data: &mut Vec<u8>)
        requires
            old(data)@.len() == HEADER_SIZE + self.dynamic@.len(),
        ensures
            final(data)@.len() == old(data)@.len(),
            fixed_view(final(data)@) == Some(self.fixed),
            final(data)@.skip(HEADER_SIZE as int) == self.dynamic@,
    {
        encode_fixed_into(data, &self.fixed);
        let n = self.dynamic.len();
        let total = data.len();
        let mut i: usize = 0;
        while i < n
            invariant
                0 <= i <= n,
                n == self.dynamic@.len(),
                total == data@.len(),
                data@.len() == HEADER_SIZE + n,
                fixed_view(data@) == Some(self.fixed),
                forall|k: int|
                    0 <= k < i ==> data@[HEADER_SIZE + k] == self.dynamic@[k],
            decreases n - i,
        {
            let ghost before = data@;
            let b = self.dynamic[i];
            data[HEADER_SIZE + i] = b;
            proof {
                lemma_fixed_view_depends_on_header(before, data@);
            }
            i = i + 1;
        }
        proof {
            assert(final(data)@.skip(HEADER_SIZE as int) =~= self.dynamic@);
        }
    }
}

/// The header view reads only the first 77 bytes.
pub proof fn lemma_fixed_view_depends_on_header(a: Seq<u8>, b: Seq<u8>)
    requires
        a.len() >= HEADER_SIZE,
        b.len() >= HEADER_SIZE,
        forall|k: int| 0 <= k < HEADER_SIZE ==> a[k] == b[k],
    ensures
        fixed_view(a) == fixed_view(b),
{
    assert(a[0] == b[0] && a[3] == b[3] && a[68] == b[68]);
    assert(le16_at(a, 1) == le16_at(b, 1));
    assert(le16_at(a, 4) == le16_at(b, 4));
    assert(le128_at(a, 6) == le128_at(b, 6));
    assert(le128_at(a, 22) == le128_at(b, 22));
    assert(lei64_at(a, 38) == lei64_at(b, 38));
    assert(le64_at(a, 46) == le64_at(b, 46));
    assert(le64_at(a, 54) == le64_at(b, 54));
    assert(le32_at(a, 62) == le32_at(b, 62));
    assert(le16_at(a, 66) == le16_at(b, 66));
    assert(lei64_at(a, 69) == lei64_at(b, 69));
}

} // verus!

verus! {

/// Appending into the first free slot keeps the ring packed, and the
/// fresh point sits at the highest occupied slot: everything below is
/// occupied, everything above is free.
pub proof fn lemma_ring_update_packed(points: Seq<Option<i64>>, v: i64)
    requires
        ring_packed(points),
        first_free(points) < points.len(),
    ensures
        ring_packed(points.update(first_free(points), Some(v))),
        points.update(first_free(points), Some(v))[first_free(points)] == Some(v),
        forall|k: int|
            first_free(points) < k < points.len() ==> points.update(
                first_free(points),
                Some(v),
            )[k] is None,
        forall|k: int|
            0 <= k <= first_free(points) ==> points.update(first_free(points), Some(v))[k]
                is Some,
{
    lemma_first_free(points);
    let ff = first_free(points);
    let updated = points.update(ff, Some(v));
    assert forall|k: int| ff < k < points.len() implies updated[k] is None by {
        if points[k] is Some {
            assert(points[ff] is Some);
        }
    }
}

} // verus!
