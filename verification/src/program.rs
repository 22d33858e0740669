//! Instruction parsing and the five operations of the funding program,
//! over a plain model of the accounts each instruction touches.

use vstd::prelude::*;

use crate::address::Address;
use crate::codec::{le16_at, le32_at, le64_at, lei64_at, le128_at, write_u16_at, write_u32_at,
    write_u64_at, write_i64_at, write_u128_at};
use crate::errors::{ErrorCode, FundingError, FundingResult, ProgramFault};
use crate::record::{
    decode_fixed, ema_defined, ema_fold, encode_fixed_into, fixed_view, funding_program_id,
    funding_program_id_spec, points_view, zeroed_vec, ChainAccount, Exchange, FundingAccountConfig,
    FundingAccountFixed, FundingAccountLoader, DATA_POINT_SIZE, HEADER_SIZE,
};

verus! {

/// A decoded instruction of the funding program.
#[derive(Clone, Copy, PartialEq, Eq, Structural, Debug)]
pub enum InstructionData {
    InitializeFundingAccount {
        id: u16,
        exchange: Exchange,
        market_index: u16,
        update_frequency_secs: u64,
        staleness_threshold_secs: u64,
        period_length: u32,
        data_points_count: u16,
    },
    ConfigureFundingAccount {
        update_frequency_secs: Option<u64>,
        staleness_threshold_secs: Option<u64>,
        period_length: Option<u32>,
        data_points_count: Option<u16>,
    },
    ConfigureFundingAccountAuthority {
        authority: Address,
    },
    UpdateFundingData {
        data_point: i64,
    },
    CloseFundingAccount,
}

/// Decoded optional field with its size: presence byte then payload.
pub open spec fn opt_u64_view(b: Seq<u8>, off: int) -> Option<(Option<u64>, int)> {
    if off >= b.len() {
        None
    } else if b[off] == 0 {
        Some((None, off + 1))
    } else if b[off] == 1 && off + 9 <= b.len() {
        Some((Some(le64_at(b, off + 1) as u64), off + 9))
    } else {
        None
    }
}

pub open spec fn opt_u32_view(b: Seq<u8>, off: int) -> Option<(Option<u32>, int)> {
    if off >= b.len() {
        None
    } else if b[off] == 0 {
        Some((None, off + 1))
    } else if b[off] == 1 && off + 5 <= b.len() {
        Some((Some(le32_at(b, off + 1) as u32), off + 5))
    } else {
        None
    }
}

pub open spec fn opt_u16_view(b: Seq<u8>, off: int) -> Option<(Option<u16>, int)> {
    if off >= b.len() {
        None
    } else if b[off] == 0 {
        Some((None, off + 1))
    } else if b[off] == 1 && off + 3 <= b.len() {
        Some((Some(le16_at(b, off + 1) as u16), off + 3))
    } else {
        None
    }
}

/// The instruction encoded in a byte string: a one-byte variant tag
/// followed by the variant's little-endian payload. Trailing bytes
/// are ignored: a streaming decoder leaves unread input behind.
pub open spec fn instruction_view(b: Seq<u8>) -> Option<InstructionData> {
    if b.len() < 1 {
        None
    } else if b[0] == 0 {
        if b.len() < 28 {
            None
        } else {
            match crate::record::exchange_view(b[3] as int) {
                None => None,
                Some(exchange) => Some(
                    InstructionData::InitializeFundingAccount {
                        id: le16_at(b, 1) as u16,
                        exchange,
                        market_index: le16_at(b, 4) as u16,
                        update_frequency_secs: le64_at(b, 6) as u64,
                        staleness_threshold_secs: le64_at(b, 14) as u64,
                        period_length: le32_at(b, 22) as u32,
                        data_points_count: le16_at(b, 26) as u16,
                    },
                ),
            }
        }
    } else if b[0] == 1 {
        match opt_u64_view(b, 1) {
            None => None,
            Some((update_frequency_secs, o1)) => match opt_u64_view(b, o1) {
                None => None,
                Some((staleness_threshold_secs, o2)) => match opt_u32_view(b, o2) {
                    None => None,
                    Some((period_length, o3)) => match opt_u16_view(b, o3) {
                        None => None,
                        Some((data_points_count, _)) => Some(
                            InstructionData::ConfigureFundingAccount {
                                update_frequency_secs,
                                staleness_threshold_secs,
                                period_length,
                                data_points_count,
                            },
                        ),
                    },
                },
            },
        }
    } else if b[0] == 2 {
        if b.len() < 33 {
            None
        } else {
            Some(
                InstructionData::ConfigureFundingAccountAuthority {
                    authority: Address {
                        lo: le128_at(b, 1) as u128,
                        hi: le128_at(b, 17) as u128,
                    },
                },
            )
        }
    } else if b[0] == 3 {
        if b.len() < 9 {
            None
        } else {
            Some(InstructionData::UpdateFundingData { data_point: lei64_at(b, 1) as i64 })
        }
    } else if b[0] == 4 {
        Some(InstructionData::CloseFundingAccount)
    } else {
        None
    }
}

/// Parse instruction bytes; rejects an empty buffer, an unknown tag or
/// a truncated payload with `InvalidInstructionData`.
pub fn parse_instruction(b: &Vec<u8>) -> (r: FundingResult<InstructionData>)
    ensures
        match r {
            Ok(ix) => instruction_view(b@) == Some(ix),
            Err(e) => instruction_view(b@) is None && e == FundingError::Program(
                ProgramFault::InvalidInstructionData,
            ),
        },
{
    let n = b.len();
    if n < 1 {
        return Err(FundingError::Program(ProgramFault::InvalidInstructionData));
    }
    if b[0] == 0 {
        if n < 28 {
            return Err(FundingError::Program(ProgramFault::InvalidInstructionData));
        }
        let exchange = if b[3] == 0 {
            Exchange::Drift
        } else if b[3] == 1 {
            Exchange::Mango
        } else {
            return Err(FundingError::Program(ProgramFault::InvalidInstructionData));
        };
        Ok(
            InstructionData::InitializeFundingAccount {
                id: crate::codec::read_u16_at(b, 1),
                exchange,
                market_index: crate::codec::read_u16_at(b, 4),
                update_frequency_secs: crate::codec::read_u64_at(b, 6),
                staleness_threshold_secs: crate::codec::read_u64_at(b, 14),
                period_length: crate::codec::read_u32_at(b, 22),
                data_points_count: crate::codec::read_u16_at(b, 26),
            },
        )
    } else if b[0] == 1 {
        let mut off: usize = 1;
        let update_frequency_secs: Option<u64> = if off >= n {
            return Err(FundingError::Program(ProgramFault::InvalidInstructionData));
        } else if b[off] == 0 {
            off = off + 1;
            None
        } else if b[off] == 1 && off + 9 <= n {
            let v = crate::codec::read_u64_at(b, off + 1);
            off = off + 9;
            Some(v)
        } else {
            return Err(FundingError::Program(ProgramFault::InvalidInstructionData));
        };
        let staleness_threshold_secs: Option<u64> = if off >= n {
            return Err(FundingError::Program(ProgramFault::InvalidInstructionData));
        } else if b[off] == 0 {
            off = off + 1;
            None
        } else if b[off] == 1 && off + 9 <= n {
            let v = crate::codec::read_u64_at(b, off + 1);
            off = off + 9;
            Some(v)
        } else {
            return Err(FundingError::Program(ProgramFault::InvalidInstructionData));
        };
        let period_length: Option<u32> = if off >= n {
            return Err(FundingError::Program(ProgramFault::InvalidInstructionData));
        } else if b[off] == 0 {
            off = off + 1;
            None
        } else if b[off] == 1 && off + 5 <= n {
            let v = crate::codec::read_u32_at(b, off + 1);
            off = off + 5;
            Some(v)
        } else {
            return Err(FundingError::Program(ProgramFault::InvalidInstructionData));
        };
        let data_points_count: Option<u16> = if off >= n {
            return Err(FundingError::Program(ProgramFault::InvalidInstructionData));
        } else if b[off] == 0 {
            None
        } else if b[off] == 1 && off + 3 <= n {
            Some(crate::codec::read_u16_at(b, off + 1))
        } else {
            return Err(FundingError::Program(ProgramFault::InvalidInstructionData));
        };
        Ok(
            InstructionData::ConfigureFundingAccount {
                update_frequency_secs,
                staleness_threshold_secs,
                period_length,
                data_points_count,
            },
        )
    } else if b[0] == 2 {
        if n < 33 {
            return Err(FundingError::Program(ProgramFault::InvalidInstructionData));
        }
        Ok(
            InstructionData::ConfigureFundingAccountAuthority {
                authority: Address {
                    lo: crate::codec::read_u128_at(b, 1),
                    hi: crate::codec::read_u128_at(b, 17),
                },
            },
        )
    } else if b[0] == 3 {
        if n < 9 {
            return Err(FundingError::Program(ProgramFault::InvalidInstructionData));
        }
        Ok(InstructionData::UpdateFundingData { data_point: crate::codec::read_i64_at(b, 1) })
    } else if b[0] == 4 {
        Ok(InstructionData::CloseFundingAccount)
    } else {
        Err(FundingError::Program(ProgramFault::InvalidInstructionData))
    }
}

} // verus!

verus! {


/// Append an optional 64-bit field: a presence byte, then the value.
fn push_opt_u64(b: &mut Vec<u8>, v: &Option<u64>)
    ensures
        final(b)@.len() > old(b)@.len(),
        final(b)@.subrange(0, old(b)@.len() as int) == old(b)@,
        opt_u64_view(final(b)@, old(b)@.len() as int) == Some(
            (*v, final(b)@.len() as int),
        ),
{
    let ghost off = b@.len() as int;
    match v {
        Some(x) => {
            b.push(1);
            let mut body = zeroed_vec(8);
            write_u64_at(&mut body, 0, *x);
            let mut i: usize = 0;
            while i < 8
                invariant
                    off == old(b)@.len(),
                    0 <= i <= 8,
                    body@.len() == 8,
                    le64_at(body@, 0) == *x,
                    b@.len() == off + 1 + i,
                    b@.subrange(0, off) =~= old(b)@,
                    b@[off] == 1u8,
                    forall|k: int| 0 <= k < i ==> b@[off + 1 + k] == body@[k],
                decreases 8 - i,
            {
                let ghost prev = b@;
                let byte = body[i];
                b.push(byte);
                proof {
                    assert forall|k: int| 0 <= k < off implies b@[k] == old(b)@[k] by {
                        assert(prev.subrange(0, off)[k] == old(b)@[k]);
                    }
                    assert(b@.subrange(0, off) =~= old(b)@);
                    assert(b@[off] == prev[off]);
                }
                i = i + 1;
            }
            proof {
                assert(le64_at(b@, off + 1) == le64_at(body@, 0));
                assert(b@.subrange(0, old(b)@.len() as int) =~= old(b)@);
            }
        },
        None => {
            b.push(0);
            proof {
                assert(b@.subrange(0, old(b)@.len() as int) =~= old(b)@);
            }
        },
    }
}

/// Append an optional 32-bit field.
fn push_opt_u32(b: &mut Vec<u8>, v: &Option<u32>)
    ensures
        final(b)@.len() > old(b)@.len(),
        final(b)@.subrange(0, old(b)@.len() as int) == old(b)@,
        opt_u32_view(final(b)@, old(b)@.len() as int) == Some(
            (*v, final(b)@.len() as int),
        ),
{
    let ghost off = b@.len() as int;
    match v {
        Some(x) => {
            b.push(1);
            let mut body = zeroed_vec(4);
            write_u32_at(&mut body, 0, *x);
            let mut i: usize = 0;
            while i < 4
                invariant
                    off == old(b)@.len(),
                    0 <= i <= 4,
                    body@.len() == 4,
                    le32_at(body@, 0) == *x,
                    b@.len() == off + 1 + i,
                    b@.subrange(0, off) =~= old(b)@,
                    b@[off] == 1u8,
                    forall|k: int| 0 <= k < i ==> b@[off + 1 + k] == body@[k],
                decreases 4 - i,
            {
                let ghost prev = b@;
                let byte = body[i];
                b.push(byte);
                proof {
                    assert forall|k: int| 0 <= k < off implies b@[k] == old(b)@[k] by {
                        assert(prev.subrange(0, off)[k] == old(b)@[k]);
                    }
                    assert(b@.subrange(0, off) =~= old(b)@);
                    assert(b@[off] == prev[off]);
                }
                i = i + 1;
            }
            proof {
                assert(le32_at(b@, off + 1) == le32_at(body@, 0));
                assert(b@.subrange(0, old(b)@.len() as int) =~= old(b)@);
            }
        },
        None => {
            b.push(0);
            proof {
                assert(b@.subrange(0, old(b)@.len() as int) =~= old(b)@);
            }
        },
    }
}

/// Append an optional 16-bit field.
fn push_opt_u16(b: &mut Vec<u8>, v: &Option<u16>)
    ensures
        final(b)@.len() > old(b)@.len(),
        final(b)@.subrange(0, old(b)@.len() as int) == old(b)@,
        opt_u16_view(final(b)@, old(b)@.len() as int) == Some(
            (*v, final(b)@.len() as int),
        ),
{
    let ghost off = b@.len() as int;
    match v {
        Some(x) => {
            b.push(1);
            let d0 = (*x % 0x100) as u8;
            let d1 = (*x / 0x100) as u8;
            b.push(d0);
            b.push(d1);
            proof {
                assert(b@.subrange(0, old(b)@.len() as int) =~= old(b)@);
            }
        },
        None => {
            b.push(0);
            proof {
                assert(b@.subrange(0, old(b)@.len() as int) =~= old(b)@);
            }
        },
    }
}

/// Encode an instruction into its tagged little-endian byte form.
pub fn encode_instruction(ix: &InstructionData) -> (r: Vec<u8>)
    ensures
        instruction_view(r@) == Some(*ix),
{
    match ix {
        InstructionData::InitializeFundingAccount {
            id,
            exchange,
            market_index,
            update_frequency_secs,
            staleness_threshold_secs,
            period_length,
            data_points_count,
        } => {
            let mut b = zeroed_vec(28);
            b[0] = 0;
            write_u16_at(&mut b, 1, *id);
            b[3] = exchange.discriminator();
            write_u16_at(&mut b, 4, *market_index);
            write_u64_at(&mut b, 6, *update_frequency_secs);
            write_u64_at(&mut b, 14, *staleness_threshold_secs);
            write_u32_at(&mut b, 22, *period_length);
            write_u16_at(&mut b, 26, *data_points_count);
            b
        },
        InstructionData::ConfigureFundingAccount {
            update_frequency_secs,
            staleness_threshold_secs,
            period_length,
            data_points_count,
        } => {
            let mut b: Vec<u8> = Vec::new();
            b.push(1);
            let ghost b0 = b@;
            push_opt_u64(&mut b, update_frequency_secs);
            let ghost b1 = b@;
            let ghost o1 = b@.len() as int;
            push_opt_u64(&mut b, staleness_threshold_secs);
            let ghost b2 = b@;
            let ghost o2 = b@.len() as int;
            push_opt_u32(&mut b, period_length);
            let ghost b3 = b@;
            let ghost o3 = b@.len() as int;
            push_opt_u16(&mut b, data_points_count);
            proof {
                let bf = b@;
                assert forall|k: int| 0 <= k < b3.len() implies b3[k] == bf[k] by {
                    assert(bf.subrange(0, b3.len() as int)[k] == b3[k]);
                }
                assert forall|k: int| 0 <= k < b2.len() implies b2[k] == bf[k] by {
                    assert(b3.subrange(0, b2.len() as int)[k] == b2[k]);
                }
                assert forall|k: int| 0 <= k < b1.len() implies b1[k] == bf[k] by {
                    assert(b2.subrange(0, b1.len() as int)[k] == b1[k]);
                }
                assert(bf[0] == 1u8) by {
                    assert(b1.subrange(0, b0.len() as int)[0] == b0[0]);
                }
                lemma_opt_u64_view_prefix(b1, bf, 1);
                lemma_opt_u64_view_prefix(b2, bf, o1);
                lemma_opt_u32_view_prefix(b3, bf, o2);
                assert(opt_u16_view(bf, o3) matches Some(p) && p.0 == *data_points_count);
            }
            b
        },
        InstructionData::ConfigureFundingAccountAuthority { authority } => {
            let mut b = zeroed_vec(33);
            b[0] = 2;
            write_u128_at(&mut b, 1, authority.lo);
            write_u128_at(&mut b, 17, authority.hi);
            b
        },
        InstructionData::UpdateFundingData { data_point } => {
            let mut b = zeroed_vec(9);
            b[0] = 3;
            write_i64_at(&mut b, 1, *data_point);
            b
        },
        InstructionData::CloseFundingAccount => {
            let mut b: Vec<u8> = Vec::new();
            b.push(4);
            b
        },
    }
}

/// An optional-field view is stable under appending bytes, as long as
/// the field lies wholly inside the shorter buffer.
pub proof fn lemma_opt_u64_view_prefix(a: Seq<u8>, b: Seq<u8>, off: int)
    requires
        off >= 0,
        a.len() <= b.len(),
        forall|k: int| 0 <= k < a.len() ==> a[k] == b[k],
        opt_u64_view(a, off) matches Some(p) && p.1 <= a.len(),
    ensures
        opt_u64_view(b, off) == opt_u64_view(a, off),
{
    match opt_u64_view(a, off) {
        Some(p) => {
            assert(off < a.len());
            assert(b[off] == a[off]);
            if a[off] == 1 {
                assert(le64_at(a, off + 1) == le64_at(b, off + 1));
            }
        },
        None => {},
    }
}

pub proof fn lemma_opt_u32_view_prefix(a: Seq<u8>, b: Seq<u8>, off: int)
    requires
        off >= 0,
        a.len() <= b.len(),
        forall|k: int| 0 <= k < a.len() ==> a[k] == b[k],
        opt_u32_view(a, off) matches Some(p) && p.1 <= a.len(),
    ensures
        opt_u32_view(b, off) == opt_u32_view(a, off),
{
    match opt_u32_view(a, off) {
        Some(p) => {
            assert(off < a.len());
            assert(b[off] == a[off]);
            if a[off] == 1 {
                assert(le32_at(a, off + 1) == le32_at(b, off + 1));
            }
        },
        None => {},
    }
}

} // verus!

verus! {

/// Rent-exempt minimum balance for an account of `size` bytes under
/// the default rent schedule: two years of rent at 3480 lamports per
/// byte-year, counting a 128-byte account overhead.
pub fn rent_exempt_minimum(size: u64) -> (r: u64)
    requires
        size <= 0x20_0000,
    ensures
        r == (128 + size) * 6960,
{
    (128 + size) * 6960
}

/// The ring region of account data.
pub open spec fn ring_of(data: Seq<u8>) -> Seq<Option<i64>> {
    points_view(data.skip(HEADER_SIZE as int))
}

/// The configuration rules of `Initialize`.
pub open spec fn init_config_valid(
    update_frequency_secs: u64,
    staleness_threshold_secs: u64,
    period_length: u32,
    data_points_count: u16,
) -> bool {
    &&& data_points_count > 1
    &&& update_frequency_secs < staleness_threshold_secs
    &&& period_length > 0
}

/// Rent-exempt balance of a record with `count` ring slots.
pub open spec fn record_rent(count: u16) -> int {
    (128 + (HEADER_SIZE + 16 * count)) * 6960
}

/// Some canonical bump exists for the record's seeds.
pub open spec fn funding_address_derivable(id: u16, market_index: u16, disc: u8) -> bool {
    exists|bump: u8|
        crate::pda::canonical_bump(
            crate::record::funding_seeds_spec(id, market_index, disc),
            funding_program_id_spec(),
            bump,
        )
}

/// The canonical bump of the record's seeds derives exactly `key`.
pub open spec fn funding_address_ok(key: Address, id: u16, market_index: u16, disc: u8) -> bool {
    exists|bump: u8|
        {
            &&& crate::pda::canonical_bump(
                crate::record::funding_seeds_spec(id, market_index, disc),
                funding_program_id_spec(),
                bump,
            )
            &&& crate::pda::pda_create(
                crate::record::funding_seeds_spec(id, market_index, disc).push(seq![bump]),
                funding_program_id_spec(),
            ) == Some(key)
        }
}

/// The whole contract of `Initialize`: what a success changes, which
/// error each rejected input earns, and when success is owed.
pub open spec fn initialize_contract(
    s0: ChainAccount,
    f0: ChainAccount,
    s1: ChainAccount,
    f1: ChainAccount,
    id: u16,
    exchange: Exchange,
    market_index: u16,
    update_frequency_secs: u64,
    staleness_threshold_secs: u64,
    period_length: u32,
    data_points_count: u16,
    r: FundingResult<()>,
) -> bool {
    let disc = exchange.discriminator_spec();
    let address_ok = funding_address_ok(f0.key, id, market_index, disc);
    let config_ok = init_config_valid(
        update_frequency_secs,
        staleness_threshold_secs,
        period_length,
        data_points_count,
    );
    let rent = record_rent(data_points_count);
    let lamports_ok = s0.lamports >= rent && f0.lamports + rent <= u64::MAX;
    &&& match r {
        Ok(_) => initialize_post(
            s0,
            f0,
            s1,
            f1,
            id,
            exchange,
            market_index,
            update_frequency_secs,
            staleness_threshold_secs,
            period_length,
            data_points_count,
        ),
        Err(e) => {
            &&& s1 == s0
            &&& f1 == f0
            &&& (!s0.is_signer <==> e == FundingError::Funding(
                ErrorCode::MissingOrInvalidAuthority,
            ))
            &&& (s0.is_signer && !f0.is_writable <==> e == FundingError::Funding(
                ErrorCode::AccountsNeedToBeWritable,
            ))
            &&& (s0.is_signer && f0.is_writable && !funding_address_derivable(
                id,
                market_index,
                disc,
            ) ==> e == FundingError::Program(ProgramFault::InvalidAccountData))
            &&& (s0.is_signer && f0.is_writable && funding_address_derivable(
                id,
                market_index,
                disc,
            ) && !address_ok ==> e == FundingError::Funding(ErrorCode::InvalidAccount))
            &&& (s0.is_signer && f0.is_writable && address_ok ==> (e == FundingError::Program(
                ProgramFault::InvalidInstructionData,
            ) <==> !config_ok))
            &&& (s0.is_signer && f0.is_writable && address_ok && config_ok ==> e
                == FundingError::Funding(ErrorCode::LamportsOverflow) && !lamports_ok)
        },
    }
    &&& (s0.is_signer && f0.is_writable && address_ok && config_ok && lamports_ok ==> r is Ok)
}

/// What a successful `Initialize` leaves behind: a freshly funded
/// account of the right size at the derived address, with the header
/// populated, no EMA and an empty ring.
pub open spec fn initialize_post(
    signer0: ChainAccount,
    funding0: ChainAccount,
    signer: ChainAccount,
    funding: ChainAccount,
    id: u16,
    exchange: Exchange,
    market_index: u16,
    update_frequency_secs: u64,
    staleness_threshold_secs: u64,
    period_length: u32,
    data_points_count: u16,
) -> bool {
    &&& funding.data@.len() == HEADER_SIZE + 16 * data_points_count
    &&& funding.owner == funding_program_id_spec()
    &&& signer.lamports == signer0.lamports - (128 + (HEADER_SIZE + 16 * data_points_count))
        * 6960
    &&& funding.lamports == funding0.lamports + (128 + (HEADER_SIZE + 16 * data_points_count))
        * 6960
    &&& (fixed_view(funding.data@) matches Some(f) && {
        &&& f.id == id
        &&& f.exchange == exchange
        &&& f.market_index == market_index
        &&& f.authority == signer0.key
        &&& f.last_updated_ts == 0
        &&& f.config == (FundingAccountConfig {
            update_frequency_secs,
            staleness_threshold_secs,
            period_length,
            data_points_count,
        })
        &&& f.funding_ema is None
        &&& crate::pda::pda_create(
            crate::record::funding_seeds_spec(id, market_index, exchange.discriminator_spec()).push(
                seq![f.bump],
            ),
            funding_program_id_spec(),
        ) == Some(funding0.key)
    })
    &&& forall|i: int| 0 <= i < data_points_count ==> ring_of(funding.data@)[i] is None
    &&& data_points_count > 1
    &&& update_frequency_secs < staleness_threshold_secs
    &&& period_length > 0
}

/// Create and populate a funding record: the authority signs and funds
/// the rent-exempt balance; the configuration must be valid and the
/// account must sit at its derived address.
pub fn initialize_funding_account(signer: &mut ChainAccount, funding: &mut ChainAccount, id: u16,
    exchange: Exchange, market_index: u16, update_frequency_secs: u64, staleness_threshold_secs:
    u64, period_length: u32, data_points_count: u16) -> (r: FundingResult<()>)
    ensures
        initialize_contract(
            *old(signer),
            *old(funding),
            *final(signer),
            *final(funding),
            id,
            exchange,
            market_index,
            update_frequency_secs,
            staleness_threshold_secs,
            period_length,
            data_points_count,
            r,
        ),
{
    let ghost disc = exchange.discriminator_spec();
    let ghost seeds = crate::record::funding_seeds_spec(id, market_index, disc);
    let ghost pid = funding_program_id_spec();
    if !signer.is_signer {
        return Err(FundingError::Funding(ErrorCode::MissingOrInvalidAuthority));
    }
    if !funding.is_writable {
        return Err(FundingError::Funding(ErrorCode::AccountsNeedToBeWritable));
    }
    let (address, bump) = match FundingAccountLoader::pda(id, market_index, &exchange) {
        Some(p) => p,
        None => {
            proof {
                // no bump derives at all
                if funding_address_derivable(id, market_index, disc) {
                    let b = choose|b: u8|
                        crate::pda::canonical_bump(seeds, pid, b);
                    assert(crate::pda::pda_create(seeds.push(seq![b]), pid) is None);
                }
            }
            return Err(FundingError::Program(ProgramFault::InvalidAccountData));
        },
    };
    if !(funding.key == address) {
        proof {
            // the canonical bump derives the found address, not this key
            if funding_address_ok(funding.key, id, market_index, disc) {
                let b = choose|b: u8|
                    crate::pda::canonical_bump(seeds, pid, b) && crate::pda::pda_create(
                        seeds.push(seq![b]),
                        pid,
                    ) == Some(funding.key);
                crate::pda::lemma_canonical_bump_unique(seeds, pid, b, bump);
            }
        }
        return Err(FundingError::Funding(ErrorCode::InvalidAccount));
    }
    proof {
        assert(funding_address_ok(funding.key, id, market_index, disc)) by {
            assert(crate::pda::canonical_bump(seeds, pid, bump) && crate::pda::pda_create(
                seeds.push(seq![bump]),
                pid,
            ) == Some(funding.key));
        }
    }
    if data_points_count <= 1 {
        return Err(FundingError::Program(ProgramFault::InvalidInstructionData));
    }
    if update_frequency_secs >= staleness_threshold_secs {
        return Err(FundingError::Program(ProgramFault::InvalidInstructionData));
    }
    if period_length == 0 {
        return Err(FundingError::Program(ProgramFault::InvalidInstructionData));
    }
    let size = FundingAccountLoader::size(data_points_count);
    let lamports = rent_exempt_minimum(size as u64);
    // the system-program transfer that creates the account
    if signer.lamports < lamports {
        return Err(FundingError::Funding(ErrorCode::LamportsOverflow));
    }
    let new_funding_lamports = match funding.lamports.checked_add(lamports) {
        Some(v) => v,
        None => {
            return Err(FundingError::Funding(ErrorCode::LamportsOverflow));
        },
    };
    signer.lamports = signer.lamports - lamports;
    funding.lamports = new_funding_lamports;
    funding.owner = funding_program_id();
    funding.data = zeroed_vec(size);
    let dynamic = zeroed_vec(ring_bytes_len(data_points_count));
    let loader = FundingAccountLoader {
        fixed: FundingAccountFixed {
            bump,
            id,
            exchange,
            market_index,
            authority: signer.key,
            last_updated_ts: 0,
            config: FundingAccountConfig {
                update_frequency_secs,
                staleness_threshold_secs,
                period_length,
                data_points_count,
            },
            funding_ema: None,
        },
        dynamic,
    };
    loader.save(&mut funding.data);
    proof {
        assert forall|i: int| 0 <= i < data_points_count implies ring_of(funding.data@)[i]
            is None by {
            assert(funding.data@.skip(HEADER_SIZE as int)[16 * i] == 0u8);
        }
    }
    Ok(())
}

/// The ring length in bytes.
fn ring_bytes_len(count: u16) -> (r: usize)
    ensures
        r == 16 * count,
{
    DATA_POINT_SIZE * (count as usize)
}

} // verus!

verus! {

/// The merged configuration a `Configure` would apply.
pub open spec fn merged_config(
    prev: FundingAccountConfig,
    update_frequency_secs: Option<u64>,
    staleness_threshold_secs: Option<u64>,
    period_length: Option<u32>,
    data_points_count: Option<u16>,
) -> FundingAccountConfig {
    FundingAccountConfig {
        update_frequency_secs: match update_frequency_secs {
            Some(v) => v,
            None => prev.update_frequency_secs,
        },
        staleness_threshold_secs: match staleness_threshold_secs {
            Some(v) => v,
            None => prev.staleness_threshold_secs,
        },
        period_length: match period_length {
            Some(v) => v,
            None => prev.period_length,
        },
        data_points_count: match data_points_count {
            Some(v) => v,
            None => prev.data_points_count,
        },
    }
}

/// The validity rules `Configure` enforces on its arguments.
pub open spec fn configure_args_valid(
    prev: FundingAccountConfig,
    update_frequency_secs: Option<u64>,
    staleness_threshold_secs: Option<u64>,
    period_length: Option<u32>,
    data_points_count: Option<u16>,
) -> bool {
    let merged = merged_config(
        prev,
        update_frequency_secs,
        staleness_threshold_secs,
        period_length,
        data_points_count,
    );
    &&& merged.update_frequency_secs < merged.staleness_threshold_secs
    &&& period_length != Some(0u32)
    &&& (data_points_count matches Some(n) ==> n > 1)
}

/// The lamport moves a resize needs are possible: the account covers a
/// shrink's refund, the signer covers a growth's top-up, and whoever
/// receives can be credited.
pub open spec fn resize_feasible(s0: ChainAccount, f0: ChainAccount, prev_count: u16, n: u16)
    -> bool {
    let new_rent = record_rent(n);
    if n < prev_count {
        &&& f0.lamports >= new_rent
        &&& (f0.lamports > new_rent ==> s0.is_writable && s0.lamports + (f0.lamports - new_rent)
            <= u64::MAX)
    } else {
        &&& f0.lamports <= new_rent
        &&& (f0.lamports < new_rent ==> s0.is_writable && s0.lamports >= new_rent - f0.lamports)
    }
}

/// The whole contract of `Configure`: what a success changes, which
/// error a rejected input earns, and when success is owed.
pub open spec fn configure_contract(
    s0: ChainAccount,
    f0: ChainAccount,
    s1: ChainAccount,
    f1: ChainAccount,
    update_frequency_secs: Option<u64>,
    staleness_threshold_secs: Option<u64>,
    period_length: Option<u32>,
    data_points_count: Option<u16>,
    r: FundingResult<()>,
) -> bool {
    let loaded = s0.is_signer && FundingAccountLoader::valid_record(f0, s0.key);
    let args_ok = fixed_view(f0.data@) matches Some(prev) && configure_args_valid(
        prev.config,
        update_frequency_secs,
        staleness_threshold_secs,
        period_length,
        data_points_count,
    );
    let moves_ok = fixed_view(f0.data@) matches Some(prev) && match data_points_count {
        None => true,
        Some(n) => resize_feasible(s0, f0, prev.config.data_points_count, n),
    };
    &&& match r {
        Ok(_) => fixed_view(f0.data@) matches Some(prev) && {
            let new_config = merged_config(
                prev.config,
                update_frequency_secs,
                staleness_threshold_secs,
                period_length,
                data_points_count,
            );
            &&& configure_args_valid(
                prev.config,
                update_frequency_secs,
                staleness_threshold_secs,
                period_length,
                data_points_count,
            )
            &&& match data_points_count {
                None => {
                    &&& s1 == s0
                    &&& f1.data@.len() == f0.data@.len()
                    &&& f1.lamports == f0.lamports
                    &&& f1.owner == f0.owner
                    &&& ring_of(f1.data@) == ring_of(f0.data@)
                    &&& (fixed_view(f1.data@) matches Some(f) && f == (FundingAccountFixed {
                        config: new_config,
                        ..prev
                    }))
                },
                Some(new_count) => configure_resize_post(s0, f0, s1, f1, new_config),
            }
        },
        Err(e) => {
            &&& s1 == s0
            &&& f1 == f0
            &&& (!s0.is_signer ==> e == FundingError::Funding(
                ErrorCode::MissingOrInvalidAuthority,
            ))
            &&& (loaded ==> (e == FundingError::Program(ProgramFault::InvalidInstructionData)
                <==> !args_ok))
            &&& (loaded && args_ok && !moves_ok ==> e == FundingError::Funding(
                ErrorCode::AccountsNeedToBeWritable,
            ) || e == FundingError::Funding(ErrorCode::LamportsOverflow))
        },
    }
    &&& (loaded && args_ok && moves_ok ==> r is Ok)
}

/// What a successful `Configure` with a new ring size leaves behind:
/// the account resized and re-rented, the EMA cleared, and the ring
/// cleared on shrink or zero-extended on growth.
pub open spec fn configure_resize_post(
    signer0: ChainAccount,
    funding0: ChainAccount,
    signer: ChainAccount,
    funding: ChainAccount,
    new_config: FundingAccountConfig,
) -> bool {
    let prev = fixed_view(funding0.data@).unwrap();
    let new_count = new_config.data_points_count;
    let new_rent = (128 + (HEADER_SIZE + 16 * new_count)) * 6960;
    &&& funding.data@.len() == HEADER_SIZE + 16 * new_count
    &&& (fixed_view(funding.data@) matches Some(f) && {
        &&& f.config == new_config
        &&& f.funding_ema is None
        &&& f.authority == prev.authority
        &&& f.id == prev.id
        &&& f.market_index == prev.market_index
        &&& f.exchange == prev.exchange
        &&& f.bump == prev.bump
        &&& f.last_updated_ts == (if new_count < prev.config.data_points_count {
            0int
        } else {
            prev.last_updated_ts as int
        })
    })
    &&& (new_count < prev.config.data_points_count ==> {
        // shrink: refund the excess rent and clear the ring
        &&& funding.lamports == new_rent
        &&& signer.lamports == signer0.lamports + (funding0.lamports - new_rent)
        &&& forall|i: int| 0 <= i < new_count ==> ring_of(funding.data@)[i] is None
    })
    &&& (new_count >= prev.config.data_points_count ==> {
        // growth: top up the rent and keep the stored points
        &&& funding.lamports == new_rent
        &&& signer.lamports == signer0.lamports - (new_rent - funding0.lamports)
        &&& forall|i: int|
            0 <= i < prev.config.data_points_count ==> ring_of(funding.data@)[i] == ring_of(
                funding0.data@,
            )[i]
        &&& forall|i: int|
            prev.config.data_points_count <= i < new_count ==> ring_of(funding.data@)[i]
                is None
    })
}

/// Reconfigure cadence, period or ring size; resizing moves exactly
/// the rent difference between the authority and the account.
#[verifier::rlimit(100)]
pub fn configure_funding_account(signer: &mut ChainAccount, funding: &mut ChainAccount,
    update_frequency_secs: Option<u64>, staleness_threshold_secs: Option<u64>, period_length:
    Option<u32>, data_points_count: Option<u16>) -> (r: FundingResult<()>)
    ensures
        configure_contract(
            *old(signer),
            *old(funding),
            *final(signer),
            *final(funding),
            update_frequency_secs,
            staleness_threshold_secs,
            period_length,
            data_points_count,
            r,
        ),
{
    if !signer.is_signer {
        return Err(FundingError::Funding(ErrorCode::MissingOrInvalidAuthority));
    }
    let mut funding_account = match FundingAccountLoader::try_load(funding, &signer.key) {
        Ok(l) => l,
        Err(e) => {
            return Err(e);
        },
    };
    let new_update_freq = match update_frequency_secs {
        Some(v) => v,
        None => funding_account.fixed.config.update_frequency_secs,
    };
    let new_staleness_threshold = match staleness_threshold_secs {
        Some(v) => v,
        None => funding_account.fixed.config.staleness_threshold_secs,
    };
    if new_update_freq >= new_staleness_threshold {
        return Err(FundingError::Program(ProgramFault::InvalidInstructionData));
    }
    if period_length == Some(0u32) {
        return Err(FundingError::Program(ProgramFault::InvalidInstructionData));
    }
    let new_period_length = match period_length {
        Some(v) => v,
        None => funding_account.fixed.config.period_length,
    };
    match data_points_count {
        None => {
            funding_account.fixed.config.update_frequency_secs = new_update_freq;
            funding_account.fixed.config.staleness_threshold_secs = new_staleness_threshold;
            funding_account.fixed.config.period_length = new_period_length;
            funding_account.save(&mut funding.data);
            proof {
                assert(ring_of(funding.data@) =~= ring_of(old(funding).data@));
            }
            Ok(())
        },
        Some(new_count) => {
            if new_count <= 1 {
                return Err(FundingError::Program(ProgramFault::InvalidInstructionData));
            }
            let prev_count = funding_account.fixed.config.data_points_count;
            let new_size = FundingAccountLoader::size(new_count);
            let new_rent = rent_exempt_minimum(new_size as u64);
            let mut new_fixed = funding_account.fixed;
            new_fixed.funding_ema = None;
            new_fixed.config = FundingAccountConfig {
                update_frequency_secs: new_update_freq,
                staleness_threshold_secs: new_staleness_threshold,
                period_length: new_period_length,
                data_points_count: new_count,
            };
            let zero_init: bool = if new_count < prev_count {
                new_fixed.last_updated_ts = 0;
                let remaining_lamports = match funding.lamports.checked_sub(new_rent) {
                    Some(v) => v,
                    None => {
                        return Err(FundingError::Funding(ErrorCode::LamportsOverflow));
                    },
                };
                if remaining_lamports > 0 {
                    if !signer.is_writable {
                        return Err(FundingError::Funding(ErrorCode::AccountsNeedToBeWritable));
                    }
                    let new_signer_lamports = match signer.lamports.checked_add(
                        remaining_lamports,
                    ) {
                        Some(v) => v,
                        None => {
                            return Err(FundingError::Funding(ErrorCode::LamportsOverflow));
                        },
                    };
                    signer.lamports = new_signer_lamports;
                    funding.lamports = funding.lamports - remaining_lamports;
                }
                true
            } else {
                let additional_lamports = match new_rent.checked_sub(funding.lamports) {
                    Some(v) => v,
                    None => {
                        return Err(FundingError::Funding(ErrorCode::LamportsOverflow));
                    },
                };
                if additional_lamports > 0 {
                    if !signer.is_writable {
                        return Err(FundingError::Funding(ErrorCode::AccountsNeedToBeWritable));
                    }
                    if signer.lamports < additional_lamports {
                        return Err(FundingError::Funding(ErrorCode::LamportsOverflow));
                    }
                    signer.lamports = signer.lamports - additional_lamports;
                    funding.lamports = funding.lamports + additional_lamports;
                }
                false
            };
            // reallocate: keep the old points on growth, clear on shrink
            let mut dynamic = zeroed_vec(ring_bytes_len(new_count));
            if !zero_init {
                let keep = funding_account.dynamic.len();
                let mut i: usize = 0;
                while i < keep
                    invariant
                        0 <= i <= keep,
                        keep <= dynamic@.len(),
                        keep == funding_account.dynamic@.len(),
                        dynamic@.len() == 16 * new_count,
                        forall|k: int|
                            0 <= k < i ==> dynamic@[k] == funding_account.dynamic@[k],
                        forall|k: int| i <= k < dynamic@.len() ==> dynamic@[k] == 0u8,
                    decreases keep - i,
                {
                    let byte = funding_account.dynamic[i];
                    dynamic[i] = byte;
                    i = i + 1;
                }
            }
            let new_loader = FundingAccountLoader { fixed: new_fixed, dynamic };
            funding.data = zeroed_vec(new_size);
            new_loader.save(&mut funding.data);
            proof {
                let nd = funding.data@.skip(HEADER_SIZE as int);
                if zero_init {
                    assert forall|i: int| 0 <= i < new_count implies ring_of(funding.data@)[i]
                        is None by {
                        assert(nd[16 * i] == 0u8);
                    }
                } else {
                    let od = old(funding).data@.skip(HEADER_SIZE as int);
                    assert forall|i: int| 0 <= i < prev_count implies ring_of(funding.data@)[i]
                        == ring_of(old(funding).data@)[i] by {
                        assert(nd[16 * i] == od[16 * i]);
                        assert(forall|k: int|
                            16 * i + 1 <= k < 16 * i + 9 ==> nd[k] == od[k]);
                    }
                    assert forall|i: int| prev_count <= i < new_count implies ring_of(
                        funding.data@,
                    )[i] is None by {
                        assert(nd[16 * i] == 0u8);
                    }
                }
            }
            Ok(())
        },
    }
}

/// The whole contract of `ConfigureAuthority`: the authority field is
/// replaced and nothing else moves; success is owed on a valid record.
pub open spec fn authority_contract(
    s0: ChainAccount,
    f0: ChainAccount,
    s1: ChainAccount,
    f1: ChainAccount,
    authority: Address,
    r: FundingResult<()>,
) -> bool {
    let loaded = s0.is_signer && FundingAccountLoader::valid_record(f0, s0.key);
    &&& match r {
        Ok(_) => {
            &&& s1 == s0
            &&& f1.data@.len() == f0.data@.len()
            &&& f1.lamports == f0.lamports
            &&& f1.owner == f0.owner
            &&& ring_of(f1.data@) == ring_of(f0.data@)
            &&& (fixed_view(f0.data@) matches Some(prev) && fixed_view(f1.data@) == Some(
                FundingAccountFixed { authority, ..prev },
            ))
        },
        Err(e) => {
            &&& s1 == s0
            &&& f1 == f0
            &&& (!s0.is_signer ==> e == FundingError::Funding(
                ErrorCode::MissingOrInvalidAuthority,
            ))
        },
    }
    &&& (loaded ==> r is Ok)
}

/// Replace the record's authority; only the current authority may do
/// so.
pub fn configure_funding_account_authority(signer: &mut ChainAccount, funding: &mut ChainAccount,
    authority: Address) -> (r: FundingResult<()>)
    ensures
        authority_contract(
            *old(signer),
            *old(funding),
            *final(signer),
            *final(funding),
            authority,
            r,
        ),
{
    if !signer.is_signer {
        return Err(FundingError::Funding(ErrorCode::MissingOrInvalidAuthority));
    }
    let mut funding_account = match FundingAccountLoader::try_load(funding, &signer.key) {
        Ok(l) => l,
        Err(e) => {
            return Err(e);
        },
    };
    funding_account.fixed.authority = authority;
    funding_account.save(&mut funding.data);
    proof {
        assert(ring_of(funding.data@) =~= ring_of(old(funding).data@));
    }
    Ok(())
}

} // verus!

verus! {

/// Precondition protecting the EMA fold from overflow when an update
/// fills the ring: every intermediate EMA value stays in range.
pub open spec fn update_ema_precondition(data: Seq<u8>, data_point: i64) -> bool {
    match fixed_view(data) {
        Some(f) => {
            let pts = ring_of(data);
            (f.config.data_points_count >= 1 && data.len() == HEADER_SIZE
                + 16 * f.config.data_points_count && (forall|i: int|
                0 <= i < pts.len() ==> pts[i] is Some)) ==> ema_defined(
                pts.drop_first().push(Some(data_point)),
                f.config.data_points_count - 1,
                f.config.period_length + 1,
            )
        },
        None => true,
    }
}

/// What a successful `Update` leaves behind: either a reset ring with
/// the fresh point at slot zero (stale record), or the point appended
/// at the first free slot, or a full shift with the EMA recomputed.
#[verifier::opaque]
pub open spec fn update_post(
    funding0: ChainAccount,
    funding: ChainAccount,
    data_point: i64,
    now_ts: i64,
) -> bool {
    let prev = fixed_view(funding0.data@).unwrap();
    let pts0 = ring_of(funding0.data@);
    let stale = now_ts > prev.last_updated_ts + as_signed64_u(
        prev.config.staleness_threshold_secs,
    );
    &&& funding.lamports == funding0.lamports
    &&& funding.owner == funding0.owner
    &&& funding.data@.len() == funding0.data@.len()
    &&& (fixed_view(funding.data@) matches Some(f) && {
        &&& f.last_updated_ts == now_ts
        &&& f.config == prev.config
        &&& f.authority == prev.authority
        &&& if stale {
            // reset: fresh point at slot zero, everything else cleared
            &&& f.funding_ema is None
            &&& ring_of(funding.data@)[0] == Some(data_point)
            &&& forall|i: int|
                1 <= i < pts0.len() ==> ring_of(funding.data@)[i] is None
        } else {
            let ff = crate::record::first_free(pts0);
            if ff < pts0.len() {
                &&& ring_of(funding.data@) == pts0.update(ff, Some(data_point))
                &&& f.funding_ema == prev.funding_ema
            } else {
                &&& ring_of(funding.data@) == pts0.drop_first().push(Some(data_point))
                &&& f.funding_ema == Some(
                    ema_fold(
                        pts0.drop_first().push(Some(data_point)),
                        prev.config.data_points_count - 1,
                        prev.config.period_length + 1,
                    ) as i64,
                )
            }
        }
    })
}

/// The signed reading of an unsigned 64-bit config value, two's
/// complement, as a plain `as i64` conversion produces it.
pub open spec fn as_signed64_u(v: u64) -> int {
    crate::codec::as_signed64(v as int)
}

/// The whole contract of `Update`: a stale record resets, a timely
/// update appends (recomputing the EMA on a full ring), a premature
/// one fails `UpdateTooSoon`, and success is owed whenever the record
/// is valid and the window arithmetic stays in range.
pub open spec fn update_contract(
    s0: ChainAccount,
    f0: ChainAccount,
    s1: ChainAccount,
    f1: ChainAccount,
    data_point: i64,
    now_ts: i64,
    r: FundingResult<()>,
) -> bool {
    let loaded = s0.is_signer && FundingAccountLoader::valid_record(f0, s0.key);
    let windows = fixed_view(f0.data@) matches Some(prev) && {
        let stale_ts = prev.last_updated_ts + as_signed64_u(prev.config.staleness_threshold_secs);
        &&& prev.config.data_points_count >= 1
        &&& crate::safe_math::in_i64(stale_ts)
        &&& (now_ts <= stale_ts ==> crate::safe_math::in_i64(
            prev.last_updated_ts + as_signed64_u(prev.config.update_frequency_secs),
        ))
    };
    let premature = fixed_view(f0.data@) matches Some(prev) && now_ts <= prev.last_updated_ts
        + as_signed64_u(prev.config.staleness_threshold_secs) && now_ts < prev.last_updated_ts
        + as_signed64_u(prev.config.update_frequency_secs);
    &&& match r {
        Ok(_) => s1 == s0 && update_post(f0, f1, data_point, now_ts),
        Err(e) => {
            &&& s1 == s0
            &&& f1 == f0
            &&& (!s0.is_signer ==> e == FundingError::Funding(
                ErrorCode::MissingOrInvalidAuthority,
            ))
            &&& (e == FundingError::Funding(ErrorCode::UpdateTooSoon) ==> premature)
            &&& (loaded && windows && premature ==> e == FundingError::Funding(
                ErrorCode::UpdateTooSoon,
            ))
        },
    }
    &&& (loaded && windows && !premature ==> r is Ok)
}

/// Record a fresh funding data point. A stale record is reset; an
/// early update fails `UpdateTooSoon`; otherwise the point is appended
/// and, once the ring is full, the EMA is recomputed.
#[verifier::rlimit(100)]
pub fn update_funding(signer: &mut ChainAccount, funding: &mut ChainAccount, data_point: i64,
    now_ts: i64) -> (r: FundingResult<()>)
    requires
        update_ema_precondition(old(funding).data@, data_point),
    ensures
        update_contract(
            *old(signer),
            *old(funding),
            *final(signer),
            *final(funding),
            data_point,
            now_ts,
            r,
        ),
{
    if !signer.is_signer {
        return Err(FundingError::Funding(ErrorCode::MissingOrInvalidAuthority));
    }
    let mut funding_account = match FundingAccountLoader::try_load(funding, &signer.key) {
        Ok(l) => l,
        Err(e) => {
            return Err(e);
        },
    };
    if funding_account.fixed.config.data_points_count == 0 {
        return Err(FundingError::Program(ProgramFault::InvalidAccountData));
    }
    let staleness_i64 = crate::codec::signed_of_u64(
        funding_account.fixed.config.staleness_threshold_secs,
    );
    let stale_ts = match funding_account.fixed.last_updated_ts.checked_add(staleness_i64) {
        Some(v) => v,
        None => {
            return Err(FundingError::Program(ProgramFault::InvalidAccountData));
        },
    };
    if now_ts > stale_ts {
        let _ = funding_account.reset_data_points_and_write_first(data_point);
        funding_account.fixed.last_updated_ts = now_ts;
        funding_account.save(&mut funding.data);
        proof {
            reveal(update_post);
            assert(update_post(*old(funding), *funding, data_point, now_ts));
        }
        return Ok(());
    }
    let frequency_i64 = crate::codec::signed_of_u64(
        funding_account.fixed.config.update_frequency_secs,
    );
    let update_ts = match funding_account.fixed.last_updated_ts.checked_add(frequency_i64) {
        Some(v) => v,
        None => {
            return Err(FundingError::Program(ProgramFault::InvalidAccountData));
        },
    };
    if now_ts < update_ts {
        return Err(FundingError::Funding(ErrorCode::UpdateTooSoon));
    }
    let _ = funding_account.update_data_points(data_point);
    funding_account.fixed.last_updated_ts = now_ts;
    funding_account.save(&mut funding.data);
    proof {
        reveal(update_post);
        assert(update_post(*old(funding), *funding, data_point, now_ts));
    }
    Ok(())
}

/// The whole contract of `Close`: the record is drained to the
/// receiver, zeroed and handed back to the system program; success is
/// owed on a valid record with a writable receiver whose balance can
/// take the credit.
pub open spec fn close_contract(
    s0: ChainAccount,
    f0: ChainAccount,
    r0: ChainAccount,
    s1: ChainAccount,
    f1: ChainAccount,
    r1: ChainAccount,
    r: FundingResult<()>,
) -> bool {
    let loaded = s0.is_signer && FundingAccountLoader::valid_record(f0, s0.key);
    let receiver_ok = r0.is_writable && (r0.key == s0.key ==> s0.is_writable);
    let credit_ok = r0.lamports + f0.lamports <= u64::MAX;
    &&& match r {
        Ok(_) => {
            &&& f1.lamports == 0
            &&& f1.data@.len() == 0
            &&& f1.owner == (Address { lo: 0u128, hi: 0u128 })
            &&& r1.lamports == r0.lamports + f0.lamports
            &&& s1 == s0
        },
        Err(e) => {
            &&& s1 == s0
            &&& f1 == f0
            &&& r1 == r0
            &&& (!s0.is_signer ==> e == FundingError::Funding(
                ErrorCode::MissingOrInvalidAuthority,
            ))
            &&& (loaded && !receiver_ok ==> e == FundingError::Funding(
                ErrorCode::AccountsNeedToBeWritable,
            ))
            &&& (loaded && receiver_ok && !credit_ok ==> e == FundingError::Funding(
                ErrorCode::LamportsOverflow,
            ))
        },
    }
    &&& (loaded && receiver_ok && credit_ok ==> r is Ok)
}

/// Drain the record to a receiver, zero its data and hand the account
/// back to the system program.
pub fn close_funding_account(signer: &mut ChainAccount, funding: &mut ChainAccount, receiver:
    &mut ChainAccount) -> (r: FundingResult<()>)
    ensures
        close_contract(
            *old(signer),
            *old(funding),
            *old(receiver),
            *final(signer),
            *final(funding),
            *final(receiver),
            r,
        ),
{
    if !signer.is_signer {
        return Err(FundingError::Funding(ErrorCode::MissingOrInvalidAuthority));
    }
    let _loaded = match FundingAccountLoader::try_load(funding, &signer.key) {
        Ok(l) => l,
        Err(e) => {
            return Err(e);
        },
    };
    if !receiver.is_writable {
        return Err(FundingError::Funding(ErrorCode::AccountsNeedToBeWritable));
    }
    if receiver.key == signer.key && !signer.is_writable {
        return Err(FundingError::Funding(ErrorCode::AccountsNeedToBeWritable));
    }
    let new_receiver_lamports = match receiver.lamports.checked_add(funding.lamports) {
        Some(v) => v,
        None => {
            return Err(FundingError::Funding(ErrorCode::LamportsOverflow));
        },
    };
    receiver.lamports = new_receiver_lamports;
    funding.lamports = 0;
    funding.data = Vec::new();
    funding.owner = Address::zeroed();
    Ok(())
}

/// Parse the instruction and run the matching operation. The receiver
/// account is read only by `Close`.
pub fn process_instruction(signer: &mut ChainAccount, funding: &mut ChainAccount, receiver:
    &mut ChainAccount, instruction_data: &Vec<u8>, now_ts: i64) -> (r: FundingResult<()>)
    requires
        match instruction_view(instruction_data@) {
            Some(InstructionData::UpdateFundingData { data_point }) => update_ema_precondition(
                old(funding).data@,
                data_point,
            ),
            _ => true,
        },
    ensures
        match instruction_view(instruction_data@) {
            None => r == FundingResult::<()>::Err(
                FundingError::Program(ProgramFault::InvalidInstructionData),
            ) && *final(signer) == *old(signer) && *final(funding) == *old(funding)
                && *final(receiver) == *old(receiver),
            Some(
                InstructionData::InitializeFundingAccount {
                    id,
                    exchange,
                    market_index,
                    update_frequency_secs,
                    staleness_threshold_secs,
                    period_length,
                    data_points_count,
                },
            ) => initialize_contract(
                *old(signer),
                *old(funding),
                *final(signer),
                *final(funding),
                id,
                exchange,
                market_index,
                update_frequency_secs,
                staleness_threshold_secs,
                period_length,
                data_points_count,
                r,
            ) && *final(receiver) == *old(receiver),
            Some(
                InstructionData::ConfigureFundingAccount {
                    update_frequency_secs,
                    staleness_threshold_secs,
                    period_length,
                    data_points_count,
                },
            ) => configure_contract(
                *old(signer),
                *old(funding),
                *final(signer),
                *final(funding),
                update_frequency_secs,
                staleness_threshold_secs,
                period_length,
                data_points_count,
                r,
            ) && *final(receiver) == *old(receiver),
            Some(InstructionData::ConfigureFundingAccountAuthority { authority }) =>
                authority_contract(
                *old(signer),
                *old(funding),
                *final(signer),
                *final(funding),
                authority,
                r,
            ) && *final(receiver) == *old(receiver),
            Some(InstructionData::UpdateFundingData { data_point }) => update_contract(
                *old(signer),
                *old(funding),
                *final(signer),
                *final(funding),
                data_point,
                now_ts,
                r,
            ) && *final(receiver) == *old(receiver),
            Some(InstructionData::CloseFundingAccount) => close_contract(
                *old(signer),
                *old(funding),
                *old(receiver),
                *final(signer),
                *final(funding),
                *final(receiver),
                r,
            ),
        },
{
    let ix = match parse_instruction(instruction_data) {
        Ok(ix) => ix,
        Err(e) => {
            return Err(e);
        },
    };
    match ix {
        InstructionData::InitializeFundingAccount {
            id,
            exchange,
            market_index,
            update_frequency_secs,
            staleness_threshold_secs,
            period_length,
            data_points_count,
        } => initialize_funding_account(
            signer,
            funding,
            id,
            exchange,
            market_index,
            update_frequency_secs,
            staleness_threshold_secs,
            period_length,
            data_points_count,
        ),
        InstructionData::ConfigureFundingAccount {
            update_frequency_secs,
            staleness_threshold_secs,
            period_length,
            data_points_count,
        } => configure_funding_account(
            signer,
            funding,
            update_frequency_secs,
            staleness_threshold_secs,
            period_length,
            data_points_count,
        ),
        InstructionData::ConfigureFundingAccountAuthority { authority } => {
            configure_funding_account_authority(signer, funding, authority)
        },
        InstructionData::UpdateFundingData { data_point } => {
            update_funding(signer, funding, data_point, now_ts)
        },
        InstructionData::CloseFundingAccount => close_funding_account(signer, funding, receiver),
    }
}

} // verus!
