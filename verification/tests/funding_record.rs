//! Tests of the on-chain funding record: EMA, ring updates, and the
//! five program operations.

use funding_oracle::address::Address;
use funding_oracle::errors::{ErrorCode, FundingError};
use funding_oracle::program::{
    close_funding_account, configure_funding_account, encode_instruction,
    initialize_funding_account, parse_instruction, process_instruction, update_funding,
    InstructionData,
};
use funding_oracle::record::{
    decode_fixed, ChainAccount, Exchange, FundingAccountConfig, FundingAccountFixed,
    FundingAccountLoader,
};

fn loader_with_points(period_length: u32, points: &[i64]) -> FundingAccountLoader {
    let mut loader = FundingAccountLoader {
        fixed: FundingAccountFixed {
            bump: 0,
            id: 0,
            exchange: Exchange::Drift,
            market_index: 0,
            authority: Address { lo: 0, hi: 0 },
            last_updated_ts: 0,
            config: FundingAccountConfig {
                update_frequency_secs: 0,
                staleness_threshold_secs: 0,
                period_length,
                data_points_count: points.len() as u16,
            },
            funding_ema: None,
        },
        dynamic: vec![0u8; 16 * points.len()],
    };
    for (i, p) in points.iter().enumerate() {
        loader.write_data_point(Some(*p), i);
    }
    loader
}

#[test]
fn ema() {
    // (2 - 1) * 2 / 6 + 1, folded across twelve points
    let points: Vec<i64> = (1..=12).map(|x| x * 1_000_000).collect();
    let mut funding_account = loader_with_points(5, &points);
    funding_account.update_ema();
    assert_eq!(funding_account.fixed.funding_ema, Some(10023121));
}

#[test]
fn ema_two_points() {
    let mut loader = loader_with_points(1, &[100, 200]);
    loader.update_ema();
    // (200 - 100) * 2 / 2 + 100
    assert_eq!(loader.fixed.funding_ema, Some(200));
}

#[test]
fn update_fills_first_free_slot() {
    let mut loader = loader_with_points(5, &[7, 8, 9]);
    loader.write_data_point(None, 1);
    loader.write_data_point(None, 2);
    assert_eq!(loader.update_data_points(10), Ok(()));
    assert_eq!(loader.load_data_point(0), Some(7));
    assert_eq!(loader.load_data_point(1), Some(10));
    assert_eq!(loader.load_data_point(2), None);
    assert_eq!(loader.fixed.funding_ema, None);
}

#[test]
fn update_full_ring_drops_oldest() {
    let mut loader = loader_with_points(5, &[1, 2, 3]);
    assert_eq!(loader.update_data_points(4), Ok(()));
    assert_eq!(loader.load_data_point(0), Some(2));
    assert_eq!(loader.load_data_point(1), Some(3));
    assert_eq!(loader.load_data_point(2), Some(4));
    assert!(loader.fixed.funding_ema.is_some());
}

#[test]
fn reset_clears_ring() {
    let mut loader = loader_with_points(5, &[1, 2, 3]);
    loader.fixed.funding_ema = Some(42);
    assert_eq!(loader.reset_data_points_and_write_first(9), Ok(()));
    assert_eq!(loader.load_data_point(0), Some(9));
    assert_eq!(loader.load_data_point(1), None);
    assert_eq!(loader.load_data_point(2), None);
    assert_eq!(loader.fixed.funding_ema, None);
}

fn signer_account() -> ChainAccount {
    ChainAccount {
        key: Address { lo: 11, hi: 22 },
        lamports: 100_000_000,
        owner: Address { lo: 0, hi: 0 },
        data: vec![],
        is_signer: true,
        is_writable: true,
    }
}

fn fresh_funding_account(id: u16, market_index: u16, exchange: Exchange) -> ChainAccount {
    let (address, _bump) = FundingAccountLoader::pda(id, market_index, &exchange).unwrap();
    ChainAccount {
        key: address,
        lamports: 0,
        owner: Address { lo: 0, hi: 0 },
        data: vec![],
        is_signer: false,
        is_writable: true,
    }
}

#[test]
fn initialize_happy_path() {
    let mut signer = signer_account();
    let mut funding = fresh_funding_account(0, 0, Exchange::Drift);
    let r = initialize_funding_account(
        &mut signer,
        &mut funding,
        0,
        Exchange::Drift,
        0,
        300,
        600,
        5,
        12,
    );
    assert_eq!(r, Ok(()));
    assert_eq!(funding.data.len(), 77 + 16 * 12);
    assert_eq!(funding.data.len(), 269);
    let fixed = decode_fixed(&funding.data).unwrap();
    assert_eq!(fixed.authority, signer.key);
    assert_eq!(fixed.funding_ema, None);
    assert_eq!(fixed.config.data_points_count, 12);
    let loader = FundingAccountLoader::try_load(&funding, &signer.key).unwrap();
    for i in 0..12 {
        assert_eq!(loader.load_data_point(i), None);
    }
    // rent moved from the authority to the account
    assert_eq!(funding.lamports, (128 + 269) * 6960);
    assert_eq!(signer.lamports, 100_000_000 - (128 + 269) * 6960);
}

#[test]
fn initialize_rejects_bad_config() {
    let mut signer = signer_account();
    let mut funding = fresh_funding_account(0, 0, Exchange::Drift);
    let r = initialize_funding_account(
        &mut signer,
        &mut funding,
        0,
        Exchange::Drift,
        0,
        600,
        600,
        5,
        12,
    );
    assert!(r.is_err());
    let r2 = initialize_funding_account(
        &mut signer,
        &mut funding,
        0,
        Exchange::Drift,
        0,
        300,
        600,
        5,
        1,
    );
    assert!(r2.is_err());
}

#[test]
fn update_too_soon() {
    let mut signer = signer_account();
    let mut funding = fresh_funding_account(0, 0, Exchange::Drift);
    initialize_funding_account(
        &mut signer,
        &mut funding,
        0,
        Exchange::Drift,
        0,
        300,
        600,
        5,
        12,
    )
    .unwrap();
    // first update resets the stale ring
    assert_eq!(update_funding(&mut signer, &mut funding, 1_000_000, 700), Ok(()));
    // ten seconds later is ahead of the 300 second cadence
    let r = update_funding(&mut signer, &mut funding, 2_000_000, 710);
    assert_eq!(r, Err(FundingError::Funding(ErrorCode::UpdateTooSoon)));
}

#[test]
fn resize_grow_preserves_points() {
    let mut signer = signer_account();
    let mut funding = fresh_funding_account(0, 0, Exchange::Drift);
    initialize_funding_account(
        &mut signer,
        &mut funding,
        0,
        Exchange::Drift,
        0,
        300,
        600,
        5,
        12,
    )
    .unwrap();
    update_funding(&mut signer, &mut funding, 5_000_000, 700).unwrap();
    let lamports_before = funding.lamports;
    let signer_before = signer.lamports;
    let r = configure_funding_account(&mut signer, &mut funding, None, None, None, Some(20));
    assert_eq!(r, Ok(()));
    assert_eq!(funding.data.len(), 77 + 320);
    assert_eq!(funding.data.len(), 397);
    let loader = FundingAccountLoader::try_load(&funding, &signer.key).unwrap();
    assert_eq!(loader.load_data_point(0), Some(5_000_000));
    for i in 1..20 {
        assert_eq!(loader.load_data_point(i), None);
    }
    let new_rent = (128 + 397) * 6960;
    assert_eq!(funding.lamports, new_rent);
    assert_eq!(signer.lamports, signer_before - (new_rent - lamports_before));
}

#[test]
fn resize_shrink_clears_and_refunds() {
    let mut signer = signer_account();
    let mut funding = fresh_funding_account(0, 0, Exchange::Drift);
    initialize_funding_account(
        &mut signer,
        &mut funding,
        0,
        Exchange::Drift,
        0,
        300,
        600,
        5,
        12,
    )
    .unwrap();
    update_funding(&mut signer, &mut funding, 5_000_000, 700).unwrap();
    let lamports_before = funding.lamports;
    let signer_before = signer.lamports;
    let r = configure_funding_account(&mut signer, &mut funding, None, None, None, Some(10));
    assert_eq!(r, Ok(()));
    assert_eq!(funding.data.len(), 77 + 160);
    let fixed = decode_fixed(&funding.data).unwrap();
    assert_eq!(fixed.funding_ema, None);
    assert_eq!(fixed.last_updated_ts, 0);
    let loader = FundingAccountLoader::try_load(&funding, &signer.key).unwrap();
    for i in 0..10 {
        assert_eq!(loader.load_data_point(i), None);
    }
    let new_rent = (128 + 77 + 160) * 6960;
    assert_eq!(funding.lamports, new_rent);
    assert_eq!(signer.lamports, signer_before + (lamports_before - new_rent));
}

#[test]
fn close_drains_account() {
    let mut signer = signer_account();
    let mut funding = fresh_funding_account(0, 0, Exchange::Drift);
    initialize_funding_account(
        &mut signer,
        &mut funding,
        0,
        Exchange::Drift,
        0,
        300,
        600,
        5,
        12,
    )
    .unwrap();
    let drained = funding.lamports;
    let mut receiver = ChainAccount {
        key: Address { lo: 77, hi: 88 },
        lamports: 5,
        owner: Address { lo: 0, hi: 0 },
        data: vec![],
        is_signer: false,
        is_writable: true,
    };
    let r = close_funding_account(&mut signer, &mut funding, &mut receiver);
    assert_eq!(r, Ok(()));
    assert_eq!(funding.lamports, 0);
    assert_eq!(funding.data.len(), 0);
    assert_eq!(funding.owner, Address { lo: 0, hi: 0 });
    assert_eq!(receiver.lamports, 5 + drained);
}

#[test]
fn pda_round_trip() {
    assert_eq!(FundingAccountLoader::pda_round_trip(0, 0, &Exchange::Drift), Some(true));
    assert_eq!(FundingAccountLoader::pda_round_trip(7, 3, &Exchange::Mango), Some(true));
}

#[test]
fn pda_differs_by_market() {
    let a = FundingAccountLoader::pda(0, 0, &Exchange::Drift).unwrap();
    let b = FundingAccountLoader::pda(0, 1, &Exchange::Drift).unwrap();
    let c = FundingAccountLoader::pda(0, 0, &Exchange::Mango).unwrap();
    assert_ne!(a.0, b.0);
    assert_ne!(a.0, c.0);
}

#[test]
fn instruction_codec_round_trip() {
    let cases = vec![
        InstructionData::InitializeFundingAccount {
            id: 0,
            exchange: Exchange::Drift,
            market_index: 0,
            update_frequency_secs: 300,
            staleness_threshold_secs: 600,
            period_length: 5,
            data_points_count: 12,
        },
        InstructionData::ConfigureFundingAccount {
            update_frequency_secs: Some(120),
            staleness_threshold_secs: None,
            period_length: Some(7),
            data_points_count: Some(30),
        },
        InstructionData::ConfigureFundingAccountAuthority {
            authority: Address { lo: 123, hi: 456 },
        },
        InstructionData::UpdateFundingData { data_point: -42 },
        InstructionData::CloseFundingAccount,
    ];
    for ix in cases {
        let bytes = encode_instruction(&ix);
        assert_eq!(parse_instruction(&bytes), Ok(ix));
    }
}

#[test]
fn parse_rejects_garbage() {
    assert!(parse_instruction(&vec![]).is_err());
    assert!(parse_instruction(&vec![9u8]).is_err());
    assert!(parse_instruction(&vec![0u8, 1, 2]).is_err());
}

#[test]
fn dispatch_routes_update() {
    let mut signer = signer_account();
    let mut funding = fresh_funding_account(0, 0, Exchange::Drift);
    let mut receiver = signer_account();
    let init = encode_instruction(&InstructionData::InitializeFundingAccount {
        id: 0,
        exchange: Exchange::Drift,
        market_index: 0,
        update_frequency_secs: 300,
        staleness_threshold_secs: 600,
        period_length: 5,
        data_points_count: 12,
    });
    assert_eq!(
        process_instruction(&mut signer, &mut funding, &mut receiver, &init, 0),
        Ok(())
    );
    let update = encode_instruction(&InstructionData::UpdateFundingData { data_point: 123 });
    assert_eq!(
        process_instruction(&mut signer, &mut funding, &mut receiver, &update, 700),
        Ok(())
    );
    let loader = FundingAccountLoader::try_load(&funding, &signer.key).unwrap();
    assert_eq!(loader.load_data_point(0), Some(123));
}
