//! Tests of the venue math, the order book, and the relayer
//! decisions.

use funding_oracle::address::Address;
use funding_oracle::args::{parse_drift_markets_into_ids, parse_mango_markets_into_ids};
use funding_oracle::book::{
    BookSide, BookSideIter, InnerNode, LeafNode, Node, OrderState, OrderTreeNodes, OrderTreeRoot,
    OrderTreeType, Side,
};
use funding_oracle::drift::{
    calculate_weighted_average, normalize_oracle_price, sanitize_new_price, standardize_price,
    Amm, ContractTier, HistoricalOracleData, PerpMarket, PositionDirection,
};
use funding_oracle::errors::DriftError;
use funding_oracle::mango::{Fix48, PerpMarket as MangoPerpMarket, FIX48_ONE};
use funding_oracle::oracle::OraclePriceData;
use funding_oracle::record::Exchange;
use funding_oracle::relayer::{
    bump_updated_markets, chunk_ranges, collect_due, force_send_should_rebuild,
    publish_chunk_action, ChunkAction, MarketFundingCache, TxOutcome,
};
use funding_oracle::args::ParseMarketsError;
use funding_oracle::errors::ErrorCode;
use funding_oracle::safe_math::{safe_add_i64, safe_div_i64};
use funding_oracle::u192::U192;
use funding_oracle::wsclient::{NotificationRoute, SubscriptionMethod, WsSession};

#[test]
fn u192_arithmetic() {
    let a = U192::from_u128(u128::MAX);
    let b = U192::from_u128(3);
    let p = a.safe_mul(b).unwrap();
    // (2^128 - 1) * 3 == 3 * 2^128 - 3
    assert_eq!(p.hi, 2);
    assert_eq!(p.lo, u128::MAX - 2);
    let (q, r) = funding_oracle::u192::div_rem_u192(p, b);
    assert_eq!(q.safe_mul(b).unwrap().safe_add(r).unwrap(), p);
    assert_eq!(q.to_u128().unwrap(), u128::MAX);
    let d = p.safe_div(U192::from_u128(0));
    assert!(d.is_err());
}

#[test]
fn safe_math_edges() {
    assert_eq!(safe_add_i64(i64::MAX, 1), Err(DriftError::MathError));
    assert_eq!(safe_div_i64(7, 0), Err(DriftError::MathError));
    assert_eq!(safe_div_i64(-7, 2), Ok(-3));
}

#[test]
fn weighted_average_bias() {
    // the bias leans toward the smaller weighted side of the blend
    assert_eq!(calculate_weighted_average(100, 200, 99, 2), Ok(100));
    assert_eq!(calculate_weighted_average(100, 200, 0, 5), Ok(200));
    assert_eq!(calculate_weighted_average(100, 200, 5, 0), Ok(100));
}

#[test]
fn normalize_pulls_toward_reserve() {
    // oracle 1_000_000 with wide confidence, reserve 1_001_000
    let r = normalize_oracle_price(1_000_000, 10_000, 1_001_000).unwrap();
    // reserve band is 1_001_000 / 4000 = 250
    assert_eq!(r, 1_000_750);
}

#[test]
fn sanitize_caps_jump() {
    // a 10x jump is capped to a third of the previous TWAP
    assert_eq!(sanitize_new_price(10_000_000, 1_000_000, None), Ok(1_333_333));
    assert_eq!(sanitize_new_price(1_000_100, 1_000_000, None), Ok(1_000_100));
    assert_eq!(sanitize_new_price(5, 0, None), Ok(5));
}

#[test]
fn standardize_rounds_to_tick() {
    assert_eq!(standardize_price(1005, 10, PositionDirection::Long), Ok(1000));
    assert_eq!(standardize_price(1005, 10, PositionDirection::Short), Ok(1010));
    assert_eq!(standardize_price(1000, 10, PositionDirection::Long), Ok(1000));
    assert!(standardize_price(1005, 0, PositionDirection::Long).is_err());
}

fn flat_amm() -> Amm {
    Amm {
        oracle: Address { lo: 1, hi: 1 },
        base_asset_reserve: 1_000_000_000,
        quote_asset_reserve: 1_000_000_000,
        peg_multiplier: 1_000_000,
        base_spread: 0,
        long_spread: 0,
        short_spread: 0,
        historical_oracle_data: HistoricalOracleData {
            last_oracle_price: 1_000_000,
            last_oracle_price_twap: 1_000_000,
            last_oracle_price_twap_ts: 0,
        },
        last_mark_price_twap: 1_000_000,
        last_bid_price_twap: 1_000_000,
        last_ask_price_twap: 1_000_000,
        last_mark_price_twap_ts: 0,
        funding_period: 3600,
        base_asset_amount_with_amm: 0,
        base_asset_amount_with_unsettled_lp: 0,
        base_asset_amount_long: 0,
        base_asset_amount_short: 0,
        total_fee_minus_distributions: 0,
        total_exchange_fee: 0,
    }
}

#[test]
fn drift_funding_rate_flat_market_is_zero() {
    let market = PerpMarket { market_index: 0, amm: flat_amm(), contract_tier: ContractTier::A };
    // mark and oracle TWAPs agree, so the annualized rate is zero
    assert_eq!(market.calculate_funding_rate(1_000_000, 0, 60), Ok(0));
}

#[test]
fn drift_reserve_price() {
    let amm = flat_amm();
    assert_eq!(amm.reserve_price(), Ok(1_000_000));
    assert_eq!(amm.bid_price(1_000_000), Ok(1_000_000));
    assert_eq!(amm.ask_price(1_000_000), Ok(1_000_000));
}

fn mango_market() -> MangoPerpMarket {
    MangoPerpMarket {
        perp_market_index: 0,
        base_decimals: 6,
        oracle: Address { lo: 2, hi: 2 },
        bids: Address { lo: 3, hi: 3 },
        asks: Address { lo: 4, hi: 4 },
        base_lot_size: 100,
        quote_lot_size: 10,
        impact_quantity: 10,
        min_funding: Fix48::from_int(-1),
        max_funding: Fix48::from_int(1),
    }
}

#[test]
fn mango_funding_rate_cases() {
    let market = mango_market();
    let oracle = Fix48::from_int(10);
    // both sides present: mid 101 lots against a 100-lot oracle
    assert_eq!(
        market.funding_rate_from_impacts(Some(100), Some(102), oracle),
        Ok(364_999_999)
    );
    // one side missing pins the rate to the clamp bound
    assert_eq!(market.funding_rate_from_impacts(Some(100), None, oracle), Ok(36_500_000_000));
    assert_eq!(market.funding_rate_from_impacts(None, Some(102), oracle), Ok(-36_500_000_000));
    assert_eq!(market.funding_rate_from_impacts(None, None, oracle), Ok(0));
}

#[test]
fn mango_funding_rate_stays_in_clamp_bounds() {
    let market = mango_market();
    let oracle = Fix48::from_int(10);
    let lo = -36_500_000_000;
    let hi = 36_500_000_000;
    for (bid, ask) in [(100, 102), (10, 2000), (999, 1000), (1, 3)] {
        let r = market.funding_rate_from_impacts(Some(bid), Some(ask), oracle).unwrap();
        assert!(lo <= r && r <= hi);
    }
}

fn leaf(price: u64, seq: u64, quantity: i64) -> LeafNode {
    LeafNode {
        key: ((price as u128) << 64) | seq as u128,
        quantity,
        timestamp: 0,
        time_in_force: 0,
        peg_limit: -1,
    }
}

fn pegged_leaf(offset: i64, seq: u64, quantity: i64) -> LeafNode {
    let raw = (offset as i128 + (1i128 << 63)) as u128;
    LeafNode {
        key: (raw << 64) | seq as u128,
        quantity,
        timestamp: 0,
        time_in_force: 0,
        peg_limit: -1,
    }
}

fn ask_book() -> BookSide {
    // fixed tree: prices 5 and 7; pegged tree: offset +1 (price 11 at oracle 10)
    let nodes = vec![
        Node::Inner(InnerNode { child_low: 1, child_high: 2 }),
        Node::Leaf(leaf(5, 1, 4)),
        Node::Leaf(leaf(7, 2, 4)),
        Node::Leaf(pegged_leaf(1, 3, 4)),
        Node::Free,
    ];
    BookSide {
        fixed_root: OrderTreeRoot { maybe_node: 0, leaf_count: 2 },
        oracle_pegged_root: OrderTreeRoot { maybe_node: 3, leaf_count: 1 },
        nodes: OrderTreeNodes { order_tree_type: OrderTreeType::Asks, nodes },
    }
}

#[test]
fn merged_iterator_yields_asks_in_price_order() {
    let book = ask_book();
    let mut iter = BookSideIter::new(&book, 100, 10).unwrap();
    let mut prices = vec![];
    while let Some(item) = iter.next() {
        assert_eq!(item.state, OrderState::Valid);
        prices.push(item.price_lots);
    }
    assert_eq!(prices, vec![5, 7, 11]);
}

#[test]
fn expired_leaf_is_invalid() {
    let mut node = leaf(5, 1, 4);
    node.time_in_force = 10;
    node.timestamp = 100;
    assert!(node.is_expired(110));
    assert!(!node.is_expired(105));
    let nodes = vec![Node::Leaf(node)];
    let book = BookSide {
        fixed_root: OrderTreeRoot { maybe_node: 0, leaf_count: 1 },
        oracle_pegged_root: OrderTreeRoot { maybe_node: 0, leaf_count: 0 },
        nodes: OrderTreeNodes { order_tree_type: OrderTreeType::Asks, nodes },
    };
    let mut iter = BookSideIter::new(&book, 110, 10).unwrap();
    let item = iter.next().unwrap();
    assert_eq!(item.state, OrderState::Invalid);
}

#[test]
fn out_of_range_pegged_orders_never_appear() {
    // the pegged ask at offset -100 cannot be priced at oracle 10
    let nodes = vec![Node::Leaf(pegged_leaf(-100, 1, 4))];
    let book = BookSide {
        fixed_root: OrderTreeRoot { maybe_node: 0, leaf_count: 0 },
        oracle_pegged_root: OrderTreeRoot { maybe_node: 0, leaf_count: 1 },
        nodes: OrderTreeNodes { order_tree_type: OrderTreeType::Asks, nodes },
    };
    let mut iter = BookSideIter::new(&book, 100, 10).unwrap();
    assert!(iter.next().is_none());
}

#[test]
fn impact_price_accumulates_depth() {
    let book = ask_book();
    // quantities are 4 each: depth 10 clears at the third level
    assert_eq!(book.impact_price(4, 100, 10), Some(5));
    assert_eq!(book.impact_price(8, 100, 10), Some(7));
    assert_eq!(book.impact_price(12, 100, 10), Some(11));
    assert_eq!(book.impact_price(13, 100, 10), None);
}

#[test]
fn side_price_better() {
    assert!(Side::Bid.is_price_better(5, 4));
    assert!(Side::Ask.is_price_better(4, 5));
}

fn cache_entry(market_lo: u128, freq: u64, snapshots: Vec<i64>, last: u64) -> MarketFundingCache {
    MarketFundingCache {
        address: Address { lo: market_lo + 1000, hi: 0 },
        market: Address { lo: market_lo, hi: 0 },
        market_index: market_lo as u16,
        exchange: Exchange::Drift,
        update_frequency_secs: freq,
        funding_snapshots: snapshots,
        last_account_update_at: last,
    }
}

#[test]
fn snapshot_ring_is_fifo() {
    let mut entry = cache_entry(1, 90, vec![], 0);
    assert_eq!(entry.cache_funding_rates(), 3);
    entry.insert_funding_rate(1);
    entry.insert_funding_rate(2);
    assert_eq!(entry.get_average_funding_rate(), None);
    entry.insert_funding_rate(3);
    assert_eq!(entry.get_average_funding_rate(), Some(2));
    entry.insert_funding_rate(7);
    assert_eq!(entry.funding_snapshots, vec![2, 3, 7]);
    assert_eq!(entry.get_average_funding_rate(), Some(4));
}

#[test]
fn relayer_chunking() {
    // 23 due markets pack into transactions of ten, ten and three
    let ranges = chunk_ranges(23);
    assert_eq!(ranges, vec![(0, 10), (10, 20), (20, 23)]);
    assert_eq!(chunk_ranges(0), vec![]);
    assert_eq!(chunk_ranges(10), vec![(0, 10)]);
}

#[test]
fn bump_only_published_markets() {
    let mut cache = vec![
        cache_entry(1, 90, vec![1, 1, 1], 0),
        cache_entry(2, 90, vec![2, 2, 2], 0),
        cache_entry(3, 90, vec![3, 3, 3], 0),
    ];
    let due = collect_due(&cache, 100);
    assert_eq!(due.len(), 3);
    let published = vec![Address { lo: 1, hi: 0 }, Address { lo: 3, hi: 0 }];
    bump_updated_markets(&mut cache, &published, 100);
    assert_eq!(cache[0].last_account_update_at, 100);
    assert_eq!(cache[1].last_account_update_at, 0);
    assert_eq!(cache[2].last_account_update_at, 100);
}

#[test]
fn publish_retry_policy() {
    assert_eq!(publish_chunk_action(TxOutcome::Success, 0), ChunkAction::BumpAndContinue);
    assert_eq!(publish_chunk_action(TxOutcome::Failed, 0), ChunkAction::AbandonChunk);
    assert_eq!(publish_chunk_action(TxOutcome::TimedOut, 0), ChunkAction::ResendSame);
    assert_eq!(publish_chunk_action(TxOutcome::TimedOut, 2), ChunkAction::AbandonChunk);
    assert!(!force_send_should_rebuild(0));
    assert!(!force_send_should_rebuild(1));
    assert!(force_send_should_rebuild(2));
    assert!(!force_send_should_rebuild(3));
    assert!(force_send_should_rebuild(4));
}

#[test]
fn market_symbols_map_to_ids() {
    let symbols = vec!["BTC".to_string(), "SOL".to_string(), "ETH".to_string(),
        "RNDR".to_string()];
    assert_eq!(parse_mango_markets_into_ids(&symbols), Ok(vec![0, 2, 3, 4]));
    assert_eq!(parse_drift_markets_into_ids(&symbols), Ok(vec![1, 0, 2, 12]));
    let unknown = vec!["DOGE".to_string()];
    assert!(parse_mango_markets_into_ids(&unknown).is_err());
    assert!(parse_drift_markets_into_ids(&unknown).is_err());
}

#[test]
fn drift_oracle_price_rescales() {
    let oracle = OraclePriceData { expo: -8, price: 123_456_789, updated_at_slot: 0,
        confidence: 0 };
    // 10^8 precision scales down by 100 to the 10^6 grid
    assert_eq!(oracle.get_drift_price(), Ok(1_234_567));
    let oracle6 = OraclePriceData { expo: -6, price: 42, updated_at_slot: 0, confidence: 0 };
    assert_eq!(oracle6.get_drift_price(), Ok(42));
}

#[test]
fn mango_oracle_price_projects() {
    let oracle = OraclePriceData { expo: -6, price: 10_000_000, updated_at_slot: 0,
        confidence: 0 };
    // expo -6 with six quote and six base decimals leaves the price at
    // ten, up to the one-bit rounding of the negative power-of-ten table
    let p = oracle.get_mango_price(6).unwrap();
    assert_eq!(p.bits, 2_814_749_770_000_000);
    assert!(p.bits - 10 * FIX48_ONE < FIX48_ONE / 1_000_000);
}

#[test]
fn ws_session_bookkeeping() {
    let mut session = WsSession::new();
    let rid1 = session.begin_subscribe(SubscriptionMethod::Program);
    let rid2 = session.begin_subscribe(SubscriptionMethod::Slot);
    assert_eq!((rid1, rid2), (1, 2));
    // the server confirms the program subscription under id 55
    assert_eq!(session.confirm_subscription(rid1, 55), Some(SubscriptionMethod::Program));
    assert_eq!(session.confirm_subscription(99, 56), None);
    assert_eq!(session.route_notification(55), NotificationRoute::Forward);
    assert_eq!(session.route_notification(56), NotificationRoute::Unsubscribe);
    assert!(session.drop_subscription(55));
    assert!(!session.drop_subscription(55));
    session.reset_on_reconnect();
    assert_eq!(session.request_id, 1);
    assert_eq!(session.route_notification(55), NotificationRoute::Unsubscribe);
    // the slot request is still pending after the reconnect
    assert_eq!(session.confirm_subscription(rid2, 57), Some(SubscriptionMethod::Slot));
}

#[test]
fn error_messages() {
    let e = ParseMarketsError("mango".to_string());
    assert_eq!(e.to_string(), "Unable to parse markets: mango");
    assert_eq!(DriftError::MathError.to_string(), "MathError");
    assert_eq!(ErrorCode::UpdateTooSoon.code(), 6);
    assert_eq!(ErrorCode::LamportsOverflow.code(), 7);
}

#[test]
fn fix48_arithmetic() {
    let two = Fix48::from_int(2);
    let three = Fix48::from_int(3);
    assert_eq!(two.mul(three).unwrap().bits, 6 * FIX48_ONE);
    assert_eq!(three.div(two).unwrap().bits, 3 * FIX48_ONE / 2);
    assert_eq!(Fix48::from_int(-7).to_num_i64(), Some(-7));
    // floor semantics on the negative half-open values
    assert_eq!(Fix48::from_bits(-3 * FIX48_ONE / 2).to_num_i64(), Some(-2));
    assert_eq!(two.clamp(Fix48::from_int(0), Fix48::from_int(1)).bits, FIX48_ONE);
}

#[test]
fn u192_byte_round_trip() {
    let v = U192 { lo: 0x0102_0304_0506_0708_090a_0b0c_0d0e_0f10, hi: 0x1112_1314_1516_1718 };
    let bytes = v.to_le_bytes();
    assert_eq!(bytes.len(), 24);
    assert_eq!(bytes[0], 0x10);
    assert_eq!(bytes[16], 0x18);
    assert_eq!(U192::from_le_bytes(&bytes), v);
}

#[test]
fn listing_lines_and_grouping() {
    let line = funding_oracle::listing::funding_listing_line("abc", 0, 12, &Exchange::Drift);
    assert_eq!(line, "abc: 0 12 drift (0)\n");
    let line2 = funding_oracle::listing::funding_listing_line("xyz", 7, 305, &Exchange::Mango);
    assert_eq!(line2, "xyz: 7 305 mango (1)\n");
    assert_eq!(funding_oracle::listing::u16_to_string(0), "0");
    assert_eq!(funding_oracle::listing::u16_to_string(65535), "65535");
    let pairs = vec![
        ("a".to_string(), "l1\n".to_string()),
        ("b".to_string(), "l2\n".to_string()),
        ("a".to_string(), "l3\n".to_string()),
    ];
    let groups = funding_oracle::listing::group_lines(&pairs);
    assert_eq!(groups.len(), 2);
    assert_eq!(groups[0], ("a".to_string(), "l1\nl3\n".to_string()));
    assert_eq!(groups[1], ("b".to_string(), "l2\n".to_string()));
    let text = funding_oracle::listing::render_listing(&groups);
    assert_eq!(
        text,
        "<account_address>: <id> <market_index> <exchange> (<exchange_discriminant>)\n\
         \nAuthority: a\n--------------------------------\nl1\nl3\n\n\
         \nAuthority: b\n--------------------------------\nl2\n\n"
    );
}

#[test]
fn bootstrap_selection_and_defaults() {
    let statuses = vec![None, Some(0u64), Some(269u64), Some(0u64)];
    let picked = funding_oracle::relayer::select_uninitialized(&statuses);
    assert_eq!(picked, vec![0, 1, 3]);
    let bytes = funding_oracle::relayer::bootstrap_initialize_instruction(9, Exchange::Mango);
    let parsed = funding_oracle::program::parse_instruction(&bytes).unwrap();
    assert_eq!(
        parsed,
        funding_oracle::program::InstructionData::InitializeFundingAccount {
            id: 0,
            exchange: Exchange::Mango,
            market_index: 9,
            update_frequency_secs: 120,
            staleness_threshold_secs: 600,
            period_length: 5,
            data_points_count: 30,
        }
    );
}

#[test]
fn heartbeat_rule() {
    assert!(!funding_oracle::wsclient::should_send_ping(0));
    assert!(!funding_oracle::wsclient::should_send_ping(4));
    assert!(funding_oracle::wsclient::should_send_ping(5));
    assert!(funding_oracle::wsclient::should_send_ping(60));
}

#[test]
fn market_addresses_derive() {
    let group = Address { lo: 42, hi: 43 };
    let a = funding_oracle::addresses::mango_market_address(&group, 0).unwrap();
    let b = funding_oracle::addresses::mango_market_address(&group, 1).unwrap();
    assert_ne!(a, b);
    let c = funding_oracle::addresses::drift_market_address(0).unwrap();
    let d = funding_oracle::addresses::drift_market_address(1).unwrap();
    assert_ne!(c, d);
}
