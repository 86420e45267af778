use candle_markets::lifecycle::{plan_market_creation, settle_decision, SettleDecision};
use candle_markets::oracle::{binance_interval, hours_to_resolution_minutes, Candle};
use candle_markets::pda::{derive_bet_pda, derive_market_pda, derive_treasury_pda};
use candle_markets::wire::{
    encode_create_market, encode_initialize_treasury, encode_settle_market, i64_to_le_bytes,
};
use solana_sdk::pubkey::Pubkey;

#[test]
fn initialize_treasury_data_is_discriminator_only() {
    assert_eq!(
        encode_initialize_treasury(),
        vec![124, 186, 211, 195, 85, 165, 129, 166]
    );
}

#[test]
fn settle_market_data_layout() {
    let mut expected = vec![193, 153, 95, 216, 166, 6, 144, 217];
    expected.extend_from_slice(&0x0102030405060708u64.to_le_bytes());
    assert_eq!(encode_settle_market(0x0102030405060708), expected);
}

#[test]
fn create_market_data_layout() {
    let asset = b"BTC/USDT".to_vec();
    let open_price: u64 = 10_000;
    let start_time: i64 = 1_700_000_000;
    let end_time: i64 = start_time + 14_400;
    let market_id: u64 = 1_700_007_000;
    let mut expected = vec![103, 226, 97, 235, 200, 188, 251, 254];
    expected.extend_from_slice(&(asset.len() as u32).to_le_bytes());
    expected.extend_from_slice(&asset);
    expected.extend_from_slice(&open_price.to_le_bytes());
    expected.extend_from_slice(&start_time.to_le_bytes());
    expected.extend_from_slice(&end_time.to_le_bytes());
    expected.extend_from_slice(&market_id.to_le_bytes());
    assert_eq!(
        encode_create_market(&asset, open_price, start_time, end_time, market_id),
        expected
    );
}

#[test]
fn signed_fields_encode_as_twos_complement() {
    assert_eq!(i64_to_le_bytes(-2), (-2i64).to_le_bytes().to_vec());
    assert_eq!(i64_to_le_bytes(i64::MIN), i64::MIN.to_le_bytes().to_vec());
    assert_eq!(i64_to_le_bytes(7), vec![7, 0, 0, 0, 0, 0, 0, 0]);
}

#[test]
fn market_pda_matches_sdk_derivation() {
    let program_bytes = [7u8; 32];
    let program_id = Pubkey::new_from_array(program_bytes);
    let (addr, bump) = derive_market_pda(&program_bytes, 42).unwrap();
    let seed = 42u64.to_le_bytes();
    let (expected, expected_bump) =
        Pubkey::find_program_address(&[b"market", &seed], &program_id);
    assert_eq!(addr, expected.to_bytes());
    assert_eq!(bump, expected_bump);
}

#[test]
fn bet_pda_matches_sdk_derivation() {
    let program_bytes = [9u8; 32];
    let program_id = Pubkey::new_from_array(program_bytes);
    let user = vec![1u8; 32];
    let market = vec![2u8; 32];
    let (addr, bump) = derive_bet_pda(&program_bytes, &user, &market).unwrap();
    let (expected, expected_bump) =
        Pubkey::find_program_address(&[b"bet", &user, &market], &program_id);
    assert_eq!(addr, expected.to_bytes());
    assert_eq!(bump, expected_bump);
}

#[test]
fn treasury_pda_matches_sdk_derivation() {
    let program_bytes = [11u8; 32];
    let program_id = Pubkey::new_from_array(program_bytes);
    let (addr, bump) = derive_treasury_pda(&program_bytes).unwrap();
    let (expected, expected_bump) = Pubkey::find_program_address(&[b"treasury"], &program_id);
    assert_eq!(addr, expected.to_bytes());
    assert_eq!(bump, expected_bump);
}

#[test]
fn different_market_ids_derive_different_addresses() {
    let program_bytes = [7u8; 32];
    let (a, _) = derive_market_pda(&program_bytes, 1).unwrap();
    let (b, _) = derive_market_pda(&program_bytes, 2).unwrap();
    assert_ne!(a, b);
}

#[test]
fn creation_plan_derives_window_and_identity() {
    let candle = Candle {
        open: 10_000,
        high: 10_500,
        low: 9_900,
        close: 10_200,
        timestamp: 1_700_000_000,
    };
    let plan = plan_market_creation(candle.timestamp, candle.open);
    assert_eq!(plan.market_id, 1_700_007_000);
    assert_eq!(plan.start_time, 1_700_000_000);
    assert_eq!(plan.end_time, 1_700_014_400);
    assert_eq!(plan.lock_time, 1_700_013_800);
    assert_eq!(plan.open_price, 10_000);
    // The identity is derived, never counted: the same candle always
    // plans the same market.
    let again = plan_market_creation(candle.timestamp, candle.open);
    assert_eq!(again, plan);
}

#[test]
fn settlement_pass_decisions() {
    let now = 1_700_020_000;
    assert_eq!(
        settle_decision(1_000_000, false, 1_700_014_400, now),
        SettleDecision::SkipLegacy
    );
    assert_eq!(
        settle_decision(1_700_007_000, true, 1_700_014_400, now),
        SettleDecision::NotDue
    );
    assert_eq!(
        settle_decision(1_700_007_000, false, now + 1, now),
        SettleDecision::NotDue
    );
    assert_eq!(
        settle_decision(1_700_007_000, false, 1_700_014_400, now),
        SettleDecision::Settle
    );
}

#[test]
fn binance_intervals_cover_supported_hours() {
    assert_eq!(binance_interval(1), Some("1h"));
    assert_eq!(binance_interval(2), Some("2h"));
    assert_eq!(binance_interval(4), Some("4h"));
    assert_eq!(binance_interval(6), Some("6h"));
    assert_eq!(binance_interval(12), Some("12h"));
    assert_eq!(binance_interval(24), Some("1d"));
    assert_eq!(binance_interval(3), None);
    assert_eq!(binance_interval(0), None);
    assert_eq!(binance_interval(-4), None);
}

#[test]
fn resolution_minutes_scale_hours() {
    assert_eq!(hours_to_resolution_minutes(4), 240);
    assert_eq!(hours_to_resolution_minutes(1), 60);
}
