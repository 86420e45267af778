use candle_markets::engine::{
    claim_reward, compute_payout, create_market, initialize_treasury, place_bet, settle_market,
    weight_tier, MAX_BET,
};
use candle_markets::errors::CandleError;
use candle_markets::state::{BetSide, MarketAccount, UserBetAccount};

const START: i64 = 1_700_000_000;
const END: i64 = START + 14_400;
const LOCK: i64 = END - 600;
const TREASURY: u64 = 1_000_000_000;

fn btc_market(open_price: u64) -> MarketAccount {
    create_market(b"BTC/USDT".to_vec(), open_price, START, END, 77).unwrap()
}

fn wallet(tag: u8) -> Vec<u8> {
    vec![tag; 32]
}

#[test]
fn create_market_initial_state() {
    let m = btc_market(10_000);
    assert_eq!(m.market_id, 77);
    assert_eq!(m.start_time, START);
    assert_eq!(m.end_time, END);
    assert_eq!(m.lock_time, LOCK);
    assert_eq!(m.open_price, 10_000);
    assert_eq!(m.close_price, 0);
    assert_eq!(m.green_pool_weighted, 100);
    assert_eq!(m.red_pool_weighted, 100);
    assert_eq!(m.virtual_liquidity, 100);
    assert!(!m.settled);
    assert_eq!(m.asset, b"BTC/USDT".to_vec());
}

#[test]
fn create_market_rejects_empty_window() {
    let r = create_market(b"BTC/USDT".to_vec(), 10_000, START, START, 1);
    assert!(matches!(r, Err(CandleError::MarketClosed)));
    let r = create_market(b"BTC/USDT".to_vec(), 10_000, START, START - 1, 1);
    assert!(matches!(r, Err(CandleError::MarketClosed)));
}

#[test]
fn weight_tiers_follow_window_quarters() {
    assert_eq!(weight_tier(0), 100);
    assert_eq!(weight_tier(3_599), 100);
    assert_eq!(weight_tier(3_600), 70);
    assert_eq!(weight_tier(5_000), 70);
    assert_eq!(weight_tier(7_199), 70);
    assert_eq!(weight_tier(7_200), 50);
    assert_eq!(weight_tier(10_799), 50);
    assert_eq!(weight_tier(10_800), 20);
    assert_eq!(weight_tier(14_400), 20);
    assert_eq!(weight_tier(1_000_000), 20);
}

#[test]
fn third_tier_halves_the_stake() {
    // A bet 7,500 s into the window falls in the third quarter: weight
    // 50, so the effective stake is the amount halved, floored.
    let mut m = btc_market(10_000);
    let bet = place_bet(&mut m, wallet(1), wallet(9), BetSide::Green, 1_001, START + 7_500)
        .unwrap();
    assert_eq!(bet.weight, 50);
    assert_eq!(bet.effective_stake, 500);
    assert_eq!(m.green_pool_weighted, 600);
}

#[test]
fn place_bet_records_terms_and_grows_pool() {
    let mut m = btc_market(10_000);
    let bet = place_bet(&mut m, wallet(1), wallet(9), BetSide::Red, 1_000, START + 100).unwrap();
    assert_eq!(bet.user, wallet(1));
    assert_eq!(bet.market, wallet(9));
    assert_eq!(bet.amount, 1_000);
    assert_eq!(bet.weight, 100);
    assert_eq!(bet.effective_stake, 1_000);
    assert!(!bet.claimed);
    assert_eq!(m.red_pool_weighted, 1_100);
    assert_eq!(m.green_pool_weighted, 100);
    // The pool floor holds after any sequence of bets.
    assert!(m.green_pool_weighted - m.virtual_liquidity >= 0);
    assert!(m.red_pool_weighted - m.virtual_liquidity >= 0);
}

#[test]
fn place_bet_rejects_locked_market() {
    let mut m = btc_market(10_000);
    let r = place_bet(&mut m, wallet(1), wallet(9), BetSide::Green, 1_000, LOCK);
    assert!(matches!(r, Err(CandleError::MarketLocked)));
    assert_eq!(m.green_pool_weighted, 100);
}

#[test]
fn place_bet_rejects_oversized_stake() {
    let mut m = btc_market(10_000);
    let r = place_bet(&mut m, wallet(1), wallet(9), BetSide::Green, MAX_BET + 1, START + 100);
    assert!(matches!(r, Err(CandleError::InvalidBetSize)));
    assert_eq!(m.green_pool_weighted, 100);
    let ok = place_bet(&mut m, wallet(1), wallet(9), BetSide::Green, MAX_BET, START + 100);
    assert!(ok.is_ok());
}

#[test]
fn settlement_gated_by_end_time_and_succeeds_exactly_once() {
    let mut m = btc_market(10_000);
    let r = settle_market(&mut m, 11_000, END - 1);
    assert!(matches!(r, Err(CandleError::MarketNotEnded)));
    assert!(!m.settled);
    let r = settle_market(&mut m, 11_000, END);
    assert!(r.is_ok());
    assert!(m.settled);
    assert_eq!(m.close_price, 11_000);
    let r = settle_market(&mut m, 12_000, END + 1);
    assert!(matches!(r, Err(CandleError::Unauthorized)));
    assert_eq!(m.close_price, 11_000);
}

#[test]
fn up_winner_takes_proportional_share() {
    // Window opens at 100.00 and closes at 110.00: the up side wins.
    // A stakes 1000 at weight 100 up, B stakes 2000 at weight 100
    // down, virtual liquidity 100: A's payout is
    // floor(1000 * 2000 / 1000) = 2000, B's is 0.
    let mut m = btc_market(10_000);
    let mut a = place_bet(&mut m, wallet(1), wallet(9), BetSide::Green, 1_000, START + 100)
        .unwrap();
    let mut b = place_bet(&mut m, wallet(2), wallet(9), BetSide::Red, 2_000, START + 100)
        .unwrap();
    settle_market(&mut m, 11_000, END).unwrap();
    assert_eq!(claim_reward(&m, &mut a, TREASURY).unwrap(), 2_000);
    assert!(a.claimed);
    assert_eq!(claim_reward(&m, &mut b, TREASURY).unwrap(), 0);
    assert!(b.claimed);
}

#[test]
fn flat_candle_pays_zero_and_still_marks_claimed() {
    let mut m = btc_market(10_000);
    let mut a = place_bet(&mut m, wallet(1), wallet(9), BetSide::Green, 1_000, START + 100)
        .unwrap();
    let mut b = place_bet(&mut m, wallet(2), wallet(9), BetSide::Red, 2_000, START + 100)
        .unwrap();
    settle_market(&mut m, 10_000, END).unwrap();
    assert_eq!(claim_reward(&m, &mut a, TREASURY).unwrap(), 0);
    assert!(a.claimed);
    assert_eq!(claim_reward(&m, &mut b, TREASURY).unwrap(), 0);
    assert!(b.claimed);
}

#[test]
fn claim_before_settlement_is_rejected() {
    let mut m = btc_market(10_000);
    let mut a = place_bet(&mut m, wallet(1), wallet(9), BetSide::Green, 1_000, START + 100)
        .unwrap();
    let r = claim_reward(&m, &mut a, TREASURY);
    assert!(matches!(r, Err(CandleError::SettlementPending)));
    assert!(!a.claimed);
}

#[test]
fn second_claim_is_rejected_as_replay() {
    let mut m = btc_market(10_000);
    let mut a = place_bet(&mut m, wallet(1), wallet(9), BetSide::Green, 1_000, START + 100)
        .unwrap();
    settle_market(&mut m, 11_000, END).unwrap();
    assert_eq!(claim_reward(&m, &mut a, TREASURY).unwrap(), 0);
    assert!(a.claimed);
    let r = claim_reward(&m, &mut a, TREASURY);
    assert!(matches!(r, Err(CandleError::AlreadyClaimed)));
    assert!(a.claimed);
}

#[test]
fn claim_rejected_when_treasury_cannot_cover() {
    let mut m = btc_market(10_000);
    let mut a = place_bet(&mut m, wallet(1), wallet(9), BetSide::Green, 1_000, START + 100)
        .unwrap();
    let mut b = place_bet(&mut m, wallet(2), wallet(9), BetSide::Red, 2_000, START + 100)
        .unwrap();
    settle_market(&mut m, 11_000, END).unwrap();
    let _ = b;
    let r = claim_reward(&m, &mut a, 1_999);
    assert!(matches!(r, Err(CandleError::InsufficientFunds)));
    assert!(!a.claimed);
    assert_eq!(claim_reward(&m, &mut a, 2_000).unwrap(), 2_000);
}

#[test]
fn truncated_shares_never_exceed_losing_pool() {
    // Three winners with effective stakes 3, 3 and 4 against a losing
    // pool of 7: each share truncates to 2 and the total 6 stays under
    // 7, with the truncation loss kept by the treasury.
    let m = MarketAccount {
        asset: b"BTC/USDT".to_vec(),
        market_id: 1,
        start_time: START,
        end_time: END,
        lock_time: LOCK,
        open_price: 10_000,
        close_price: 11_000,
        green_pool_weighted: 110,
        red_pool_weighted: 107,
        virtual_liquidity: 100,
        settled: true,
    };
    let mut total = 0u64;
    for eff in [3u64, 3, 4] {
        let bet = UserBetAccount {
            user: wallet(1),
            market: wallet(9),
            side: BetSide::Green,
            amount: eff,
            weight: 100,
            effective_stake: eff,
            claimed: false,
        };
        let p = compute_payout(&m, &bet);
        assert_eq!(p, 2);
        total += p;
    }
    assert!(total <= 107 - 100);
}

#[test]
fn one_sided_market_pays_nothing() {
    let mut m = btc_market(10_000);
    let mut a = place_bet(&mut m, wallet(1), wallet(9), BetSide::Green, 1_000, START + 100)
        .unwrap();
    settle_market(&mut m, 11_000, END).unwrap();
    // Nobody lost anything: the winner gets zero back from the pool.
    assert_eq!(claim_reward(&m, &mut a, TREASURY).unwrap(), 0);
    assert!(a.claimed);
}

#[test]
fn initialize_treasury_keeps_bump() {
    let t = initialize_treasury(254);
    assert_eq!(t.bump, 254);
}
