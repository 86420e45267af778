use candle_markets::errors::StoreError;
use candle_markets::mirror::MirrorStore;
use candle_markets::state::BetSide;

const START: i64 = 1_700_000_000;
const END: i64 = START + 14_400;
const LOCK: i64 = END - 600;

fn wallet(tag: u8) -> Vec<u8> {
    vec![tag; 32]
}

fn store_with_market(market_id: i64) -> MirrorStore {
    let mut s = MirrorStore::new();
    s.insert_market(market_id, b"BTC/USDT".to_vec(), START, END, LOCK, 10_000)
        .unwrap();
    s
}

#[test]
fn insert_market_stores_bootstrapped_row() {
    let s = store_with_market(7);
    assert_eq!(s.markets.len(), 1);
    let m = &s.markets[0];
    assert_eq!(m.id, 1);
    assert_eq!(m.market_id, 7);
    assert_eq!(m.open_price, 10_000);
    assert_eq!(m.close_price, None);
    assert_eq!(m.green_pool_weighted, 100);
    assert_eq!(m.red_pool_weighted, 100);
    assert_eq!(m.virtual_liquidity, 100);
    assert!(!m.settled);
}

#[test]
fn insert_market_refuses_duplicate_id() {
    let mut s = store_with_market(7);
    let r = s.insert_market(7, b"BTC/USDT".to_vec(), START, END, LOCK, 10_500);
    assert!(matches!(r, Err(StoreError::DuplicateMarket)));
    assert_eq!(s.markets.len(), 1);
    assert_eq!(s.markets[0].open_price, 10_000);
}

#[test]
fn market_creation_is_idempotent() {
    // Creating a market for the same derived id twice yields one
    // stored market, not two — scheduled job and manual trigger alike.
    let mut s = MirrorStore::new();
    let created = s.create_market_if_absent(7, b"BTC/USDT".to_vec(), START, END, LOCK, 10_000);
    assert!(created);
    let created = s.create_market_if_absent(7, b"BTC/USDT".to_vec(), START, END, LOCK, 10_000);
    assert!(!created);
    assert_eq!(s.markets.len(), 1);
}

#[test]
fn update_market_settlement_records_close() {
    let mut s = store_with_market(7);
    s.update_market_settlement(7, 11_000, true);
    assert_eq!(s.markets[0].close_price, Some(11_000));
    assert!(s.markets[0].settled);
    // An unknown market id changes nothing.
    s.update_market_settlement(8, 12_000, true);
    assert_eq!(s.markets.len(), 1);
    assert_eq!(s.markets[0].close_price, Some(11_000));
}

#[test]
fn insert_bet_refuses_second_bet_per_wallet_and_market() {
    let mut s = store_with_market(7);
    s.insert_bet(wallet(1), 7, BetSide::Green, 1_000, 100, 1_000, START + 100)
        .unwrap();
    let r = s.insert_bet(wallet(1), 7, BetSide::Red, 500, 100, 500, START + 200);
    assert!(matches!(r, Err(StoreError::DuplicateBet)));
    assert_eq!(s.bets.len(), 1);
    assert!(matches!(s.bets[0].side, BetSide::Green));
}

#[test]
fn claim_recording_is_exactly_once() {
    // A second claim on the same (wallet, market) after a successful
    // first claim returns AlreadyClaimed and never changes the payout.
    let mut s = store_with_market(7);
    s.insert_bet(wallet(1), 7, BetSide::Green, 1_000, 100, 1_000, START + 100)
        .unwrap();
    s.mark_bet_claimed(&wallet(1), 7, 2_000).unwrap();
    assert_eq!(s.bets[0].payout, Some(2_000));
    assert!(s.bets[0].claimed);
    let r = s.mark_bet_claimed(&wallet(1), 7, 999);
    assert!(matches!(r, Err(StoreError::AlreadyClaimed)));
    assert_eq!(s.bets[0].payout, Some(2_000));
    let r = s.mark_bet_claimed(&wallet(2), 7, 999);
    assert!(matches!(r, Err(StoreError::BetNotFound)));
}

#[test]
fn preview_payout_matches_ledger_formula() {
    // The same numbers as the ledger example: pools 1100/2100 after an
    // up win, stake 1000 on the winning side pays 2000.
    let mut s = store_with_market(7);
    s.insert_bet(wallet(1), 7, BetSide::Green, 1_000, 100, 1_000, START + 100)
        .unwrap();
    s.insert_bet(wallet(2), 7, BetSide::Red, 2_000, 100, 2_000, START + 100)
        .unwrap();
    s.markets[0].green_pool_weighted = 1_100;
    s.markets[0].red_pool_weighted = 2_100;
    // Before settlement nothing is claimable.
    assert_eq!(s.compute_user_payout(&wallet(1), 7), 0);
    s.update_market_settlement(7, 11_000, true);
    assert_eq!(s.compute_user_payout(&wallet(1), 7), 2_000);
    assert_eq!(s.compute_user_payout(&wallet(2), 7), 0);
    // A wallet without a bet, or an unknown market, previews zero.
    assert_eq!(s.compute_user_payout(&wallet(3), 7), 0);
    assert_eq!(s.compute_user_payout(&wallet(1), 8), 0);
    // Once claimed, the preview drops to zero.
    s.mark_bet_claimed(&wallet(1), 7, 2_000).unwrap();
    assert_eq!(s.compute_user_payout(&wallet(1), 7), 0);
}

#[test]
fn preview_payout_zero_on_flat_candle() {
    let mut s = store_with_market(7);
    s.insert_bet(wallet(1), 7, BetSide::Green, 1_000, 100, 1_000, START + 100)
        .unwrap();
    s.markets[0].green_pool_weighted = 1_100;
    s.markets[0].red_pool_weighted = 2_100;
    s.update_market_settlement(7, 10_000, true);
    assert_eq!(s.compute_user_payout(&wallet(1), 7), 0);
}

#[test]
fn record_claim_is_exactly_once_and_logs_payout() {
    let mut s = store_with_market(7);
    s.insert_bet(wallet(1), 7, BetSide::Green, 1_000, 100, 1_000, START + 100)
        .unwrap();
    s.markets[0].green_pool_weighted = 1_100;
    s.markets[0].red_pool_weighted = 2_100;
    s.update_market_settlement(7, 11_000, true);
    let p = s.record_claim(&wallet(1), 7, b"sig-1".to_vec()).unwrap();
    assert_eq!(p, 2_000);
    assert_eq!(s.payouts.len(), 1);
    assert_eq!(s.payouts[0].lamports, 2_000);
    assert_eq!(s.payouts[0].tx_signature, b"sig-1".to_vec());
    let r = s.record_claim(&wallet(1), 7, b"sig-2".to_vec());
    assert!(matches!(r, Err(StoreError::AlreadyClaimed)));
    assert_eq!(s.payouts.len(), 1);
    assert_eq!(s.bets[0].payout, Some(2_000));
}

#[test]
fn latest_and_by_id_lookups() {
    let mut s = MirrorStore::new();
    assert!(s.get_latest_market().is_none());
    s.insert_market(7, b"BTC/USDT".to_vec(), START, END, LOCK, 10_000)
        .unwrap();
    s.insert_market(8, b"BTC/USDT".to_vec(), START + 14_400, END + 14_400, LOCK + 14_400, 10_100)
        .unwrap();
    assert_eq!(s.get_latest_market().unwrap().market_id, 8);
    assert_eq!(s.get_market_from_db(7).unwrap().open_price, 10_000);
    assert!(s.get_market_from_db(9).is_none());
}

#[test]
fn active_and_expired_market_queries() {
    let mut s = MirrorStore::new();
    s.insert_market(7, b"BTC/USDT".to_vec(), START, END, LOCK, 10_000)
        .unwrap();
    s.insert_market(8, b"BTC/USDT".to_vec(), START + 14_400, END + 14_400, LOCK + 14_400, 10_100)
        .unwrap();
    s.insert_market(9, b"BTC/USDT".to_vec(), START + 28_800, END + 28_800, LOCK + 28_800, 10_200)
        .unwrap();
    s.update_market_settlement(7, 11_000, true);
    let active = s.get_active_markets();
    assert_eq!(active.len(), 2);
    assert_eq!(active[0].market_id, 8);
    assert_eq!(active[1].market_id, 9);
    // At a time after market 8's window but before market 9's end,
    // only market 8 is due: 7 is settled, 9 still runs.
    let due = s.get_expired_unsettled_markets(END + 14_400);
    assert_eq!(due.len(), 1);
    assert_eq!(due[0].market_id, 8);
}

#[test]
fn positions_split_by_market_settlement() {
    let mut s = MirrorStore::new();
    s.insert_market(7, b"BTC/USDT".to_vec(), START, END, LOCK, 10_000)
        .unwrap();
    s.insert_market(8, b"BTC/USDT".to_vec(), START + 14_400, END + 14_400, LOCK + 14_400, 10_100)
        .unwrap();
    s.insert_bet(wallet(1), 7, BetSide::Green, 1_000, 100, 1_000, START + 100)
        .unwrap();
    s.insert_bet(wallet(1), 8, BetSide::Red, 500, 70, 350, START + 14_500)
        .unwrap();
    s.insert_bet(wallet(2), 8, BetSide::Green, 700, 100, 700, START + 14_500)
        .unwrap();
    s.update_market_settlement(7, 11_000, true);
    s.mark_bet_claimed(&wallet(1), 7, 2_000).unwrap();
    let (open, settled) = s.get_user_positions(&wallet(1));
    assert_eq!(open.len(), 1);
    assert_eq!(open[0].market_id, 8);
    assert!(matches!(open[0].side, BetSide::Red));
    assert_eq!(open[0].weight, 70);
    assert_eq!(open[0].effective_stake, 350);
    assert!(!open[0].settled);
    assert_eq!(settled.len(), 1);
    assert_eq!(settled[0].market_id, 7);
    assert_eq!(settled[0].payout, Some(2_000));
    assert!(settled[0].settled);
}

#[test]
fn aggregate_pnl_upserts() {
    let mut s = MirrorStore::new();
    let z = s.get_user_pnl(&wallet(1));
    assert_eq!(z.total_pnl, 0);
    assert_eq!(z.total_bets, 0);
    s.update_pnl(wallet(1), 1_000);
    s.update_pnl(wallet(1), -300);
    s.update_pnl(wallet(2), 42);
    let p = s.get_user_pnl(&wallet(1));
    assert_eq!(p.total_pnl, 700);
    assert_eq!(p.total_bets, 2);
    let q = s.get_user_pnl(&wallet(2));
    assert_eq!(q.total_pnl, 42);
    assert_eq!(q.total_bets, 1);
}

#[test]
fn enhanced_pnl_counts_settled_bets_and_streak() {
    let mut s = MirrorStore::new();
    for (market_id, offset) in [(7i64, 0i64), (8, 14_400), (9, 28_800)] {
        s.insert_market(
            market_id,
            b"BTC/USDT".to_vec(),
            START + offset,
            END + offset,
            LOCK + offset,
            10_000,
        )
        .unwrap();
    }
    // Oldest first: a win, a loss, then a win — so the current streak,
    // counted from the most recent backwards, is 1.
    s.insert_bet(wallet(1), 7, BetSide::Green, 1_000, 100, 1_000, START + 100)
        .unwrap();
    s.insert_bet(wallet(1), 8, BetSide::Red, 500, 100, 500, START + 14_500)
        .unwrap();
    s.insert_bet(wallet(1), 9, BetSide::Green, 400, 100, 400, START + 28_900)
        .unwrap();
    for market_id in [7i64, 8, 9] {
        s.update_market_settlement(market_id, 11_000, true);
    }
    s.mark_bet_claimed(&wallet(1), 7, 2_000).unwrap();
    s.mark_bet_claimed(&wallet(1), 8, 0).unwrap();
    s.mark_bet_claimed(&wallet(1), 9, 800).unwrap();
    let stats = s.get_enhanced_pnl(&wallet(1));
    assert_eq!(stats.total_pnl, (2_000 - 1_000) + (0 - 500) + (800 - 400));
    assert_eq!(stats.wins, 2);
    assert_eq!(stats.settled_count, 3);
    assert_eq!(stats.streak, 1);
}

#[test]
fn enhanced_pnl_ignores_unsettled_and_unclaimed_bets() {
    let mut s = store_with_market(7);
    s.insert_bet(wallet(1), 7, BetSide::Green, 1_000, 100, 1_000, START + 100)
        .unwrap();
    // Market unsettled and payout unrecorded: no stats rows yet.
    let stats = s.get_enhanced_pnl(&wallet(1));
    assert_eq!(stats.settled_count, 0);
    assert_eq!(stats.total_pnl, 0);
    assert_eq!(stats.streak, 0);
}
