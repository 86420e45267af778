//! The authoritative ledger transitions: market creation, bet placement,
//! settlement, and claims, with the pari-mutuel payout formula.

use vstd::prelude::*;
use vstd::arithmetic::div_mod::{lemma_div_is_ordered, lemma_div_multiples_vanish,
    lemma_fundamental_div_mod, lemma_mod_bound};
use vstd::arithmetic::mul::{lemma_mul_inequality, lemma_mul_is_commutative,
    lemma_mul_is_distributive_add_other_way, lemma_mul_upper_bound};

use crate::errors::CandleError;
use crate::state::{bet_in_market, market_well_formed, pool_of, BetSide, MarketAccount,
    TreasuryAccount, UserBetAccount};

verus! {

/// The largest stake a single bet may carry, in the ledger's smallest
/// currency unit.  A guard against whales skewing a pool in one move.
pub const MAX_BET: u64 = 50_000_000;

/// The fixed bootstrap amount both weighted pools start with, so the
/// payout formula never divides by zero before the first bet.
pub const VIRTUAL_LIQUIDITY: u64 = 100;

/// Betting locks this many seconds before the window ends.
pub const LOCK_OFFSET_SECONDS: i64 = 600;

/// The stake multiplier, in percent, for a bet placed `elapsed_seconds`
/// into the window: 100 within the first quarter of a four-hour window,
/// then 70, 50, and 20 from the final quarter on.
pub open spec fn spec_weight_tier(elapsed_seconds: int) -> u64 {
    if elapsed_seconds < 3600 {
        100
    } else if elapsed_seconds < 7200 {
        70
    } else if elapsed_seconds < 10800 {
        50
    } else {
        20
    }
}

/// The weighted stake a bet contributes to its pool: the raw stake
/// scaled by its weight tier, truncated, never rounded up.
pub open spec fn spec_effective_stake(amount: u64, weight: u64) -> int {
    (amount * weight) / 100
}

/// The weighting function, pure and total (see [`spec_weight_tier`]).
pub fn weight_tier(elapsed_seconds: i64) -> (w: u64)
    ensures
        w == spec_weight_tier(elapsed_seconds as int),
{
    if elapsed_seconds < 3600 {
        100
    } else if elapsed_seconds < 7200 {
        70
    } else if elapsed_seconds < 10800 {
        50
    } else {
        20
    }
}

/// A weighted stake never exceeds the raw stake while the weight is at
/// most 100 percent.
pub proof fn lemma_effective_stake_le_amount(amount: u64, weight: u64)
    requires
        weight <= 100,
    ensures
        0 <= spec_effective_stake(amount, weight) <= amount,
{
    lemma_mul_inequality(weight as int, 100, amount as int);
    lemma_mul_is_commutative(amount as int, weight as int);
    lemma_div_is_ordered(amount * weight, amount * 100, 100);
    lemma_mul_is_commutative(amount as int, 100);
    lemma_div_multiples_vanish(amount as int, 100);
    lemma_div_is_ordered(0, amount * weight, 100);
}

/// The market state produced by creation, before any bet.
pub open spec fn spec_new_market(
    asset: Vec<u8>,
    open_price: u64,
    start_time: i64,
    end_time: i64,
    market_id: u64,
) -> MarketAccount {
    MarketAccount {
        asset,
        market_id,
        start_time,
        end_time,
        lock_time: (end_time - LOCK_OFFSET_SECONDS) as i64,
        open_price,
        close_price: 0,
        green_pool_weighted: VIRTUAL_LIQUIDITY,
        red_pool_weighted: VIRTUAL_LIQUIDITY,
        virtual_liquidity: VIRTUAL_LIQUIDITY,
        settled: false,
    }
}

/// Creates the market for one betting window.
///
/// `start_time` is the window's oracle candle start, in unix seconds
/// (hence non-negative).  A window whose end does not lie strictly after
/// its start is rejected with [`CandleError::MarketClosed`]; otherwise
/// the market is returned with both pools bootstrapped to the
/// virtual-liquidity floor and betting locked 600 seconds before the end.
pub fn create_market(
    asset: Vec<u8>,
    open_price: u64,
    start_time: i64,
    end_time: i64,
    market_id: u64,
) -> (r: Result<MarketAccount, CandleError>)
    requires
        0 <= start_time,
    ensures
        end_time <= start_time ==> r == Err::<MarketAccount, CandleError>(
            CandleError::MarketClosed,
        ),
        end_time > start_time ==> r == Ok::<MarketAccount, CandleError>(
            spec_new_market(asset, open_price, start_time, end_time, market_id),
        ),
        r matches Ok(m) ==> market_well_formed(m),
{
    if end_time <= start_time {
        return Err(CandleError::MarketClosed);
    }
    let lock_time = end_time - LOCK_OFFSET_SECONDS;
    Ok(MarketAccount {
        asset,
        market_id,
        start_time,
        end_time,
        lock_time,
        open_price,
        close_price: 0,
        green_pool_weighted: VIRTUAL_LIQUIDITY,
        red_pool_weighted: VIRTUAL_LIQUIDITY,
        virtual_liquidity: VIRTUAL_LIQUIDITY,
        settled: false,
    })
}

/// Initializes the treasury account with its derived bump seed.
pub fn initialize_treasury(bump: u8) -> (t: TreasuryAccount)
    ensures
        t.bump == bump,
{
    TreasuryAccount { bump }
}

/// The bet record produced by an accepted placement.
pub open spec fn spec_new_bet(
    user: Vec<u8>,
    market_address: Vec<u8>,
    side: BetSide,
    amount: u64,
    elapsed_seconds: int,
) -> UserBetAccount {
    let w = spec_weight_tier(elapsed_seconds);
    UserBetAccount {
        user,
        market: market_address,
        side,
        amount,
        weight: w,
        effective_stake: spec_effective_stake(amount, w) as u64,
        claimed: false,
    }
}

/// The market state after a bet request: an accepted bet adds its
/// effective stake to the chosen side's weighted pool; a rejected one
/// (locked window, oversized stake, or a pool at the integer ceiling)
/// leaves the market unchanged.
pub open spec fn spec_apply_bet(
    m: MarketAccount,
    side: BetSide,
    amount: u64,
    now: i64,
) -> MarketAccount {
    let eff = spec_effective_stake(amount, spec_weight_tier(now - m.start_time));
    if now < m.lock_time && amount <= MAX_BET && pool_of(m, side) + eff <= u64::MAX {
        match side {
            BetSide::Green => MarketAccount {
                green_pool_weighted: (m.green_pool_weighted + eff) as u64,
                ..m
            },
            BetSide::Red => MarketAccount {
                red_pool_weighted: (m.red_pool_weighted + eff) as u64,
                ..m
            },
        }
    } else {
        m
    }
}

/// Places a bet on `market`.
///
/// Placement is rejected with [`CandleError::MarketLocked`] from the
/// lock time on, and with [`CandleError::InvalidBetSize`] above
/// [`MAX_BET`]; a rejected bet changes nothing.  An accepted bet is
/// weighted by the tier of its elapsed time (fixed forever), its
/// effective stake joins the chosen pool, and the bet record comes back
/// unclaimed.  Bets timed before the market's start must be rejected
/// upstream; the pool headroom bounds only keep the ledger's fixed-width
/// totals from overflowing.
pub fn place_bet(
    market: &mut MarketAccount,
    user: Vec<u8>,
    market_address: Vec<u8>,
    side: BetSide,
    amount: u64,
    now: i64,
) -> (r: Result<UserBetAccount, CandleError>)
    requires
        market_well_formed(*old(market)),
        now >= old(market).start_time,
        old(market).green_pool_weighted + MAX_BET <= u64::MAX,
        old(market).red_pool_weighted + MAX_BET <= u64::MAX,
    ensures
        market_well_formed(*final(market)),
        *final(market) == spec_apply_bet(*old(market), side, amount, now),
        now >= old(market).lock_time ==> r == Err::<UserBetAccount, CandleError>(
            CandleError::MarketLocked,
        ),
        now < old(market).lock_time && amount > MAX_BET ==> r == Err::<
            UserBetAccount,
            CandleError,
        >(CandleError::InvalidBetSize),
        now < old(market).lock_time && amount <= MAX_BET ==> r == Ok::<
            UserBetAccount,
            CandleError,
        >(spec_new_bet(user, market_address, side, amount, now - old(market).start_time)),
        r matches Ok(b) ==> bet_in_market(*final(market), b),
{
    if now >= market.lock_time {
        return Err(CandleError::MarketLocked);
    }
    if amount > MAX_BET {
        return Err(CandleError::InvalidBetSize);
    }
    let elapsed = now - market.start_time;
    let weight = weight_tier(elapsed);
    proof {
        lemma_mul_upper_bound(amount as int, MAX_BET as int, weight as int, 100);
        lemma_effective_stake_le_amount(amount, weight);
    }
    let effective_stake = (amount * weight) / 100;
    match side {
        BetSide::Green => {
            market.green_pool_weighted = market.green_pool_weighted + effective_stake;
        },
        BetSide::Red => {
            market.red_pool_weighted = market.red_pool_weighted + effective_stake;
        },
    }
    Ok(UserBetAccount {
        user,
        market: market_address,
        side,
        amount,
        weight,
        effective_stake,
        claimed: false,
    })
}

/// The market state after settlement with `close_price` at time `now`.
pub open spec fn spec_settle(
    m: MarketAccount,
    close_price: u64,
    now: i64,
) -> Result<MarketAccount, CandleError> {
    if now < m.end_time {
        Err(CandleError::MarketNotEnded)
    } else if m.settled {
        Err(CandleError::Unauthorized)
    } else {
        Ok(MarketAccount { close_price, settled: true, ..m })
    }
}

/// Settles `market` with the window's closing price.
///
/// Settlement is rejected with [`CandleError::MarketNotEnded`] before
/// the window's end and with [`CandleError::Unauthorized`] once already
/// settled, so concurrent attempts collapse to a single winner.  On
/// success the close price is recorded and the market is marked settled;
/// nothing else changes.
pub fn settle_market(market: &mut MarketAccount, close_price: u64, now: i64) -> (r: Result<
    (),
    CandleError,
>)
    ensures
        match spec_settle(*old(market), close_price, now) {
            Ok(m2) => r == Ok::<(), CandleError>(()) && *final(market) == m2,
            Err(e) => r == Err::<(), CandleError>(e) && *final(market) == *old(market),
        },
        market_well_formed(*old(market)) ==> market_well_formed(*final(market)),
{
    if now < market.end_time {
        return Err(CandleError::MarketNotEnded);
    }
    if market.settled {
        return Err(CandleError::Unauthorized);
    }
    market.close_price = close_price;
    market.settled = true;
    Ok(())
}

/// Settlement succeeds exactly once: once a settlement has gone
/// through, every further attempt fails, so the close price is set
/// exactly once, when `settled` flips from false to true.
pub proof fn lemma_settle_exactly_once(
    m: MarketAccount,
    close1: u64,
    t1: i64,
    close2: u64,
    t2: i64,
)
    requires
        spec_settle(m, close1, t1) is Ok,
    ensures
        spec_settle(m, close1, t1) matches Ok(m2) ==> spec_settle(m2, close2, t2) is Err
            && m2.close_price == close1,
{
}

/// The winning side of a settled market: `Green` when the close is above
/// the open, `Red` when below, and none on an exact tie.
pub open spec fn spec_winning_side(m: MarketAccount) -> Option<BetSide> {
    if m.close_price > m.open_price {
        Some(BetSide::Green)
    } else if m.close_price < m.open_price {
        Some(BetSide::Red)
    } else {
        None
    }
}

/// The pari-mutuel share of the losing pool owed to a winning stake of
/// `eff`: both pools net of the virtual-liquidity bootstrap, and the
/// loser total split in proportion to the winner's share, truncated.
/// Zero whenever either side holds no real stake.
pub open spec fn spec_payout_amount(eff: u64, winning_pool: u64, losing_pool: u64, vl: u64) -> int {
    let total_winning = if winning_pool >= vl {
        winning_pool - vl
    } else {
        0
    };
    let total_losing = if losing_pool >= vl {
        losing_pool - vl
    } else {
        0
    };
    if total_winning == 0 || total_losing == 0 {
        0
    } else {
        (eff * total_losing) / total_winning
    }
}

/// A winning stake no larger than the winners' total is owed no more
/// than the losers' total: its proportional share of the losing pool
/// cannot exceed that pool.
pub proof fn lemma_payout_amount_bounded(eff: u64, winning_pool: u64, losing_pool: u64, vl: u64)
    requires
        vl <= winning_pool,
        eff + vl <= winning_pool,
    ensures
        0 <= spec_payout_amount(eff, winning_pool, losing_pool, vl) <= losing_pool,
{
    let tw = winning_pool - vl;
    let tl = if losing_pool >= vl {
        (losing_pool - vl) as int
    } else {
        0
    };
    if tw != 0 && tl != 0 {
        lemma_mul_inequality(eff as int, tw, tl);
        lemma_div_is_ordered(eff * tl, tw * tl, tw);
        lemma_mul_is_commutative(tw, tl);
        lemma_div_multiples_vanish(tl, tw);
        lemma_div_is_ordered(0, eff * tl, tw);
    }
}

/// The payout a claim on `(m, b)` yields: zero unless the market is
/// settled with a winner, the bet is unclaimed, it sits on the winning
/// side, and both sides hold real stake; otherwise the winner's
/// proportional share of the losing pool.
pub open spec fn spec_payout(m: MarketAccount, b: UserBetAccount) -> int {
    if !m.settled || b.claimed {
        0
    } else {
        match spec_winning_side(m) {
            None => 0,
            Some(w) => if b.side == w {
                spec_payout_amount(
                    b.effective_stake,
                    pool_of(m, w),
                    pool_of(m, w.spec_opposite()),
                    m.virtual_liquidity,
                )
            } else {
                0
            },
        }
    }
}

/// Computes a bettor's payout without touching any state (the claimable
/// preview): exactly [`spec_payout`] on every input.
pub fn compute_payout(market: &MarketAccount, bet: &UserBetAccount) -> (p: u64)
    requires
        market_well_formed(*market),
        bet_in_market(*market, *bet),
    ensures
        p == spec_payout(*market, *bet),
{
    if !market.settled || bet.claimed {
        return 0;
    }
    let winning_side = if market.close_price > market.open_price {
        BetSide::Green
    } else if market.close_price < market.open_price {
        BetSide::Red
    } else {
        return 0;
    };
    if bet.side != winning_side {
        return 0;
    }
    let winning_pool = match winning_side {
        BetSide::Green => market.green_pool_weighted,
        BetSide::Red => market.red_pool_weighted,
    };
    let losing_pool = match winning_side {
        BetSide::Green => market.red_pool_weighted,
        BetSide::Red => market.green_pool_weighted,
    };
    let total_winning = winning_pool - market.virtual_liquidity;
    let total_losing = losing_pool - market.virtual_liquidity;
    if total_winning == 0 || total_losing == 0 {
        return 0;
    }
    proof {
        lemma_payout_amount_bounded(
            bet.effective_stake,
            winning_pool,
            losing_pool,
            market.virtual_liquidity,
        );
        lemma_mul_upper_bound(
            bet.effective_stake as int,
            u64::MAX as int,
            total_losing as int,
            u64::MAX as int,
        );
    }
    (((bet.effective_stake as u128) * (total_losing as u128)) / (total_winning as u128)) as u64
}

/// The outcome of a claim on `(m, b)` with `treasury_lamports` in the
/// treasury: the payout and the bet marked claimed, or the error that
/// leaves the bet untouched.
pub open spec fn spec_claim(m: MarketAccount, b: UserBetAccount, treasury_lamports: u64) -> Result<
    (int, UserBetAccount),
    CandleError,
> {
    if !m.settled {
        Err(CandleError::SettlementPending)
    } else if b.claimed {
        Err(CandleError::AlreadyClaimed)
    } else if spec_payout(m, b) > treasury_lamports {
        Err(CandleError::InsufficientFunds)
    } else {
        Ok((spec_payout(m, b), UserBetAccount { claimed: true, ..b }))
    }
}

/// Claims a bet's reward.
///
/// Rejected with [`CandleError::SettlementPending`] before settlement
/// and with [`CandleError::AlreadyClaimed`] on a replay — a second claim
/// is an error, never a silent zero-payout success — and with
/// [`CandleError::InsufficientFunds`] when the treasury cannot cover the
/// payout; every rejection leaves the bet untouched.  On success the
/// payout of [`spec_payout`] is returned (zero on a flat candle, a lost
/// bet, or an empty side) and the bet is marked claimed.  The caller
/// transfers the returned amount out of the treasury.
pub fn claim_reward(
    market: &MarketAccount,
    user_bet: &mut UserBetAccount,
    treasury_lamports: u64,
) -> (r: Result<u64, CandleError>)
    requires
        market_well_formed(*market),
        bet_in_market(*market, *old(user_bet)),
    ensures
        match spec_claim(*market, *old(user_bet), treasury_lamports) {
            Ok(p) => r == Ok::<u64, CandleError>(p.0 as u64) && *final(user_bet) == p.1 && p.0
                <= u64::MAX,
            Err(e) => r == Err::<u64, CandleError>(e) && *final(user_bet) == *old(user_bet),
        },
{
    if !market.settled {
        return Err(CandleError::SettlementPending);
    }
    if user_bet.claimed {
        return Err(CandleError::AlreadyClaimed);
    }
    let payout = compute_payout(market, user_bet);
    if payout > treasury_lamports {
        return Err(CandleError::InsufficientFunds);
    }
    user_bet.claimed = true;
    Ok(payout)
}

/// Claim is exactly-once: after a successful claim, a second claim on
/// the same bet fails with [`CandleError::AlreadyClaimed`] and changes
/// nothing, whatever the treasury then holds.
pub proof fn lemma_claim_exactly_once(
    m: MarketAccount,
    b: UserBetAccount,
    t1: u64,
    t2: u64,
)
    requires
        spec_claim(m, b, t1) is Ok,
    ensures
        spec_claim(m, b, t1) matches Ok(p) ==> spec_claim(m, p.1, t2) == Err::<
            (int, UserBetAccount),
            CandleError,
        >(CandleError::AlreadyClaimed),
{
}


/// The total of a sequence of effective stakes.
pub open spec fn spec_sum_stakes(effs: Seq<u64>) -> int
    decreases effs.len(),
{
    if effs.len() == 0 {
        0
    } else {
        spec_sum_stakes(effs.drop_last()) + effs.last()
    }
}

/// The total paid to a sequence of winning effective stakes under one
/// final pool state.
pub open spec fn spec_sum_payouts(effs: Seq<u64>, winning_pool: u64, losing_pool: u64, vl: u64) -> int
    decreases effs.len(),
{
    if effs.len() == 0 {
        0
    } else {
        spec_sum_payouts(effs.drop_last(), winning_pool, losing_pool, vl) + spec_payout_amount(
            effs.last(),
            winning_pool,
            losing_pool,
            vl,
        )
    }
}

proof fn lemma_sum_payouts_scaled(effs: Seq<u64>, winning_pool: u64, losing_pool: u64, vl: u64)
    requires
        vl < winning_pool,
        vl < losing_pool,
    ensures
        0 <= spec_sum_payouts(effs, winning_pool, losing_pool, vl),
        spec_sum_payouts(effs, winning_pool, losing_pool, vl) * (winning_pool - vl)
            <= spec_sum_stakes(effs) * (losing_pool - vl),
    decreases effs.len(),
{
    let tw = winning_pool - vl;
    let tl = losing_pool - vl;
    if effs.len() > 0 {
        lemma_sum_payouts_scaled(effs.drop_last(), winning_pool, losing_pool, vl);
        let rest_p = spec_sum_payouts(effs.drop_last(), winning_pool, losing_pool, vl);
        let rest_s = spec_sum_stakes(effs.drop_last());
        let e = effs.last() as int;
        let p = spec_payout_amount(effs.last(), winning_pool, losing_pool, vl);
        assert(p == (e * tl) / tw);
        lemma_fundamental_div_mod(e * tl, tw);
        lemma_mod_bound(e * tl, tw);
        lemma_mul_is_commutative(tw, p);
        assert(p * tw <= e * tl);
        lemma_div_is_ordered(0, e * tl, tw);
        lemma_mul_is_commutative(e, tl);
        lemma_mul_inequality(0, tl, e);
        assert(0 <= e * tl);
        assert(0 <= p);
        lemma_mul_is_distributive_add_other_way(tw, rest_p, p);
        lemma_mul_is_distributive_add_other_way(tl, rest_s, e);
        assert((rest_p + p) * tw == rest_p * tw + p * tw);
        assert((rest_s + e) * tl == rest_s * tl + e * tl);
    }
}

/// No over-payment: however the losing pool is split, the payouts owed
/// to winning stakes that together total at most the winners' pool
/// (net of virtual liquidity) never exceed the losers' pool (net of
/// virtual liquidity).  Truncation in each share only loses value.
pub proof fn lemma_no_overpayment(effs: Seq<u64>, winning_pool: u64, losing_pool: u64, vl: u64)
    requires
        vl <= winning_pool,
        vl <= losing_pool,
        spec_sum_stakes(effs) <= winning_pool - vl,
    ensures
        spec_sum_payouts(effs, winning_pool, losing_pool, vl) <= losing_pool - vl,
{
    let tw = (winning_pool - vl) as int;
    let tl = (losing_pool - vl) as int;
    if tw == 0 || tl == 0 {
        lemma_sum_payouts_degenerate(effs, winning_pool, losing_pool, vl);
    } else {
        lemma_sum_payouts_scaled(effs, winning_pool, losing_pool, vl);
        let sp = spec_sum_payouts(effs, winning_pool, losing_pool, vl);
        let ss = spec_sum_stakes(effs);
        lemma_mul_inequality(ss, tw, tl);
        assert(sp * tw <= tw * tl) by {
            lemma_mul_is_commutative(ss, tl);
            lemma_mul_is_commutative(tw, tl);
        }
        lemma_div_is_ordered(sp * tw, tw * tl, tw);
        lemma_mul_is_commutative(sp, tw);
        lemma_div_multiples_vanish(sp, tw);
        lemma_div_multiples_vanish(tl, tw);
        lemma_mul_is_commutative(tw, tl);
    }
}

proof fn lemma_sum_payouts_degenerate(effs: Seq<u64>, winning_pool: u64, losing_pool: u64, vl: u64)
    requires
        winning_pool == vl || losing_pool == vl,
        vl <= winning_pool,
        vl <= losing_pool,
    ensures
        spec_sum_payouts(effs, winning_pool, losing_pool, vl) == 0,
    decreases effs.len(),
{
    if effs.len() > 0 {
        lemma_sum_payouts_degenerate(effs.drop_last(), winning_pool, losing_pool, vl);
    }
}

/// One bet request, as the pool-floor law quantifies over them: a side,
/// a raw stake, and the time of placement.
pub struct BetRequest {
    pub side: BetSide,
    pub amount: u64,
    pub now: i64,
}

/// The market state after a whole sequence of bet requests, valid or
/// not: each is applied with [`spec_apply_bet`], so rejected requests
/// leave the market as it was.
pub open spec fn spec_apply_bets(m: MarketAccount, reqs: Seq<BetRequest>) -> MarketAccount
    decreases reqs.len(),
{
    if reqs.len() == 0 {
        m
    } else {
        let prev = spec_apply_bets(m, reqs.drop_last());
        spec_apply_bet(prev, reqs.last().side, reqs.last().amount, reqs.last().now)
    }
}

/// The pool floor holds forever: after any sequence of bet requests on a
/// well-formed market, both weighted pools still cover the
/// virtual-liquidity bootstrap (so each pool net of the bootstrap, the
/// true user-contributed stake, is never negative), and the market stays
/// well formed.
pub proof fn lemma_pools_cover_virtual_liquidity(m: MarketAccount, reqs: Seq<BetRequest>)
    requires
        market_well_formed(m),
    ensures
        market_well_formed(spec_apply_bets(m, reqs)),
        spec_apply_bets(m, reqs).virtual_liquidity <= spec_apply_bets(m, reqs).green_pool_weighted,
        spec_apply_bets(m, reqs).virtual_liquidity <= spec_apply_bets(m, reqs).red_pool_weighted,
        spec_apply_bets(m, reqs).virtual_liquidity == m.virtual_liquidity,
    decreases reqs.len(),
{
    if reqs.len() > 0 {
        lemma_pools_cover_virtual_liquidity(m, reqs.drop_last());
        let prev = spec_apply_bets(m, reqs.drop_last());
        let req = reqs.last();
        lemma_effective_stake_le_amount(req.amount, spec_weight_tier(req.now - prev.start_time));
    }
}


/// The effective stakes of the accepted bets on one side, in order of
/// placement, out of a sequence of bet requests applied to `m`.
pub open spec fn spec_accepted_stakes(m: MarketAccount, reqs: Seq<BetRequest>, side: BetSide) -> Seq<
    u64,
>
    decreases reqs.len(),
{
    if reqs.len() == 0 {
        Seq::empty()
    } else {
        let prev = spec_apply_bets(m, reqs.drop_last());
        let rest = spec_accepted_stakes(m, reqs.drop_last(), side);
        let req = reqs.last();
        let eff = spec_effective_stake(req.amount, spec_weight_tier(req.now - prev.start_time));
        if req.side == side && req.now < prev.lock_time && req.amount <= MAX_BET && pool_of(
            prev,
            req.side,
        ) + eff <= u64::MAX {
            rest.push(eff as u64)
        } else {
            rest
        }
    }
}

/// A side's weighted pool grows by exactly the accepted stakes on that
/// side: removing the starting total at any time yields the true
/// user-contributed weighted stake.
pub proof fn lemma_accepted_stakes_sum(m: MarketAccount, reqs: Seq<BetRequest>, side: BetSide)
    ensures
        spec_sum_stakes(spec_accepted_stakes(m, reqs, side)) == pool_of(
            spec_apply_bets(m, reqs),
            side,
        ) - pool_of(m, side),
    decreases reqs.len(),
{
    if reqs.len() > 0 {
        lemma_accepted_stakes_sum(m, reqs.drop_last(), side);
        let prev = spec_apply_bets(m, reqs.drop_last());
        let req = reqs.last();
        let eff = spec_effective_stake(req.amount, spec_weight_tier(req.now - prev.start_time));
        lemma_effective_stake_le_amount(req.amount, spec_weight_tier(req.now - prev.start_time));
        let cur = spec_apply_bet(prev, req.side, req.amount, req.now);
        let rest = spec_accepted_stakes(m, reqs.drop_last(), side);
        if req.now < prev.lock_time && req.amount <= MAX_BET && pool_of(prev, req.side) + eff
            <= u64::MAX {
            if req.side == side {
                assert(pool_of(cur, side) == pool_of(prev, side) + eff);
                assert(spec_accepted_stakes(m, reqs, side) == rest.push(eff as u64));
                assert(rest.push(eff as u64).drop_last() =~= rest);
                assert(spec_sum_stakes(rest.push(eff as u64)) == spec_sum_stakes(rest) + eff);
            } else {
                assert(pool_of(cur, side) == pool_of(prev, side));
            }
        } else {
            assert(cur == prev);
        }
    }
}

/// No over-payment, market-wide: start from a fresh market, apply any
/// sequence of bet requests, and settle to a non-tie outcome; then the
/// payouts owed to every accepted bet on the winning side together
/// never exceed the losing pool net of the virtual liquidity — the
/// treasury is never asked for more than the losers put in.
pub proof fn lemma_market_conservation(
    m: MarketAccount,
    reqs: Seq<BetRequest>,
    close_price: u64,
    now: i64,
)
    requires
        market_well_formed(m),
        m.green_pool_weighted == m.virtual_liquidity,
        m.red_pool_weighted == m.virtual_liquidity,
        spec_settle(spec_apply_bets(m, reqs), close_price, now) is Ok,
    ensures
        spec_settle(spec_apply_bets(m, reqs), close_price, now) matches Ok(settled)
            ==> (spec_winning_side(settled) matches Some(w) ==> spec_sum_payouts(
            spec_accepted_stakes(m, reqs, w),
            pool_of(settled, w),
            pool_of(settled, w.spec_opposite()),
            settled.virtual_liquidity,
        ) <= pool_of(settled, w.spec_opposite()) - settled.virtual_liquidity),
{
    let m1 = spec_apply_bets(m, reqs);
    lemma_pools_cover_virtual_liquidity(m, reqs);
    match spec_settle(m1, close_price, now) {
        Err(_) => (),
        Ok(settled) => match spec_winning_side(settled) {
            None => (),
            Some(w) => {
                lemma_accepted_stakes_sum(m, reqs, w);
                assert(pool_of(m, w) == m.virtual_liquidity);
                assert(settled.virtual_liquidity == m.virtual_liquidity);
                assert(pool_of(settled, w) == pool_of(m1, w));
                assert(pool_of(settled, w.spec_opposite()) == pool_of(m1, w.spec_opposite()));
                assert(m1.virtual_liquidity <= pool_of(m1, w));
                assert(m1.virtual_liquidity <= pool_of(m1, w.spec_opposite()));
                assert(spec_sum_stakes(spec_accepted_stakes(m, reqs, w)) == pool_of(m1, w)
                    - m.virtual_liquidity);
                lemma_no_overpayment(
                    spec_accepted_stakes(m, reqs, w),
                    pool_of(settled, w),
                    pool_of(settled, w.spec_opposite()),
                    settled.virtual_liquidity,
                );
            },
        },
    }
}

} // verus!
