//! Account state of the authoritative ledger program.

use vstd::prelude::*;

verus! {

/// The side of a bet: `Green` wins when the window closes above its open,
/// `Red` wins when it closes below.
#[derive(Clone, Copy, Debug, PartialEq, Eq, Structural)]
pub enum BetSide {
    Green,
    Red,
}

impl BetSide {
    /// The side that loses when `self` wins.
    pub open spec fn spec_opposite(self) -> BetSide {
        match self {
            BetSide::Green => BetSide::Red,
            BetSide::Red => BetSide::Green,
        }
    }

    /// The side that loses when `self` wins.
    pub fn opposite(self) -> (o: BetSide)
        ensures
            o == self.spec_opposite(),
    {
        match self {
            BetSide::Green => BetSide::Red,
            BetSide::Red => BetSide::Green,
        }
    }
}

/// One market: a single betting window on the price feed.
///
/// Times are unix seconds.  Prices are integers in the feed's smallest
/// unit (the off-chain layer scales the feed's decimal price before it
/// reaches the ledger).  `close_price` is zero until settlement.
pub struct MarketAccount {
    pub asset: Vec<u8>,
    pub market_id: u64,
    pub start_time: i64,
    pub end_time: i64,
    pub lock_time: i64,
    pub open_price: u64,
    pub close_price: u64,
    pub green_pool_weighted: u64,
    pub red_pool_weighted: u64,
    pub virtual_liquidity: u64,
    pub settled: bool,
}

/// One wallet's bet on one market.  `user` and `market` hold the account
/// addresses (32 bytes each) that identify the bet's owner and market.
pub struct UserBetAccount {
    pub user: Vec<u8>,
    pub market: Vec<u8>,
    pub side: BetSide,
    pub amount: u64,
    pub weight: u64,
    pub effective_stake: u64,
    pub claimed: bool,
}

/// The treasury that escrows stakes and pays rewards.
pub struct TreasuryAccount {
    pub bump: u8,
}

/// The weighted pool total of `m` on side `s`.
pub open spec fn pool_of(m: MarketAccount, s: BetSide) -> u64 {
    match s {
        BetSide::Green => m.green_pool_weighted,
        BetSide::Red => m.red_pool_weighted,
    }
}

/// Well-formedness of a market, established at creation and preserved by
/// every transition: the window is non-empty and starts at a unix-seconds
/// timestamp, betting locks a fixed offset before the end, and both
/// weighted pools cover the virtual-liquidity bootstrap.
pub open spec fn market_well_formed(m: MarketAccount) -> bool {
    &&& 0 <= m.start_time
    &&& m.start_time < m.end_time
    &&& m.lock_time == m.end_time - 600
    &&& m.virtual_liquidity <= m.green_pool_weighted
    &&& m.virtual_liquidity <= m.red_pool_weighted
}

/// A bet accounted for in its market: the bet's effective stake is part
/// of its side's weighted pool, over the virtual-liquidity bootstrap.
pub open spec fn bet_in_market(m: MarketAccount, b: UserBetAccount) -> bool {
    b.effective_stake + m.virtual_liquidity <= pool_of(m, b.side)
}

} // verus!
