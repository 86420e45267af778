//! Error kinds returned by the ledger engine and the mirror store.

use vstd::prelude::*;

verus! {

/// Errors of the authoritative ledger program.
///
/// The taxonomy distinguishes temporal errors (an operation attempted
/// outside its valid time window), idempotency errors (replays), and
/// integrity errors (rejected before any state changes), so that a
/// caller can tell "try again later" from "this will never succeed".
#[derive(Clone, Copy, Debug, PartialEq, Eq, Structural)]
pub enum CandleError {
    /// Betting is locked for this market.
    MarketLocked,
    /// The market's window is empty or inverted.
    MarketClosed,
    /// The reward was already claimed.
    AlreadyClaimed,
    /// The market is not yet settled.
    SettlementPending,
    /// Invalid market reference.
    WrongMarket,
    /// Invalid weight tier.
    InvalidWeight,
    /// Unauthorized action (also signalled on double settlement).
    Unauthorized,
    /// The market has not ended yet.
    MarketNotEnded,
    /// The treasury cannot cover the payout.
    InsufficientFunds,
    /// The bet exceeds the maximum allowed size.
    InvalidBetSize,
}

/// Errors of the mirror store.
#[derive(Clone, Copy, Debug, PartialEq, Eq, Structural)]
pub enum StoreError {
    /// A market row with this market id already exists.
    DuplicateMarket,
    /// A bet row for this wallet and market already exists.
    DuplicateBet,
    /// No market row with this market id exists.
    MarketNotFound,
    /// No bet row for this wallet and market exists.
    BetNotFound,
    /// The bet row was already claimed.
    AlreadyClaimed,
}

} // verus!
