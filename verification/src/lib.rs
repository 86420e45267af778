//! A pari-mutuel candle prediction market.
//!
//! Every fixed time window one market is open on a single price feed:
//! participants bet on whether the window's closing price ends above or
//! below its opening price.  Stakes are pooled per side, weighted by how
//! early in the window the bet was placed, and once the window closes the
//! losing pool is split among the winners in proportion to their weighted
//! stakes.
//!
//! The crate verifies the market lifecycle and settlement engine:
//!
//! - [`engine`]: the authoritative ledger transitions (market creation,
//!   bet placement, settlement, claims) with their temporal guards and
//!   the pari-mutuel payout formula, plus the proofs that pools never
//!   drop below the virtual-liquidity floor and that payouts never
//!   exceed the losing pool's real contributions;
//! - [`mirror`]: the queryable mirror store that follows the ledger,
//!   with idempotent market creation and exactly-once claim recording;
//! - [`lifecycle`]: the scheduler's pure decisions (window times,
//!   deterministic market identity, settlement eligibility);
//! - [`wire`]: the ledger program's instruction byte layout;
//! - [`pda`]: derivation of the ledger's deterministic account addresses;
//! - [`oracle`]: the pure parts of the price-feed client.

pub mod config;
pub mod engine;
pub mod lifecycle;
pub mod mirror;
pub mod oracle;
pub mod pda;
pub mod wire;
pub mod errors;
pub mod state;
