//! The lifecycle controller's pure decisions.
//!
//! Two periodic jobs drive the market lifecycle: creation once per
//! window and a settlement poll on a shorter cadence.  Everything they
//! decide — window boundaries, the deterministic market identity, and
//! which markets a settlement pass may touch — is computed here from
//! plain values; the scheduler around it only fetches candles, submits
//! ledger transactions, and mirrors confirmed outcomes.

use vstd::prelude::*;
use crate::engine::LOCK_OFFSET_SECONDS;

verus! {

/// The betting window length in seconds (four hours), also the creation
/// job's cadence.
pub const WINDOW_SECONDS: i64 = 14400;

/// The fixed offset added to a candle's start timestamp to form the
/// market id, so identities from earlier deployments cannot collide
/// with new ones.
pub const MARKET_ID_OFFSET: i64 = 7000;

/// Market ids below this bound predate the deterministic derivation and
/// are never settled by the scheduled pass.
pub const LEGACY_MARKET_ID_MIN: i64 = 1_700_000_000;

/// Everything the creation job derives from one oracle candle: the
/// window, its lock time, and the market's deterministic identity.
#[derive(Clone, Copy, Debug, PartialEq, Eq, Structural)]
pub struct CreationPlan {
    pub market_id: i64,
    pub start_time: i64,
    pub end_time: i64,
    pub lock_time: i64,
    pub open_price: u64,
}

/// Plans the market for the window whose oracle candle starts at
/// `candle_timestamp` (unix seconds) and opened at `open_price`.
///
/// The window runs one [`WINDOW_SECONDS`] from the candle start,
/// betting locks [`LOCK_OFFSET_SECONDS`] before the end, and the market
/// id is the candle start plus [`MARKET_ID_OFFSET`] — derived, never
/// counted, so repeating the plan for the same candle yields the same
/// identity and creation stays idempotent under restarts and races.
pub fn plan_market_creation(candle_timestamp: i64, open_price: u64) -> (p: CreationPlan)
    requires
        0 <= candle_timestamp,
        candle_timestamp + WINDOW_SECONDS <= i64::MAX,
    ensures
        p.market_id == candle_timestamp + MARKET_ID_OFFSET,
        p.start_time == candle_timestamp,
        p.end_time == candle_timestamp + WINDOW_SECONDS,
        p.lock_time == p.end_time - LOCK_OFFSET_SECONDS,
        p.open_price == open_price,
{
    let end_time = candle_timestamp + WINDOW_SECONDS;
    CreationPlan {
        market_id: candle_timestamp + MARKET_ID_OFFSET,
        start_time: candle_timestamp,
        end_time,
        lock_time: end_time - LOCK_OFFSET_SECONDS,
        open_price,
    }
}

/// What a settlement pass does with one market it found expired and
/// unsettled.
#[derive(Clone, Copy, Debug, PartialEq, Eq, Structural)]
pub enum SettleDecision {
    /// A legacy identity from before the deterministic derivation:
    /// never touched.
    SkipLegacy,
    /// Not yet due: either already settled or its window still runs.
    NotDue,
    /// Submit settlement to the ledger, then mirror the outcome.
    Settle,
}

/// The settlement decision as a function of the market's row state and
/// the current time.
pub open spec fn spec_settle_decision(
    market_id: i64,
    settled: bool,
    end_time: i64,
    now: i64,
) -> SettleDecision {
    if market_id < LEGACY_MARKET_ID_MIN {
        SettleDecision::SkipLegacy
    } else if settled || end_time > now {
        SettleDecision::NotDue
    } else {
        SettleDecision::Settle
    }
}

/// Decides what the settlement pass does with one market (see
/// [`spec_settle_decision`]).  A failure on one market only skips that
/// market; the pass continues with the rest, and the next pass retries.
pub fn settle_decision(market_id: i64, settled: bool, end_time: i64, now: i64) -> (d:
    SettleDecision)
    ensures
        d == spec_settle_decision(market_id, settled, end_time, now),
{
    if market_id < LEGACY_MARKET_ID_MIN {
        SettleDecision::SkipLegacy
    } else if settled || end_time > now {
        SettleDecision::NotDue
    } else {
        SettleDecision::Settle
    }
}

} // verus!
