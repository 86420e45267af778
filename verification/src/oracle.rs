//! The pure parts of the price-feed client.
//!
//! Fetching candles is the unverified boundary's job; what the library
//! owns is the candle model the lifecycle works on — prices as integers
//! in the feed's smallest unit — and the feed's interval arithmetic.

use vstd::prelude::*;

verus! {

/// One OHLC candle, with prices scaled to integers in the feed's
/// smallest unit and the candle's start as a unix-seconds timestamp.
#[derive(Clone, Copy, Debug, PartialEq, Eq, Structural)]
pub struct Candle {
    pub open: u64,
    pub high: u64,
    pub low: u64,
    pub close: u64,
    pub timestamp: i64,
}

/// Converts a candle length in hours to the fallback feed's resolution
/// in minutes.
pub fn hours_to_resolution_minutes(hours: i64) -> (m: i64)
    requires
        i64::MIN <= hours * 60 <= i64::MAX,
    ensures
        m == hours * 60,
{
    hours * 60
}

/// The primary feed's interval token for a candle length in hours:
/// only whole intervals of 1, 2, 4, 6 or 12 hours and one day exist,
/// and every other length is rejected.
pub fn binance_interval(hours: i64) -> (r: Option<&'static str>)
    ensures
        hours == 1 ==> (r matches Some(s) && s@ == "1h"@),
        hours == 2 ==> (r matches Some(s) && s@ == "2h"@),
        hours == 4 ==> (r matches Some(s) && s@ == "4h"@),
        hours == 6 ==> (r matches Some(s) && s@ == "6h"@),
        hours == 12 ==> (r matches Some(s) && s@ == "12h"@),
        hours == 24 ==> (r matches Some(s) && s@ == "1d"@),
        r is None <==> !(hours == 1 || hours == 2 || hours == 4 || hours == 6 || hours == 12
            || hours == 24),
{
    if hours == 1 {
        Some("1h")
    } else if hours == 2 {
        Some("2h")
    } else if hours == 4 {
        Some("4h")
    } else if hours == 6 {
        Some("6h")
    } else if hours == 12 {
        Some("12h")
    } else if hours == 24 {
        Some("1d")
    } else {
        None
    }
}

} // verus!
