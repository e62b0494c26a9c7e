//! Market data replies and the reading of candle queries.
use vstd::prelude::*;
use crate::text::{str_eq, concat2};

verus! {

/// Price history of a symbol.
#[derive(Debug, Clone)]
pub struct HistoricalDataResponse {
    pub symbol: String,
    pub interval: String,
    pub data: Vec<PricePoint>,
}

/// A price at a time (Unix seconds).
#[derive(Debug, Clone)]
pub struct PricePoint {
    pub timestamp: i64,
    pub price: String,
}

/// Query of candles: their interval and how many.
#[derive(Debug, Clone)]
pub struct CandlestickQuery {
    pub interval: String,
    pub limit: u16,
}

/// Candles of a symbol.
#[derive(Debug, Clone)]
pub struct CandlestickResponse {
    pub symbol: String,
    pub interval: String,
    pub candles: Vec<CandlestickData>,
}

/// One candle (open, high, low, close and volume as decimal text).
#[derive(Debug, Clone)]
pub struct CandlestickData {
    pub timestamp: i64,
    pub open: String,
    pub high: String,
    pub low: String,
    pub close: String,
    pub volume: String,
}

/// The interval of a candle query that names none: one hour.
pub fn default_interval() -> (s: String)
    ensures
        s@ == "1h"@,
{
    String::from_str("1h")
}

/// The number of candles of a query that names none.
pub fn default_limit() -> (n: u16)
    ensures
        n == 100,
{
    100
}

/// Most candles a query returns.
pub const MAX_CANDLES: u16 = 1000;

/// The intervals candles can be asked for.
pub open spec fn valid_intervals() -> Seq<Seq<char>> {
    seq!["1m"@, "3m"@, "5m"@, "15m"@, "30m"@, "1h"@, "2h"@, "4h"@, "6h"@, "8h"@, "12h"@, "1d"@, "3d"@, "1w"@]
}

/// Whether candles can be asked for `interval`.
pub fn is_valid_interval(interval: &str) -> (b: bool)
    ensures
        b == valid_intervals().contains(interval@),
{
    let names = ["1m", "3m", "5m", "15m", "30m", "1h", "2h", "4h", "6h", "8h", "12h", "1d", "3d", "1w"];
    let mut i: usize = 0;
    while i < 14
        invariant
            i <= 14,
            forall|j: int| 0 <= j < 14 ==> (#[trigger] names@[j])@ == valid_intervals()[j],
            forall|j: int| 0 <= j < i ==> valid_intervals()[j] != interval@,
        decreases 14 - i,
    {
        if str_eq(names[i], interval) {
            assert(valid_intervals()[i as int] == interval@);
            return true;
        }
        i += 1;
    }
    proof {
        if valid_intervals().contains(interval@) {
            let j = choose|j: int| 0 <= j < valid_intervals().len() && valid_intervals()[j] == interval@;
            assert(valid_intervals()[j] != interval@);
        }
    }
    false
}

/// The reply to a query for an interval that cannot be asked for.
pub fn invalid_interval_message() -> (s: String)
    ensures
        s@ == "Invalid interval. Supported: 1m, 3m, 5m, 15m, 30m, 1h, 2h, 4h, 6h, 8h, 12h, 1d, 3d, 1w"@,
{
    String::from_str("Invalid interval. Supported: 1m, 3m, 5m, 15m, 30m, 1h, 2h, 4h, 6h, 8h, 12h, 1d, 3d, 1w")
}

/// Reads a candle query: an interval that cannot be asked for is refused
/// (400 with `invalid_interval_message`); otherwise the interval and the
/// number of candles, at most `MAX_CANDLES`.
pub fn check_candle_query(params: &CandlestickQuery) -> (r: Result<u16, (u16, String)>)
    ensures
        !valid_intervals().contains(params.interval@) ==> (r matches Err(e) && e.0 == 400
            && e.1@ == "Invalid interval. Supported: 1m, 3m, 5m, 15m, 30m, 1h, 2h, 4h, 6h, 8h, 12h, 1d, 3d, 1w"@),
        valid_intervals().contains(params.interval@) ==> r == Ok::<u16, (u16, String)>(
            if params.limit < 1000 { params.limit } else { 1000u16 }),
{
    if !is_valid_interval(params.interval.as_str()) {
        return Err((400, invalid_interval_message()));
    }
    let limit = if params.limit < MAX_CANDLES { params.limit } else { MAX_CANDLES };
    Ok(limit)
}

} // verus!
