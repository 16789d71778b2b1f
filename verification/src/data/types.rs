//! Candles: the price range of an instrument over an interval.

use vstd::prelude::*;

verus! {

/// Open, high, low and close of an interval, with its volume.
#[derive(Debug, Clone)]
pub struct Candle {
    pub time_open: u64,
    pub time_close: u64,
    pub coin: String,
    pub interval: String,
    pub open: u64,
    pub close: u64,
    pub high: u64,
    pub low: u64,
    pub volume: u64,
    pub num_trades: i64,
}

/// The numbers of a candle.
pub struct Bar {
    pub time_open: u64,
    pub time_close: u64,
    pub open: u64,
    pub high: u64,
    pub low: u64,
    pub close: u64,
    pub volume: u64,
}

/// The numbers of a candle.
pub open spec fn bar_of(candle: Candle) -> Bar {
    Bar {
        time_open: candle.time_open,
        time_close: candle.time_close,
        open: candle.open,
        high: candle.high,
        low: candle.low,
        close: candle.close,
        volume: candle.volume,
    }
}

} // verus!
