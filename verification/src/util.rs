//! Names of candle intervals.

use crate::text::{lowercase, same_text, to_lowercase};
use vstd::prelude::*;

verus! {

/// A timeframe that names no candle interval.
#[derive(Debug, Clone)]
pub struct UnsupportedTimeframe {
    /// The timeframe as it was given.
    pub timeframe: String,
}

/// Whether `name` is one of the candle intervals: `1m`, `5m`, `15m`, `1h`,
/// `4h`, `1d`, `1w`.
pub open spec fn is_interval(name: Seq<char>) -> bool {
    ||| name == "1m"@
    ||| name == "5m"@
    ||| name == "15m"@
    ||| name == "1h"@
    ||| name == "4h"@
    ||| name == "1d"@
    ||| name == "1w"@
}

/// Whether `name`, as it is written, is a candle interval.
pub fn is_supported_interval(name: &str) -> (r: bool)
    ensures
        r == is_interval(name@),
{
    same_text(name, "1m") || same_text(name, "5m") || same_text(name, "15m") || same_text(
        name,
        "1h",
    ) || same_text(name, "4h") || same_text(name, "1d") || same_text(name, "1w")
}

/// The candle interval that a timeframe names, whatever its case: the
/// timeframe in lower case where that is an interval.
pub fn map_timeframe_to_interval(timeframe: &str) -> (r: Result<String, UnsupportedTimeframe>)
    ensures
        match r {
            Ok(interval) => is_interval(lowercase(timeframe@)) && interval@ == lowercase(
                timeframe@,
            ),
            Err(e) => !is_interval(lowercase(timeframe@)) && e.timeframe@ == timeframe@,
        },
{
    let lowered = to_lowercase(timeframe);
    if is_supported_interval(lowered.as_str()) {
        Ok(lowered)
    } else {
        Err(UnsupportedTimeframe { timeframe: timeframe.to_owned() })
    }
}

} // verus!
