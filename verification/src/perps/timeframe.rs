//! Timeframes as strategies write them: a number and a unit, as in `15m`.

use crate::text::{
    chars_of, is_letter, letter, lowercase, parse_u64, parsed_u64, rest_is, to_lowercase, trim, trimmed,
};
use vstd::prelude::*;

verus! {

/// The length of a unit of time in milliseconds: minutes (`m`, `min`,
/// `minute`, `minutes`), hours (`h`, `hour`, `hours`), days (`d`, `day`,
/// `days`) and seconds (`s`, `sec`, `second`, `seconds`).
pub open spec fn unit_ms(unit: Seq<char>) -> Option<u64> {
    if unit == "m"@ || unit == "min"@ || unit == "minute"@ || unit == "minutes"@ {
        Some(60_000)
    } else if unit == "h"@ || unit == "hour"@ || unit == "hours"@ {
        Some(3_600_000)
    } else if unit == "d"@ || unit == "day"@ || unit == "days"@ {
        Some(86_400_000)
    } else if unit == "s"@ || unit == "sec"@ || unit == "second"@ || unit == "seconds"@ {
        Some(1_000)
    } else {
        None
    }
}

/// The index of the first letter at `from` or behind it; the length of the
/// text where there is none.
pub open spec fn first_letter(text: Seq<char>, from: int) -> int
    decreases text.len() - from,
{
    if from < 0 || from >= text.len() {
        text.len() as int
    } else if is_letter(text[from]) {
        from
    } else {
        first_letter(text, from + 1)
    }
}

/// The milliseconds that a timeframe lasts: the number before its first
/// letter times the unit that begins there. `None` where there is no letter,
/// no number, no such unit, or the product is not within 64 bits.
pub open spec fn timeframe_ms(text: Seq<char>) -> Option<u64> {
    let pos = first_letter(text, 0);
    if pos >= text.len() {
        None
    } else {
        match (parsed_u64(text.take(pos)), unit_ms(text.skip(pos))) {
            (Some(n), Some(ms)) => if n * ms <= u64::MAX {
                Some((n * ms) as u64)
            } else {
                None
            },
            _ => None,
        }
    }
}

/// Reads a timeframe that is trimmed and in lower case.
pub fn timeframe_in_ms(text: &str) -> (r: Option<u64>)
    ensures
        r == timeframe_ms(text@),
{
    let chars = chars_of(text);
    let n = chars.len();
    let mut pos: usize = 0;
    while pos < n && !letter(chars[pos])
        invariant
            pos <= n,
            n == chars@.len(),
            first_letter(chars@, 0) == first_letter(chars@, pos as int),
        decreases n - pos,
    {
        pos = pos + 1;
    }
    if pos >= n {
        return None;
    }
    proof {
        assert(chars@.take(pos as int) =~= chars@.subrange(0, pos as int));
    }
    let number = match parse_u64(&chars, 0, pos) {
        Some(v) => v,
        None => {
            return None;
        },
    };
    let unit: u64 = if rest_is(&chars, pos, "m") || rest_is(&chars, pos, "min") || rest_is(
        &chars,
        pos,
        "minute",
    ) || rest_is(&chars, pos, "minutes") {
        60_000
    } else if rest_is(&chars, pos, "h") || rest_is(&chars, pos, "hour") || rest_is(
        &chars,
        pos,
        "hours",
    ) {
        3_600_000
    } else if rest_is(&chars, pos, "d") || rest_is(&chars, pos, "day") || rest_is(
        &chars,
        pos,
        "days",
    ) {
        86_400_000
    } else if rest_is(&chars, pos, "s") || rest_is(&chars, pos, "sec") || rest_is(
        &chars,
        pos,
        "second",
    ) || rest_is(&chars, pos, "seconds") {
        1_000
    } else {
        return None;
    };
    number.checked_mul(unit)
}

/// Reads a timeframe such as `1h`, `15m` or `1d`, whatever its case and the
/// white space around it, and gives its length in milliseconds.
pub fn parse_timeframe_to_ms(timeframe: &str) -> (r: Option<u64>)
    ensures
        r == timeframe_ms(lowercase(trimmed(timeframe@))),
{
    let lowered = to_lowercase(trim(timeframe));
    timeframe_in_ms(lowered.as_str())
}

} // verus!
