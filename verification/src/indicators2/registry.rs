//! What is known of each kind of indicator before it runs: the number of
//! candles that it needs.

use crate::fixed::SCALE;
use crate::ir::types::Param;
use crate::text::{same_text, to_uppercase, uppercase};
use vstd::prelude::*;

verus! {

/// The kinds of indicator, by name.
#[derive(Debug, Clone, Copy)]
pub struct IndicatorRegistry;

/// Why no lookback can be told.
#[derive(Debug, Clone, Copy, PartialEq, Eq, Structural)]
pub enum LookbackError {
    /// The name is that of no indicator.
    UnknownIndicator,
    /// The lookback does not fit in the machine's word.
    TooLarge,
}

/// Whether a parameter of the name is given.
pub open spec fn has_param(params: Seq<Param>, name: Seq<char>) -> bool {
    exists|i: int| 0 <= i < params.len() && (#[trigger] params[i]).name@ == name
}

/// The value of the first parameter of the name.
pub open spec fn param_value(params: Seq<Param>, name: Seq<char>) -> i128
    decreases params.len(),
{
    if params.len() == 0 {
        0
    } else if params[0].name@ == name {
        params[0].value
    } else {
        param_value(params.drop_first(), name)
    }
}

/// The whole number that a fixed-point value counts: its whole part, zero
/// for a negative value, and the largest word for a value beyond it.
pub open spec fn whole_count(value: i128) -> usize {
    if value < 0 {
        0
    } else if value / (SCALE as i128) > usize::MAX {
        usize::MAX
    } else {
        (value / (SCALE as i128)) as usize
    }
}

/// The count that a parameter gives: that of the first name where it is
/// given, else that of the second, else the default.
pub open spec fn count_param(
    params: Seq<Param>,
    name: Seq<char>,
    other: Seq<char>,
    default: usize,
) -> usize {
    if has_param(params, name) {
        whole_count(param_value(params, name))
    } else if has_param(params, other) {
        whole_count(param_value(params, other))
    } else {
        default
    }
}

/// The number of candles that an indicator needs before its values mean
/// anything, as an unbounded number; `None` for a name that is no
/// indicator's. `kind` is the indicator's name in upper case.
pub open spec fn lookback_of(kind: Seq<char>, params: Seq<Param>) -> Option<int> {
    if kind == "SMA"@ || kind == "WMA"@ || kind == "BBANDS"@ {
        Some(count_param(params, "length"@, "length"@, 20) as int)
    } else if kind == "EMA"@ {
        Some(count_param(params, "length"@, "length"@, 20) * 3)
    } else if kind == "RSI"@ {
        Some(count_param(params, "length"@, "length"@, 14) + 1)
    } else if kind == "MACD"@ {
        Some(
            count_param(params, "slow"@, "slow"@, 26) + count_param(
                params,
                "signal"@,
                "signal"@,
                9,
            ) * 3,
        )
    } else if kind == "STOCH"@ || kind == "STOCHASTIC"@ {
        Some(
            count_param(params, "k_period"@, "period"@, 14) + count_param(
                params,
                "d_period"@,
                "smooth"@,
                3,
            ),
        )
    } else if kind == "ATR"@ {
        Some(count_param(params, "period"@, "length"@, 14) + 1)
    } else if kind == "ADX"@ {
        Some(count_param(params, "period"@, "length"@, 14) * 2)
    } else if kind == "OBV"@ {
        Some(1)
    } else {
        None
    }
}

/// What `get_lookback` gives for an indicator whose name in upper case is
/// `kind`.
pub open spec fn lookback_result(kind: Seq<char>, params: Seq<Param>) -> Result<
    usize,
    LookbackError,
> {
    match lookback_of(kind, params) {
        None => Err(LookbackError::UnknownIndicator),
        Some(n) => if n <= usize::MAX {
            Ok(n as usize)
        } else {
            Err(LookbackError::TooLarge)
        },
    }
}

/// Looks a parameter up by name: the value of the first of that name.
pub fn find_param(params: &Vec<Param>, name: &str) -> (r: Option<i128>)
    ensures
        r == if has_param(params@, name@) {
            Some(param_value(params@, name@))
        } else {
            None
        },
{
    let n = params.len();
    let mut i: usize = 0;
    proof {
        assert(params@.skip(0) =~= params@);
    }
    while i < n
        invariant
            i <= n,
            n == params@.len(),
            forall|j: int| 0 <= j < i ==> (#[trigger] params@[j]).name@ != name@,
            param_value(params@, name@) == param_value(params@.skip(i as int), name@),
        decreases n - i,
    {
        proof {
            assert(params@.skip(i as int)[0] == params@[i as int]);
            assert(params@.skip(i as int).drop_first() =~= params@.skip(i + 1));
        }
        if same_text(params[i].name.as_str(), name) {
            return Some(params[i].value);
        }
        i = i + 1;
    }
    None
}

/// The whole number that a fixed-point value counts.
pub fn to_count(value: i128) -> (n: usize)
    ensures
        n == whole_count(value),
{
    if value < 0 {
        0
    } else {
        let whole: i128 = value / (SCALE as i128);
        if whole > usize::MAX as i128 {
            usize::MAX
        } else {
            whole as usize
        }
    }
}

/// The count that a parameter gives, under either of two names.
pub fn count_of(params: &Vec<Param>, name: &str, other: &str, default: usize) -> (n: usize)
    ensures
        n == count_param(params@, name@, other@, default),
{
    match find_param(params, name) {
        Some(v) => to_count(v),
        None => match find_param(params, other) {
            Some(v) => to_count(v),
            None => default,
        },
    }
}

/// The lookback of an indicator whose name is given in upper case.
pub fn lookback_for(kind: &str, params: &Vec<Param>) -> (r: Result<usize, LookbackError>)
    ensures
        r == lookback_result(kind@, params@),
{
    let sum: Option<usize> = if same_text(kind, "SMA") || same_text(kind, "WMA") || same_text(
        kind,
        "BBANDS",
    ) {
        Some(count_of(params, "length", "length", 20))
    } else if same_text(kind, "EMA") {
        count_of(params, "length", "length", 20).checked_mul(3)
    } else if same_text(kind, "RSI") {
        count_of(params, "length", "length", 14).checked_add(1)
    } else if same_text(kind, "MACD") {
        let slow = count_of(params, "slow", "slow", 26);
        match count_of(params, "signal", "signal", 9).checked_mul(3) {
            Some(s) => slow.checked_add(s),
            None => None,
        }
    } else if same_text(kind, "STOCH") || same_text(kind, "STOCHASTIC") {
        let k = count_of(params, "k_period", "period", 14);
        k.checked_add(count_of(params, "d_period", "smooth", 3))
    } else if same_text(kind, "ATR") {
        count_of(params, "period", "length", 14).checked_add(1)
    } else if same_text(kind, "ADX") {
        count_of(params, "period", "length", 14).checked_mul(2)
    } else if same_text(kind, "OBV") {
        Some(1)
    } else {
        return Err(LookbackError::UnknownIndicator);
    };
    match sum {
        Some(n) => Ok(n),
        None => Err(LookbackError::TooLarge),
    }
}

impl IndicatorRegistry {
    /// The registry of the kinds of indicator.
    pub fn new() -> (registry: Self) {
        IndicatorRegistry
    }

    /// The number of candles that an indicator needs before its values mean
    /// anything. The indicator is named in whatever case; its parameters
    /// count by their whole parts.
    pub fn get_lookback(&self, indicator_type: &str, params: &Vec<Param>) -> (r: Result<
        usize,
        LookbackError,
    >)
        ensures
            r == lookback_result(uppercase(indicator_type@), params@),
    {
        let kind = to_uppercase(indicator_type);
        lookback_for(kind.as_str(), params)
    }
}

} // verus!
