//! What the command line accepts as an asset.

use crate::text::{
    all_alphanumeric, byte_len, chars_of, contains_path_chars, has_path_chars, only_word_chars,
    parse_u64, parsed_u64, same_text, to_uppercase, uppercase, utf8_len,
};
use vstd::prelude::*;
use vstd::string::StrSliceExecFns;

verus! {

/// Longest name of an asset or coin, in bytes.
pub const MAX_NAME_LEN: usize = 20;

/// Why an asset is refused.
#[derive(Debug, Clone, Copy, PartialEq, Eq, Structural)]
pub enum AssetError {
    /// The name holds `..`, `/` or `\`.
    PathTraversal,
    /// The name is empty or longer than 20 bytes.
    Length,
    /// The name holds a character that is neither a letter nor a number.
    NotAlphanumeric,
    /// The name is none of the supported assets.
    Unsupported,
}

/// Why a date with an hour is refused.
#[derive(Debug, Clone, Copy, PartialEq, Eq, Structural)]
pub enum DateHourError {
    /// The text is not a date and an hour with one hyphen between them.
    Format,
    /// What follows the hyphen is no number within 8 bits.
    Hour,
}

/// The index of the first hyphen at `from` or behind it; the length of the
/// text where there is none.
pub open spec fn first_hyphen(text: Seq<char>, from: int) -> int
    decreases text.len() - from,
{
    if from < 0 || from >= text.len() {
        text.len() as int
    } else if text[from] == '-' {
        from
    } else {
        first_hyphen(text, from + 1)
    }
}

/// The date and the hour that a text of the form `YYYYMMDD-HH` names: what
/// stands before its one hyphen, and the number behind it.
pub open spec fn date_hour_of(text: Seq<char>) -> Result<(Seq<char>, u8), DateHourError> {
    let dash = first_hyphen(text, 0);
    if dash >= text.len() || first_hyphen(text, dash + 1) < text.len() {
        Err(DateHourError::Format)
    } else {
        match parsed_u64(text.subrange(dash + 1, text.len() as int)) {
            Some(hour) => if hour <= u8::MAX {
                Ok((text.subrange(0, dash), hour as u8))
            } else {
                Err(DateHourError::Hour)
            },
            None => Err(DateHourError::Hour),
        }
    }
}

/// Whether `name`, as it is written, is a supported asset: `BTC`, `ETH`,
/// `SOL` or `HYPE`.
pub open spec fn supported_asset(name: Seq<char>) -> bool {
    name == "BTC"@ || name == "ETH"@ || name == "SOL"@ || name == "HYPE"@
}

/// What the checks of an asset name give, in their order.
pub open spec fn asset_check(asset: Seq<char>) -> Result<(), AssetError> {
    if has_path_chars(asset) {
        Err(AssetError::PathTraversal)
    } else if asset.len() == 0 || utf8_len(asset) > MAX_NAME_LEN {
        Err(AssetError::Length)
    } else if !all_alphanumeric(asset) {
        Err(AssetError::NotAlphanumeric)
    } else if supported_asset(uppercase(asset)) {
        Ok(())
    } else {
        Err(AssetError::Unsupported)
    }
}

/// Whether `name`, as it is written, is a supported asset.
pub fn is_supported_asset(name: &str) -> (r: bool)
    ensures
        r == supported_asset(name@),
{
    same_text(name, "BTC") || same_text(name, "ETH") || same_text(name, "SOL") || same_text(
        name,
        "HYPE",
    )
}

/// Checks the name of an asset: it holds nothing that could leave a
/// directory, is of 1 to 20 bytes, holds letters and numbers only, and names
/// a supported asset, in whatever case.
pub fn validate_asset(asset: &str) -> (r: Result<(), AssetError>)
    ensures
        r == asset_check(asset@),
{
    let chars = chars_of(asset);
    if contains_path_chars(&chars) {
        return Err(AssetError::PathTraversal);
    }
    if asset.is_empty() || byte_len(asset) > MAX_NAME_LEN {
        return Err(AssetError::Length);
    }
    if !only_word_chars(&chars, false) {
        return Err(AssetError::NotAlphanumeric);
    }
    let upper = to_uppercase(asset);
    if is_supported_asset(upper.as_str()) {
        Ok(())
    } else {
        Err(AssetError::Unsupported)
    }
}

/// Reads a date with an hour, written `YYYYMMDD-HH`: the date is what
/// stands before the hyphen, as it is written; the hour is the number behind
/// it.
pub fn parse_date_hour(text: &str) -> (r: Result<(String, u8), DateHourError>)
    ensures
        match r {
            Ok(found) => date_hour_of(text@) == Ok::<(Seq<char>, u8), DateHourError>(
                (found.0@, found.1),
            ),
            Err(e) => date_hour_of(text@) == Err::<(Seq<char>, u8), DateHourError>(e),
        },
{
    let chars = chars_of(text);
    let n = chars.len();
    let mut dash: usize = 0;
    while dash < n && chars[dash] != '-'
        invariant
            dash <= n,
            n == chars@.len(),
            first_hyphen(chars@, 0) == first_hyphen(chars@, dash as int),
        decreases n - dash,
    {
        dash = dash + 1;
    }
    if dash >= n {
        return Err(DateHourError::Format);
    }
    let mut second: usize = dash + 1;
    while second < n && chars[second] != '-'
        invariant
            dash < second <= n,
            n == chars@.len(),
            first_hyphen(chars@, dash + 1) == first_hyphen(chars@, second as int),
        decreases n - second,
    {
        second = second + 1;
    }
    if second < n {
        return Err(DateHourError::Format);
    }
    match parse_u64(&chars, dash + 1, n) {
        Some(hour) => {
            if hour > 255 {
                return Err(DateHourError::Hour);
            }
            let date = text.substring_char(0, dash).to_owned();
            Ok((date, hour as u8))
        },
        None => Err(DateHourError::Hour),
    }
}

} // verus!
