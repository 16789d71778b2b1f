//! What a download of archived books is asked with.

use crate::cli::MAX_NAME_LEN;
use crate::text::{
    byte_len,
    all_digits, all_word_chars, chars_of, contains_path_chars, has_path_chars, only_word_chars,
    utf8_len,
};
use vstd::prelude::*;

verus! {

/// Why the name of a coin is refused.
#[derive(Debug, Clone, Copy, PartialEq, Eq, Structural)]
pub enum CoinError {
    /// The name holds `..`, `/` or `\`; where the name goes to the funding
    /// API, also a zero character.
    InvalidCharacters,
    /// The name is empty or longer than 20 bytes.
    Length,
    /// The name holds a character that is no letter, number or underscore.
    Symbols,
}

/// Why a download is refused.
#[derive(Debug, Clone, Copy, PartialEq, Eq, Structural)]
pub enum DownloadError {
    Coin(CoinError),
    /// The date is not eight digits.
    Date,
    /// The hour is not within a day.
    Hour,
}

/// What the checks of a coin name give, in their order.
pub open spec fn coin_check(coin: Seq<char>) -> Result<(), CoinError> {
    if has_path_chars(coin) {
        Err(CoinError::InvalidCharacters)
    } else if coin.len() == 0 || utf8_len(coin) > MAX_NAME_LEN {
        Err(CoinError::Length)
    } else if !all_word_chars(coin) {
        Err(CoinError::Symbols)
    } else {
        Ok(())
    }
}

/// What the checks of a download give, in their order.
pub open spec fn download_check(coin: Seq<char>, date: Seq<char>, hour: u8) -> Result<
    (),
    DownloadError,
> {
    match coin_check(coin) {
        Err(e) => Err(DownloadError::Coin(e)),
        Ok(()) => if utf8_len(date) != 8 || !all_digits(date) {
            Err(DownloadError::Date)
        } else if hour > 23 {
            Err(DownloadError::Hour)
        } else {
            Ok(())
        },
    }
}

/// The hours of one day that a download over a range of days takes: from the
/// start hour on the first day, up to the end hour on the last day, and the
/// whole day between.
pub fn hours_of_day(first_day: bool, last_day: bool, start_hour: u8, end_hour: u8) -> (hours: (
    u8,
    u8,
))
    ensures
        hours.0 == if first_day {
            start_hour
        } else {
            0
        },
        hours.1 == if last_day {
            end_hour
        } else {
            23
        },
{
    (
        if first_day {
            start_hour
        } else {
            0
        },
        if last_day {
            end_hour
        } else {
            23
        },
    )
}

/// Checks the name of a coin: it holds nothing that could leave a directory,
/// is of 1 to 20 bytes, and holds letters, numbers and underscores only.
pub fn validate_coin(coin: &str) -> (r: Result<(), CoinError>)
    ensures
        r == coin_check(coin@),
{
    let chars = chars_of(coin);
    if contains_path_chars(&chars) {
        return Err(CoinError::InvalidCharacters);
    }
    if coin.is_empty() || byte_len(coin) > MAX_NAME_LEN {
        return Err(CoinError::Length);
    }
    if !only_word_chars(&chars, true) {
        return Err(CoinError::Symbols);
    }
    Ok(())
}

/// Checks what a download of one hour of one coin's book is asked with: the
/// coin's name, a date of eight digits, and an hour of the day.
pub fn validate_download(coin: &str, date: &str, hour: u8) -> (r: Result<(), DownloadError>)
    ensures
        r == download_check(coin@, date@, hour),
{
    match validate_coin(coin) {
        Err(e) => {
            return Err(DownloadError::Coin(e));
        },
        Ok(()) => {},
    }
    let digits = chars_of(date);
    let n = digits.len();
    let mut i: usize = 0;
    let mut all: bool = true;
    while i < n
        invariant
            i <= n,
            n == digits@.len(),
            all == all_digits(digits@.take(i as int)),
        decreases n - i,
    {
        let c = digits[i];
        proof {
            let head = digits@.take(i as int);
            let next = digits@.take(i + 1);
            assert(next =~= head.push(c));
            if all_digits(next) {
                assert forall|j: int| 0 <= j < head.len() implies crate::text::is_digit(
                    #[trigger] head[j],
                ) by {
                    assert(next[j] == head[j]);
                }
                assert(next[i as int] == c);
            }
        }
        if !(c >= '0' && c <= '9') {
            all = false;
        }
        i = i + 1;
    }
    proof {
        assert(digits@.take(n as int) =~= digits@);
    }
    if byte_len(date) != 8 || !all {
        return Err(DownloadError::Date);
    }
    if hour > 23 {
        return Err(DownloadError::Hour);
    }
    Ok(())
}

} // verus!
