//! The funding schedule: published rates by time, and the payments they
//! give.

use crate::cli::MAX_NAME_LEN;
use crate::fixed::{fits_money, mul_div, mul_div_signed, SCALE};
use crate::ingest::s3::CoinError;
use crate::text::{
    byte_len,
    all_word_chars, chars_of, contains_path_chars, has_path_chars, only_word_chars, utf8_len,
};
use vstd::prelude::*;

verus! {

/// Longest range of time that funding history is asked for: 365 days.
pub const MAX_RANGE_MS: u64 = 31_536_000_000;

/// Why a request for funding history is refused.
#[derive(Debug, Clone, Copy, PartialEq, Eq, Structural)]
pub enum FundingRequestError {
    Coin(CoinError),
    /// The range starts after it ends.
    InvalidRange,
    /// The range is longer than a year.
    RangeTooLarge,
}

/// Whether the characters hold a zero character.
pub open spec fn has_zero_char(s: Seq<char>) -> bool {
    exists|i: int| 0 <= i < s.len() && #[trigger] s[i] == '\0'
}

/// What the checks of a coin name that goes to the funding API give, in
/// their order.
pub open spec fn api_coin_check(coin: Seq<char>) -> Result<(), CoinError> {
    if has_path_chars(coin) || has_zero_char(coin) {
        Err(CoinError::InvalidCharacters)
    } else if coin.len() == 0 || utf8_len(coin) > MAX_NAME_LEN {
        Err(CoinError::Length)
    } else if !all_word_chars(coin) {
        Err(CoinError::Symbols)
    } else {
        Ok(())
    }
}

/// What the checks of a request for funding history give, in their order.
pub open spec fn request_check(coin: Seq<char>, start_ts: u64, end_ts: u64) -> Result<
    (),
    FundingRequestError,
> {
    match api_coin_check(coin) {
        Err(e) => Err(FundingRequestError::Coin(e)),
        Ok(()) => if start_ts > end_ts {
            Err(FundingRequestError::InvalidRange)
        } else if end_ts - start_ts > MAX_RANGE_MS {
            Err(FundingRequestError::RangeTooLarge)
        } else {
            Ok(())
        },
    }
}

/// Checks the name of a coin before it goes to the funding API: it holds
/// nothing that could leave a path and no zero character, is of 1 to 20
/// bytes, and holds letters, numbers and underscores only.
pub fn validate_coin_for_api(coin: &str) -> (r: Result<(), CoinError>)
    ensures
        r == api_coin_check(coin@),
{
    let chars = chars_of(coin);
    if contains_path_chars(&chars) {
        return Err(CoinError::InvalidCharacters);
    }
    let n = chars.len();
    let mut i: usize = 0;
    while i < n
        invariant
            i <= n,
            n == chars@.len(),
            chars@ == coin@,
            forall|j: int| 0 <= j < i ==> #[trigger] chars@[j] != '\0',
        decreases n - i,
    {
        if chars[i] == '\0' {
            return Err(CoinError::InvalidCharacters);
        }
        i = i + 1;
    }
    if coin.is_empty() || byte_len(coin) > MAX_NAME_LEN {
        return Err(CoinError::Length);
    }
    if !only_word_chars(&chars, true) {
        return Err(CoinError::Symbols);
    }
    Ok(())
}

/// Checks a request for funding history: the coin's name, and a range of
/// time that does not end before it starts and is no longer than a year.
pub fn validate_request(coin: &str, start_ts: u64, end_ts: u64) -> (r: Result<
    (),
    FundingRequestError,
>)
    ensures
        r == request_check(coin@, start_ts, end_ts),
{
    match validate_coin_for_api(coin) {
        Err(e) => {
            return Err(FundingRequestError::Coin(e));
        },
        Ok(()) => {},
    }
    if start_ts > end_ts {
        return Err(FundingRequestError::InvalidRange);
    }
    if end_ts - start_ts > MAX_RANGE_MS {
        return Err(FundingRequestError::RangeTooLarge);
    }
    Ok(())
}

/// A funding rate that holds from `ts_ms` on. The rate is fixed-point:
/// `10_000` is 0.01%.
#[derive(Debug, Clone, Copy, PartialEq, Eq, Structural)]
pub struct FundingPoint {
    pub ts_ms: u64,
    pub rate: i64,
}

/// Funding points in the order of their timestamps.
#[derive(Debug, Clone)]
pub struct FundingSchedule {
    points: Vec<FundingPoint>,
}

/// Timestamps never descend along the sequence.
pub open spec fn sorted_by_time(s: Seq<FundingPoint>) -> bool {
    forall|i: int, j: int| 0 <= i < j < s.len() ==> (#[trigger] s[i]).ts_ms <= (#[trigger] s[j]).ts_ms
}

/// The rate of the last point at `ts_ms` or before.
pub open spec fn latest_rate(s: Seq<FundingPoint>, ts_ms: u64) -> Option<i64>
    decreases s.len(),
{
    if s.len() == 0 {
        None
    } else if s.last().ts_ms <= ts_ms {
        Some(s.last().rate)
    } else {
        latest_rate(s.drop_last(), ts_ms)
    }
}

/// Picks the timestamp of a point within `[start_ts, end_ts]`.
pub open spec fn time_within(start_ts: u64, end_ts: u64) -> spec_fn(FundingPoint) -> Option<u64> {
    |p: FundingPoint|
        if start_ts <= p.ts_ms <= end_ts {
            Some(p.ts_ms)
        } else {
            None
        }
}

/// What `latest_rate` finds: a point at `ts_ms` or before after which every
/// point is later than `ts_ms`; in a sorted sequence no point at `ts_ms` or
/// before is later than it.
pub proof fn lemma_latest_rate(s: Seq<FundingPoint>, ts_ms: u64)
    ensures
        match latest_rate(s, ts_ms) {
            Some(rate) => exists|i: int|
                {
                    &&& 0 <= i < s.len()
                    &&& (#[trigger] s[i]).rate == rate
                    &&& s[i].ts_ms <= ts_ms
                    &&& forall|j: int| i < j < s.len() ==> (#[trigger] s[j]).ts_ms > ts_ms
                    &&& sorted_by_time(s) ==> forall|j: int|
                        0 <= j < s.len() && (#[trigger] s[j]).ts_ms <= ts_ms ==> s[j].ts_ms
                            <= s[i].ts_ms
                },
            None => forall|j: int| 0 <= j < s.len() ==> (#[trigger] s[j]).ts_ms > ts_ms,
        },
    decreases s.len(),
{
    if s.len() == 0 {
    } else if s.last().ts_ms <= ts_ms {
        let i = s.len() - 1;
        assert(s[i].rate == s.last().rate);
        if sorted_by_time(s) {
            assert forall|j: int| 0 <= j < s.len() && (#[trigger] s[j]).ts_ms <= ts_ms implies s[j].ts_ms
                <= s[i].ts_ms by {
                if j < i {
                    assert(s[j].ts_ms <= s[i].ts_ms);
                }
            }
        }
    } else {
        let t = s.drop_last();
        lemma_latest_rate(t, ts_ms);
        match latest_rate(t, ts_ms) {
            Some(rate) => {
                let i = choose|i: int|
                    {
                        &&& 0 <= i < t.len()
                        &&& (#[trigger] t[i]).rate == rate
                        &&& t[i].ts_ms <= ts_ms
                        &&& forall|j: int| i < j < t.len() ==> (#[trigger] t[j]).ts_ms > ts_ms
                        &&& sorted_by_time(t) ==> forall|j: int|
                            0 <= j < t.len() && (#[trigger] t[j]).ts_ms <= ts_ms ==> t[j].ts_ms
                                <= t[i].ts_ms
                    };
                assert(s[i] == t[i]);
                assert forall|j: int| i < j < s.len() implies (#[trigger] s[j]).ts_ms > ts_ms by {
                    if j < t.len() {
                        assert(t[j].ts_ms > ts_ms);
                    }
                }
                if sorted_by_time(s) {
                    assert forall|a: int, b: int| 0 <= a < b < t.len() implies (#[trigger] t[a]).ts_ms <= (
                    #[trigger] t[b]).ts_ms by {
                        assert(s[a].ts_ms <= s[b].ts_ms);
                    }
                    assert forall|j: int|
                        0 <= j < s.len() && (#[trigger] s[j]).ts_ms <= ts_ms implies s[j].ts_ms
                        <= s[i].ts_ms by {
                        assert(j < t.len());
                        assert(t[j].ts_ms <= ts_ms);
                    }
                }
            },
            None => {
                assert forall|j: int| 0 <= j < s.len() implies (#[trigger] s[j]).ts_ms > ts_ms by {
                    if j < t.len() {
                        assert(t[j].ts_ms > ts_ms);
                    }
                }
            },
        }
    }
}

impl FundingSchedule {
    /// The points of the schedule, in their order.
    pub closed spec fn points(&self) -> Seq<FundingPoint> {
        self.points@
    }

    /// The points are sorted by time.
    pub open spec fn wf(&self) -> bool {
        sorted_by_time(self.points())
    }

    /// The rate in force at `ts_ms`.
    pub open spec fn rate_of(&self, ts_ms: u64) -> Option<i64> {
        latest_rate(self.points(), ts_ms)
    }

    /// The payment on `notional` at `ts_ms`: `notional * rate`, rounded
    /// towards zero; zero where no rate is in force.
    pub open spec fn payment_of(&self, notional: int, ts_ms: u64) -> int {
        match self.rate_of(ts_ms) {
            Some(rate) => mul_div(notional, rate as int, SCALE as int),
            None => 0,
        }
    }

    /// An empty schedule.
    pub fn new() -> (schedule: Self)
        ensures
            schedule.wf(),
            schedule.points().len() == 0,
    {
        FundingSchedule { points: Vec::new() }
    }

    /// Adds a point, keeping the schedule sorted: the point goes behind every
    /// point that is not later than it, so of two points with one timestamp
    /// the one added last comes last.
    pub fn add_point(&mut self, ts_ms: u64, rate: i64)
        requires
            old(self).wf(),
        ensures
            final(self).wf(),
            exists|k: int|
                {
                    &&& 0 <= k <= old(self).points().len()
                    &&& #[trigger] final(self).points() == old(self).points().insert(
                        k,
                        FundingPoint { ts_ms, rate },
                    )
                    &&& forall|i: int| 0 <= i < k ==> (#[trigger] old(self).points()[i]).ts_ms <= ts_ms
                    &&& forall|i: int|
                        k <= i < old(self).points().len() ==> (#[trigger] old(self).points()[i]).ts_ms
                            > ts_ms
                },
    {
        let mut k: usize = self.points.len();
        while k > 0 && self.points[k - 1].ts_ms > ts_ms
            invariant
                k <= self.points.len(),
                self.points@ == old(self).points@,
                forall|i: int| k <= i < self.points.len() ==> (#[trigger] self.points@[i]).ts_ms > ts_ms,
            decreases k,
        {
            k = k - 1;
        }
        let point = FundingPoint { ts_ms, rate };
        proof {
            let s = self.points@;
            let t = s.insert(k as int, point);
            assert forall|i: int| 0 <= i < k implies (#[trigger] s[i]).ts_ms <= ts_ms by {
                assert(s[i].ts_ms <= s[k - 1].ts_ms);
            }
            assert forall|i: int, j: int| 0 <= i < j < t.len() implies (#[trigger] t[i]).ts_ms <= (
            #[trigger] t[j]).ts_ms by {
                let a = if i < k {
                    i
                } else {
                    i - 1
                };
                let b = if j < k {
                    j
                } else {
                    j - 1
                };
                if i != k && j != k {
                    assert(s[a].ts_ms <= s[b].ts_ms);
                } else if i == k {
                    assert(s[b].ts_ms > ts_ms);
                } else {
                    assert(s[a].ts_ms <= ts_ms);
                }
            }
        }
        self.points.insert(k, point);
    }

    /// The rate in force at `ts_ms`: that of the last point at `ts_ms` or
    /// before, which in a sorted schedule has the greatest such timestamp.
    /// `None` where every point is later than `ts_ms`.
    pub fn rate_at(&self, ts_ms: u64) -> (r: Option<i64>)
        ensures
            r == self.rate_of(ts_ms),
            match r {
                Some(rate) => exists|i: int|
                    {
                        &&& 0 <= i < self.points().len()
                        &&& (#[trigger] self.points()[i]).rate == rate
                        &&& self.points()[i].ts_ms <= ts_ms
                        &&& forall|j: int|
                            i < j < self.points().len() ==> (#[trigger] self.points()[j]).ts_ms
                                > ts_ms
                        &&& self.wf() ==> forall|j: int|
                            0 <= j < self.points().len() && (#[trigger] self.points()[j]).ts_ms
                                <= ts_ms ==> self.points()[j].ts_ms <= self.points()[i].ts_ms
                    },
                None => forall|j: int|
                    0 <= j < self.points().len() ==> (#[trigger] self.points()[j]).ts_ms > ts_ms,
            },
    {
        let mut k: usize = self.points.len();
        proof {
            assert(self.points@.take(k as int) =~= self.points@);
        }
        while k > 0
            invariant
                k <= self.points.len(),
                latest_rate(self.points@, ts_ms) == latest_rate(self.points@.take(k as int), ts_ms),
            decreases k,
        {
            let point = self.points[k - 1];
            proof {
                let t = self.points@.take(k as int);
                assert(t.last() == point);
                assert(t.drop_last() =~= self.points@.take(k - 1));
            }
            if point.ts_ms <= ts_ms {
                proof {
                    lemma_latest_rate(self.points@, ts_ms);
                }
                return Some(point.rate);
            }
            k = k - 1;
        }
        proof {
            lemma_latest_rate(self.points@, ts_ms);
        }
        None
    }

    /// The payment on `notional` at `ts_ms`, `None` where it is not money.
    pub fn checked_payment(&self, notional: i128, ts_ms: u64) -> (r: Option<i128>)
        ensures
            match r {
                Some(payment) => payment == self.payment_of(notional as int, ts_ms),
                None => !fits_money(self.payment_of(notional as int, ts_ms)),
            },
    {
        match self.rate_at(ts_ms) {
            Some(rate) => mul_div_signed(notional, rate as i128, SCALE),
            None => Some(0),
        }
    }

    /// The funding payment on `notional` at `ts_ms`: the notional times the
    /// rate in force; zero where none is.
    pub fn calculate_payment(&self, notional: i128, ts_ms: u64) -> (payment: i128)
        requires
            fits_money(self.payment_of(notional as int, ts_ms)),
        ensures
            payment == self.payment_of(notional as int, ts_ms),
    {
        match self.checked_payment(notional, ts_ms) {
            Some(payment) => payment,
            None => 0,
        }
    }

    /// The timestamps of the points within `[start_ts, end_ts]`, in the
    /// schedule's order.
    pub fn timestamps_in_range(&self, start_ts: u64, end_ts: u64) -> (times: Vec<u64>)
        ensures
            times@ == self.points().filter_map(time_within(start_ts, end_ts)),
    {
        let mut times: Vec<u64> = Vec::new();
        let n = self.points.len();
        let mut i: usize = 0;
        while i < n
            invariant
                i <= n,
                n == self.points.len(),
                times@ == self.points@.take(i as int).filter_map(time_within(start_ts, end_ts)),
            decreases n - i,
        {
            let point = self.points[i];
            proof {
                self.points@.lemma_filter_map_take_succ(time_within(start_ts, end_ts), i as int);
            }
            if point.ts_ms >= start_ts && point.ts_ms <= end_ts {
                times.push(point.ts_ms);
            }
            i = i + 1;
        }
        proof {
            assert(self.points@.take(n as int) =~= self.points@);
        }
        times
    }
}

} // verus!
