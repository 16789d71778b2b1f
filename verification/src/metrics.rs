//! Statistics of a finished run, computed from its equity samples.

use crate::fixed::SCALE;
use crate::orders::types::{EquityPoint, Trade};
use crate::perps::engine::{pct_fits, return_pct, return_percent};
use vstd::prelude::*;

verus! {

/// Rises and falls of the equity from one sample to the next: how many of
/// each, and what they add up to.
pub struct Tally {
    pub wins: nat,
    pub losses: nat,
    pub total_win: int,
    pub total_loss: int,
}

/// The tally over the first `n` samples.
pub open spec fn tally(equity: Seq<EquityPoint>, n: int) -> Tally
    decreases n,
{
    if n <= 1 {
        Tally { wins: 0, losses: 0, total_win: 0, total_loss: 0 }
    } else {
        let before = tally(equity, n - 1);
        let change = equity[n - 1].equity - equity[n - 2].equity;
        if change > 0 {
            Tally { wins: before.wins + 1, total_win: before.total_win + change, ..before }
        } else if change < 0 {
            Tally { losses: before.losses + 1, total_loss: before.total_loss - change, ..before }
        } else {
            before
        }
    }
}

/// Win rate, average win and average loss of a tally: the share of rises
/// among rises and falls, as a fixed-point ratio, and the average rise and
/// fall. `None` where the rises or the falls add up beyond 128 bits.
pub open spec fn stats_of(t: Tally) -> Option<(i128, i128, i128)> {
    if t.total_win > i128::MAX || t.total_loss > i128::MAX {
        None
    } else {
        Some(
            (
                if t.wins + t.losses > 0 {
                    ((t.wins * SCALE) as int / ((t.wins + t.losses) as int)) as i128
                } else {
                    0
                },
                if t.wins > 0 {
                    (t.total_win / (t.wins as int)) as i128
                } else {
                    0
                },
                if t.losses > 0 {
                    (t.total_loss / (t.losses as int)) as i128
                } else {
                    0
                },
            ),
        )
    }
}

/// The statistics of a run; all zero for a run without trades.
pub open spec fn trade_stats_of(num_trades: nat, equity: Seq<EquityPoint>) -> Option<
    (i128, i128, i128),
> {
    if num_trades == 0 {
        Some((0, 0, 0))
    } else {
        stats_of(tally(equity, equity.len() as int))
    }
}

/// The totals of a tally are not negative, and it counts no more changes
/// than there are.
pub proof fn lemma_tally_bounds(equity: Seq<EquityPoint>, n: int)
    ensures
        0 <= tally(equity, n).total_win,
        0 <= tally(equity, n).total_loss,
        tally(equity, n).wins + tally(equity, n).losses <= if n > 1 {
            n - 1
        } else {
            0
        },
    decreases n,
{
    if n > 1 {
        lemma_tally_bounds(equity, n - 1);
    }
}

/// The tally never shrinks as samples are added.
pub proof fn lemma_tally_grows(equity: Seq<EquityPoint>, n: int, m: int)
    requires
        n <= m,
    ensures
        tally(equity, n).total_win <= tally(equity, m).total_win,
        tally(equity, n).total_loss <= tally(equity, m).total_loss,
    decreases m - n,
{
    if n < m {
        lemma_tally_grows(equity, n, m - 1);
        lemma_tally_bounds(equity, m - 1);
    }
}

/// The peak, the greatest drawdown and its percentage of the peak after one
/// more sample. `None` where the drawdown or its percentage is beyond 128
/// bits.
pub open spec fn drawdown_step(state: (i128, i128, i128), equity: i128) -> Option<
    (i128, i128, i128),
> {
    let peak = if equity > state.0 {
        equity
    } else {
        state.0
    };
    let drawdown = peak - equity;
    if drawdown > i128::MAX {
        None
    } else if drawdown > state.1 {
        if pct_fits(drawdown, peak as int) {
            Some((peak, drawdown as i128, return_pct(drawdown, peak as int) as i128))
        } else {
            None
        }
    } else {
        Some((peak, state.1, state.2))
    }
}

/// Peak, greatest drawdown and its percentage over the first `n` samples,
/// from a peak of `initial_capital`.
pub open spec fn drawdown_upto(equity: Seq<EquityPoint>, initial_capital: i128, n: int) -> Option<
    (i128, i128, i128),
>
    decreases n,
{
    if n <= 0 {
        Some((initial_capital, 0, 0))
    } else {
        match drawdown_upto(equity, initial_capital, n - 1) {
            None => None,
            Some(state) => drawdown_step(state, equity[n - 1].equity),
        }
    }
}

/// The greatest drawdown of a run and its percentage of the peak that it
/// fell from; zero for a run without samples.
pub open spec fn drawdown_of(equity: Seq<EquityPoint>, initial_capital: i128) -> Option<
    (i128, i128),
> {
    if equity.len() == 0 {
        Some((0, 0))
    } else {
        match drawdown_upto(equity, initial_capital, equity.len() as int) {
            Some(state) => Some((state.1, state.2)),
            None => None,
        }
    }
}

/// Once a drawdown is beyond 128 bits it stays so.
pub proof fn lemma_drawdown_fails_on(equity: Seq<EquityPoint>, initial_capital: i128, k: int, n: int)
    requires
        k <= n,
        drawdown_upto(equity, initial_capital, k) is None,
    ensures
        drawdown_upto(equity, initial_capital, n) is None,
    decreases n - k,
{
    if k < n {
        lemma_drawdown_fails_on(equity, initial_capital, k, n - 1);
    }
}

/// Win rate, average win and average loss of a run, from the changes of its
/// equity from sample to sample. A run without trades has none.
pub fn calculate_trade_stats(trades: &Vec<Trade>, equity_curve: &Vec<EquityPoint>) -> (r: Option<
    (i128, i128, i128),
>)
    ensures
        r == trade_stats_of(trades@.len(), equity_curve@),
{
    if trades.len() == 0 {
        return Some((0, 0, 0));
    }
    let n = equity_curve.len();
    let mut wins: usize = 0;
    let mut losses: usize = 0;
    let mut total_win: i128 = 0;
    let mut total_loss: i128 = 0;
    let mut i: usize = 1;
    while i < n
        invariant
            1 <= i,
            i <= n || (n == 0 && i == 1),
            n == equity_curve@.len(),
            wins == tally(equity_curve@, i as int).wins,
            losses == tally(equity_curve@, i as int).losses,
            total_win == tally(equity_curve@, i as int).total_win,
            total_loss == tally(equity_curve@, i as int).total_loss,
            wins + losses <= i - 1,
            total_win >= 0,
            total_loss >= 0,
            trades@.len() > 0,
        decreases n - i,
    {
        proof {
            lemma_tally_grows(equity_curve@, i + 1, n as int);
            lemma_tally_bounds(equity_curve@, i + 1);
        }
        match equity_curve[i].equity.checked_sub(equity_curve[i - 1].equity) {
            None => {
                return None;
            },
            Some(change) => {
                if change > 0 {
                    match total_win.checked_add(change) {
                        Some(sum) => {
                            total_win = sum;
                            wins = wins + 1;
                        },
                        None => {
                            return None;
                        },
                    }
                } else if change < 0 {
                    if change == i128::MIN {
                        return None;
                    }
                    match total_loss.checked_add(-change) {
                        Some(sum) => {
                            total_loss = sum;
                            losses = losses + 1;
                        },
                        None => {
                            return None;
                        },
                    }
                }
            },
        }
        i = i + 1;
    }
    proof {
        if n == 0 {
            assert(tally(equity_curve@, 0) == tally(equity_curve@, 1));
        }
    }
    let total_trades: usize = wins + losses;
    let win_rate: i128 = if total_trades > 0 {
        ((wins as u128) * (SCALE as u128) / (total_trades as u128)) as i128
    } else {
        0
    };
    let avg_win: i128 = if wins > 0 {
        total_win / (wins as i128)
    } else {
        0
    };
    let avg_loss: i128 = if losses > 0 {
        total_loss / (losses as i128)
    } else {
        0
    };
    Some((win_rate, avg_win, avg_loss))
}

/// The greatest drawdown of a run, and what percentage of the peak it was:
/// the greatest fall of the equity below the highest equity before it, the
/// initial capital counting as the first peak.
pub fn calculate_drawdown(equity_curve: &Vec<EquityPoint>, initial_capital: i128) -> (r: Option<
    (i128, i128),
>)
    ensures
        r == drawdown_of(equity_curve@, initial_capital),
{
    let n = equity_curve.len();
    if n == 0 {
        return Some((0, 0));
    }
    let mut max_equity: i128 = initial_capital;
    let mut max_drawdown: i128 = 0;
    let mut max_drawdown_pct: i128 = 0;
    let mut i: usize = 0;
    while i < n
        invariant
            i <= n,
            n == equity_curve@.len(),
            drawdown_upto(equity_curve@, initial_capital, i as int) == Some(
                (max_equity, max_drawdown, max_drawdown_pct),
            ),
        decreases n - i,
    {
        let equity = equity_curve[i].equity;
        if equity > max_equity {
            max_equity = equity;
        }
        match max_equity.checked_sub(equity) {
            None => {
                proof {
                    lemma_drawdown_fails_on(equity_curve@, initial_capital, i + 1, n as int);
                }
                return None;
            },
            Some(drawdown) => {
                if drawdown > max_drawdown {
                    match return_percent(drawdown, max_equity) {
                        Some(pct) => {
                            max_drawdown = drawdown;
                            max_drawdown_pct = pct;
                        },
                        None => {
                            proof {
                                lemma_drawdown_fails_on(
                                    equity_curve@,
                                    initial_capital,
                                    i + 1,
                                    n as int,
                                );
                            }
                            return None;
                        },
                    }
                }
            },
        }
        i = i + 1;
    }
    Some((max_drawdown, max_drawdown_pct))
}

} // verus!
