//! Fills of orders against a candle.
//!
//! | Kind | Fills when | At |
//! |---|---|---|
//! | Market | always | the open, with slippage |
//! | Limit | the candle's range touches the limit | the limit, or the open where it gapped through |
//! | Stop | the range reaches the trigger against the order | as market or limit |
//! | Take | the range reaches the trigger in the order's favour | as market or limit |
//! | Scale, Twap | never | |
//!
//! An order that is filled or canceled has come to its end, and one of which
//! nothing is open has nothing to fill: a candle gives neither anything.

use crate::data::types::Candle;
use crate::fees::FeeCalculator;
use crate::orders::types::{adds_liquidity_only, live, Action, Order, OrderStatus, Side, Tif};
use crate::portfolio::Portfolio;
use vstd::prelude::*;

verus! {

/// What an order got from a candle.
#[derive(Debug, Clone, Copy, PartialEq, Eq, Structural)]
pub struct FillResult {
    pub filled_sz: u64,
    pub fill_price: u64,
    pub is_maker: bool,
    pub order_status: OrderStatus,
}

/// The greater of two prices.
pub open spec fn higher(a: u64, b: u64) -> u64 {
    if a >= b {
        a
    } else {
        b
    }
}

/// The lesser of two prices.
pub open spec fn lower(a: u64, b: u64) -> u64 {
    if a <= b {
        a
    } else {
        b
    }
}

/// Whether the candle's range reaches down to `px` (`down`) or up to it.
pub open spec fn reaches(candle: Candle, px: u64, down: bool) -> bool {
    if down {
        candle.low <= px
    } else {
        candle.high >= px
    }
}

/// The price at which a resting order at `px` fills: `px`, or the open where
/// the open is better for the order. An order that buys low (`buys_low`)
/// finds a lower open better, the other a higher one.
pub open spec fn resting_price(open: u64, px: u64, buys_low: bool) -> u64 {
    if buys_low {
        if open < px {
            open
        } else {
            px
        }
    } else {
        if open > px {
            open
        } else {
            px
        }
    }
}

/// A resting order is a maker where it fills at its own price: the open did
/// not gap through it.
pub open spec fn rests_as_maker(open: u64, px: u64, buys_low: bool) -> bool {
    if buys_low {
        open >= px
    } else {
        open <= px
    }
}

/// The fill of a resting order of `sz` at `px`.
pub open spec fn resting_fill(open: u64, px: u64, sz: u64, buys_low: bool) -> FillResult {
    FillResult {
        filled_sz: sz,
        fill_price: resting_price(open, px, buys_low),
        is_maker: rests_as_maker(open, px, buys_low),
        order_status: OrderStatus::Filled,
    }
}

/// An order that is canceled without a fill.
pub open spec fn canceled_at(px: u64) -> FillResult {
    FillResult { filled_sz: 0, fill_price: px, is_maker: false, order_status: OrderStatus::Canceled }
}

/// The price to which slippage applies where the order fills as a taker, and
/// whether it pays slippage as a buyer: a buy pays above that price, a sell
/// gets less than it, whatever set the order off. `None` for an order that
/// does not fill as a taker against this candle.
pub open spec fn taker_base(action: Action, candle: Candle) -> Option<(u64, bool)> {
    match action {
        Action::Market { side, .. } => Some((candle.open, side == Side::Buy)),
        Action::StopMarket { side, trigger, .. } => match side {
            Side::Buy => if reaches(candle, trigger, false) {
                Some((higher(candle.open, trigger), true))
            } else {
                None
            },
            Side::Sell => if reaches(candle, trigger, true) {
                Some((lower(candle.open, trigger), false))
            } else {
                None
            },
        },
        Action::TakeMarket { side, trigger, .. } => match side {
            Side::Buy => if reaches(candle, trigger, true) {
                Some((lower(candle.open, trigger), true))
            } else {
                None
            },
            Side::Sell => if reaches(candle, trigger, false) {
                Some((higher(candle.open, trigger), false))
            } else {
                None
            },
        },
        _ => None,
    }
}

/// The size of an action that fills whole.
pub open spec fn whole_size(action: Action) -> u64 {
    match action {
        Action::Market { sz, .. } => sz,
        Action::Limit { sz, .. } => sz,
        Action::StopMarket { sz, .. } => sz,
        Action::StopLimit { sz, .. } => sz,
        Action::TakeMarket { sz, .. } => sz,
        Action::TakeLimit { sz, .. } => sz,
        Action::Scale { total_sz, .. } => total_sz,
        Action::Twap { total_sz, .. } => total_sz,
    }
}

/// What a limit order at `px` gets from a candle, where `open_sz` of it is
/// open.
///
/// - A candle that does not touch the price gives nothing; an
///   immediate-or-cancel order is then canceled.
/// - An order that adds liquidity only is canceled where it would cross:
///   the candle opens beyond its price or goes through it.
/// - Else it fills all that is open, at its price, or at the open where the
///   open is better; it is a maker where it fills at its own price.
pub open spec fn limit_fill(
    side: Side,
    px: u64,
    open_sz: u64,
    tif: Tif,
    post_only: bool,
    candle: Candle,
) -> Option<FillResult> {
    let buys = side == Side::Buy;
    if !reaches(candle, px, buys) {
        if tif == Tif::Ioc {
            Some(canceled_at(px))
        } else {
            None
        }
    } else if adds_liquidity_only(tif, post_only) && (if buys {
        candle.open < px || candle.low < px
    } else {
        candle.open > px || candle.high > px
    }) {
        Some(canceled_at(px))
    } else {
        Some(resting_fill(candle.open, px, open_sz, buys))
    }
}

/// What an order of `action` gets from a candle, where `open_sz` of it is
/// open. A stop or take order that the candle sets off is from then on a
/// market order, filled from the trigger or the open, or a limit order with
/// its time in force.
pub open spec fn action_fill(
    action: Action,
    open_sz: u64,
    candle: Candle,
    fee_calc: FeeCalculator,
) -> Option<FillResult> {
    match action {
        Action::Market { .. } | Action::StopMarket { .. } | Action::TakeMarket { .. } => {
            match taker_base(action, candle) {
                Some(base) => Some(
                    FillResult {
                        filled_sz: open_sz,
                        fill_price: fee_calc.slipped(base.0 as int, base.1) as u64,
                        is_maker: false,
                        order_status: OrderStatus::Filled,
                    },
                ),
                None => None,
            }
        },
        Action::Limit { side, px, tif, post_only, .. } => limit_fill(
            side,
            px,
            open_sz,
            tif,
            post_only,
            candle,
        ),
        Action::StopLimit { side, trigger, px, tif, .. } => {
            if reaches(candle, trigger, side != Side::Buy) {
                limit_fill(side, px, open_sz, tif, false, candle)
            } else {
                None
            }
        },
        Action::TakeLimit { side, trigger, px, tif, .. } => {
            if reaches(candle, trigger, side == Side::Buy) {
                limit_fill(side, px, open_sz, tif, false, candle)
            } else {
                None
            }
        },
        Action::Scale { .. } => None,
        Action::Twap { .. } => None,
    }
}

/// Whether a candle can give the order anything: it has not come to its end,
/// and some of its size is open.
pub open spec fn fillable(order: Order) -> bool {
    live(order) && order.filled_sz < whole_size(order.action)
}

/// What an order gets from a candle: what its kind gives for the size that
/// is open of it. An order that has come to its end, or has nothing open,
/// gets nothing.
pub open spec fn candle_fill(order: Order, candle: Candle, fee_calc: FeeCalculator) -> Option<
    FillResult,
> {
    if fillable(order) {
        action_fill(
            order.action,
            (whole_size(order.action) - order.filled_sz) as u64,
            candle,
            fee_calc,
        )
    } else {
        None
    }
}

/// Whether the slippage that an order would pay at this candle leaves a
/// price.
pub open spec fn slippage_ok(order: Order, candle: Candle, fee_calc: FeeCalculator) -> bool {
    match taker_base(order.action, candle) {
        Some(base) => !fillable(order) || fee_calc.slippage_fits(base.0 as int, base.1),
        None => true,
    }
}

/// The size for which an action asks.
pub fn size_of_action(action: &Action) -> (r: u64)
    ensures
        r == whole_size(*action),
{
    match action {
        Action::Market { sz, .. } => *sz,
        Action::Limit { sz, .. } => *sz,
        Action::StopMarket { sz, .. } => *sz,
        Action::StopLimit { sz, .. } => *sz,
        Action::TakeMarket { sz, .. } => *sz,
        Action::TakeLimit { sz, .. } => *sz,
        Action::Scale { total_sz, .. } => *total_sz,
        Action::Twap { total_sz, .. } => *total_sz,
    }
}

/// Tells whether a candle can give the order anything.
pub fn is_fillable(order: &Order) -> (r: bool)
    ensures
        r == fillable(*order),
{
    match order.status {
        OrderStatus::Filled => false,
        OrderStatus::Canceled => false,
        _ => order.filled_sz < size_of_action(&order.action),
    }
}

/// Finds the price to which slippage applies where the order fills as a
/// taker, and whether it pays as a buyer.
pub fn taker_base_of(action: &Action, candle: &Candle) -> (r: Option<(u64, bool)>)
    ensures
        r == taker_base(*action, *candle),
{
    match action {
        Action::Market { side, .. } => match side {
            Side::Buy => Some((candle.open, true)),
            Side::Sell => Some((candle.open, false)),
        },
        Action::StopMarket { side, trigger, .. } => match side {
            Side::Buy => if candle.high >= *trigger {
                Some((
                    if candle.open >= *trigger {
                        candle.open
                    } else {
                        *trigger
                    },
                    true,
                ))
            } else {
                None
            },
            Side::Sell => if candle.low <= *trigger {
                Some((
                    if candle.open <= *trigger {
                        candle.open
                    } else {
                        *trigger
                    },
                    false,
                ))
            } else {
                None
            },
        },
        Action::TakeMarket { side, trigger, .. } => match side {
            Side::Buy => if candle.low <= *trigger {
                Some((
                    if candle.open <= *trigger {
                        candle.open
                    } else {
                        *trigger
                    },
                    true,
                ))
            } else {
                None
            },
            Side::Sell => if candle.high >= *trigger {
                Some((
                    if candle.open >= *trigger {
                        candle.open
                    } else {
                        *trigger
                    },
                    false,
                ))
            } else {
                None
            },
        },
        _ => None,
    }
}

/// Tells whether `process_order_fill` can be called on the order at this
/// candle: the slippage that it would pay leaves a price.
pub fn can_process(order: &Order, candle: &Candle, fee_calc: &FeeCalculator) -> (r: bool)
    ensures
        r == slippage_ok(*order, *candle, *fee_calc),
{
    match taker_base_of(&order.action, candle) {
        Some(base) => !is_fillable(order) || fee_calc.can_apply_slippage(base.0, base.1),
        None => true,
    }
}

/// Fills a resting order of `sz` at `px`.
fn fill_resting(open: u64, px: u64, sz: u64, buys_low: bool) -> (r: FillResult)
    ensures
        r == resting_fill(open, px, sz, buys_low),
{
    let fill_price = if buys_low {
        if open < px {
            open
        } else {
            px
        }
    } else {
        if open > px {
            open
        } else {
            px
        }
    };
    let is_maker = if buys_low {
        fill_price == px && open >= px
    } else {
        fill_price == px && open <= px
    };
    FillResult { filled_sz: sz, fill_price, is_maker, order_status: OrderStatus::Filled }
}

/// Has a limit order at `px` meet the candle.
fn fill_limit(side: Side, px: u64, open_sz: u64, tif: Tif, post_only: bool, candle: &Candle) -> (r:
    Option<FillResult>)
    ensures
        r == limit_fill(side, px, open_sz, tif, post_only, *candle),
{
    let canceled = FillResult {
        filled_sz: 0,
        fill_price: px,
        is_maker: false,
        order_status: OrderStatus::Canceled,
    };
    let price_touched = match side {
        Side::Buy => candle.low <= px,
        Side::Sell => candle.high >= px,
    };
    if !price_touched {
        return match tif {
            Tif::Ioc => Some(canceled),
            _ => None,
        };
    }
    let passive = match tif {
        Tif::Alo => true,
        _ => post_only,
    };
    let would_cross = match side {
        Side::Buy => candle.open < px || candle.low < px,
        Side::Sell => candle.open > px || candle.high > px,
    };
    if passive && would_cross {
        return Some(canceled);
    }
    match side {
        Side::Buy => Some(fill_resting(candle.open, px, open_sz, true)),
        Side::Sell => Some(fill_resting(candle.open, px, open_sz, false)),
    }
}

/// Decides what `order` gets from `candle`: a fill of all that is open of
/// it, a cancellation (an immediate-or-cancel limit order that the candle
/// does not touch, a limit order that adds liquidity only and would cross),
/// or nothing. A stop or take order with a limit is a limit order once the
/// candle has set it off. An
/// order that is filled or canceled, or has nothing open, gets nothing. The
/// order itself is not changed. Orders that fill as takers pay slippage,
/// which must leave a price.
pub fn process_order_fill(
    order: &mut Order,
    candle: &Candle,
    _portfolio: &Portfolio,
    fee_calc: &FeeCalculator,
) -> (r: Option<FillResult>)
    requires
        slippage_ok(*old(order), *candle, *fee_calc),
    ensures
        r == candle_fill(*old(order), *candle, *fee_calc),
        *final(order) == *old(order),
        !live(*old(order)) ==> r is None,
{
    if !is_fillable(order) {
        return None;
    }
    let open_sz: u64 = size_of_action(&order.action) - order.filled_sz;
    match order.action {
        Action::Market { side, sz: _ } => {
            let fill_price = match side {
                Side::Buy => fee_calc.apply_slippage(candle.open, true),
                Side::Sell => fee_calc.apply_slippage(candle.open, false),
            };
            Some(
                FillResult {
                    filled_sz: open_sz,
                    fill_price,
                    is_maker: false,
                    order_status: OrderStatus::Filled,
                },
            )
        },
        Action::Limit { side, px, sz: _, tif, post_only, reduce_only: _ } => fill_limit(
            side,
            px,
            open_sz,
            tif,
            post_only,
            candle,
        ),
        Action::StopMarket { side, trigger, sz: _ } => {
            let triggered = match side {
                Side::Buy => candle.high >= trigger,
                Side::Sell => candle.low <= trigger,
            };
            if !triggered {
                return None;
            }
            let fill_price = match side {
                Side::Buy => {
                    let trigger_fill = if candle.open >= trigger {
                        candle.open
                    } else {
                        trigger
                    };
                    fee_calc.apply_slippage(trigger_fill, true)
                },
                Side::Sell => {
                    let trigger_fill = if candle.open <= trigger {
                        candle.open
                    } else {
                        trigger
                    };
                    fee_calc.apply_slippage(trigger_fill, false)
                },
            };
            Some(
                FillResult {
                    filled_sz: open_sz,
                    fill_price,
                    is_maker: false,
                    order_status: OrderStatus::Filled,
                },
            )
        },
        Action::StopLimit { side, trigger, px, sz: _, tif } => {
            let triggered = match side {
                Side::Buy => candle.high >= trigger,
                Side::Sell => candle.low <= trigger,
            };
            if !triggered {
                return None;
            }
            fill_limit(side, px, open_sz, tif, false, candle)
        },
        Action::TakeMarket { side, trigger, sz: _ } => {
            let triggered = match side {
                Side::Buy => candle.low <= trigger,
                Side::Sell => candle.high >= trigger,
            };
            if !triggered {
                return None;
            }
            let fill_price = match side {
                Side::Buy => {
                    let trigger_fill = if candle.open <= trigger {
                        candle.open
                    } else {
                        trigger
                    };
                    fee_calc.apply_slippage(trigger_fill, true)
                },
                Side::Sell => {
                    let trigger_fill = if candle.open >= trigger {
                        candle.open
                    } else {
                        trigger
                    };
                    fee_calc.apply_slippage(trigger_fill, false)
                },
            };
            Some(
                FillResult {
                    filled_sz: open_sz,
                    fill_price,
                    is_maker: false,
                    order_status: OrderStatus::Filled,
                },
            )
        },
        Action::TakeLimit { side, trigger, px, sz: _, tif } => {
            let triggered = match side {
                Side::Buy => candle.low <= trigger,
                Side::Sell => candle.high >= trigger,
            };
            if !triggered {
                return None;
            }
            fill_limit(side, px, open_sz, tif, false, candle)
        },
        Action::Scale { .. } => None,
        Action::Twap { .. } => None,
    }
}

} // verus!
