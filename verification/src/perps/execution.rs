//! Execution of market and limit orders against the book.
//!
//! An order that is filled or canceled has come to its end: no call fills it
//! or changes it. The size of an order's action is the size that it was
//! made for; what is open is that size less the size filled so far.

use crate::orderbook::{best_first, lemma_sweep_filled, market_fill, OrderBook};
use crate::orders::types::{adds_liquidity_only, live, Action, Order, OrderStatus, Side, Tif};
use vstd::prelude::*;

verus! {

/// The rules by which orders fill against an order book.
#[derive(Debug, Clone, Copy)]
pub struct PerpsExecution;

/// What one attempt to execute an order gave.
#[derive(Debug, Clone, Copy, PartialEq, Eq, Structural)]
pub struct FillResult {
    /// The size filled by this attempt.
    pub filled_sz: u64,
    /// The price of the fill; for a market order the volume-weighted price
    /// over the levels it took.
    pub fill_price: u64,
    /// Whether the order added liquidity.
    pub is_maker: bool,
    /// The order's status after the attempt.
    pub order_status: OrderStatus,
}

/// The status of an order of `sz` of which `filled` is filled.
pub open spec fn status_at(filled: int, sz: u64) -> OrderStatus {
    if filled >= sz {
        OrderStatus::Filled
    } else {
        OrderStatus::PartiallyFilled
    }
}

/// The fill of a market order against `book`: what is open of it, swept
/// through the opposite side. `None` for an order that is not a market order,
/// has come to its end, has nothing open, or finds no liquidity.
pub open spec fn market_execution(order: Order, book: OrderBook) -> Option<FillResult> {
    match order.action {
        Action::Market { side, sz } => {
            if !live(order) || order.filled_sz >= sz {
                None
            } else {
                let walk = match side {
                    Side::Buy => best_first(book.asks(), false),
                    Side::Sell => best_first(book.bids(), true),
                };
                match market_fill(walk, (sz - order.filled_sz) as nat) {
                    Some(fill) => Some(
                        FillResult {
                            filled_sz: fill.0,
                            fill_price: fill.1,
                            is_maker: fill.2,
                            order_status: status_at(order.filled_sz + fill.0, sz),
                        },
                    ),
                    None => None,
                }
            }
        },
        _ => None,
    }
}

/// Whether an order at `px` would trade at once: a buy at the best ask or
/// above, a sell at the best bid or below.
pub open spec fn crosses(side: Side, px: u64, book: OrderBook) -> bool {
    match side {
        Side::Buy => match book.best_ask_of() {
            Some(ask) => px >= ask.0,
            None => false,
        },
        Side::Sell => match book.best_bid_of() {
            Some(bid) => px <= bid.0,
            None => false,
        },
    }
}

/// The best opposite level that a limit order at `px` reaches: the lowest
/// ask at `px` or below for a buy, the highest bid at `px` or above for a
/// sell.
pub open spec fn reachable_level(side: Side, px: u64, book: OrderBook) -> Option<(u64, u128)> {
    match side {
        Side::Buy => match book.best_ask_of() {
            Some(ask) => if ask.0 <= px {
                Some(ask)
            } else {
                None
            },
            None => None,
        },
        Side::Sell => match book.best_bid_of() {
            Some(bid) => if bid.0 >= px {
                Some(bid)
            } else {
                None
            },
            None => None,
        },
    }
}

/// The size that a limit order fills: what is open of it, or what rests at
/// the level that it reaches, whichever is less; nothing where it reaches no
/// level.
pub open spec fn limit_fill_size(open_sz: u64, level: Option<(u64, u128)>) -> u64 {
    match level {
        Some(l) => if open_sz <= l.1 {
            open_sz
        } else {
            l.1 as u64
        },
        None => 0,
    }
}

/// An attempt that cancels the order without a fill.
pub open spec fn canceled_at(px: u64) -> FillResult {
    FillResult { filled_sz: 0, fill_price: px, is_maker: false, order_status: OrderStatus::Canceled }
}

/// What a limit order gets from `book`.
///
/// - An order that adds liquidity only and would cross is canceled.
/// - Else it fills at the best opposite price, where that price reaches its
///   limit, for what is open of it or what rests there, whichever is less.
///   It is a maker where it fills at its own price, a taker where the book
///   has gone through its price.
/// - An immediate-or-cancel order that fills nothing is canceled.
/// - `None` for every other order that fills nothing, for an order that has
///   come to its end or has nothing open, and for one that is no limit order.
pub open spec fn limit_execution(order: Order, book: OrderBook) -> Option<FillResult> {
    match order.action {
        Action::Limit { side, px, sz, tif, post_only, .. } => {
            if !live(order) || order.filled_sz >= sz {
                None
            } else if adds_liquidity_only(tif, post_only) && crosses(side, px, book) {
                Some(canceled_at(px))
            } else {
                let level = reachable_level(side, px, book);
                let filled = limit_fill_size((sz - order.filled_sz) as u64, level);
                if filled > 0 {
                    Some(
                        FillResult {
                            filled_sz: filled,
                            fill_price: level.unwrap().0,
                            is_maker: level.unwrap().0 == px,
                            order_status: status_at(order.filled_sz + filled, sz),
                        },
                    )
                } else if tif == Tif::Ioc {
                    Some(canceled_at(px))
                } else {
                    None
                }
            }
        },
        _ => None,
    }
}

/// The order after an attempt: what was filled is added to its filled size,
/// and it takes the status that the attempt gave.
pub open spec fn order_after(order: Order, fill: FillResult) -> Order {
    Order {
        filled_sz: (order.filled_sz + fill.filled_sz) as u64,
        status: fill.order_status,
        ..order
    }
}

/// Whether a limit order may be placed: an order that adds liquidity only,
/// by its own flag, by its time in force or by `post_only`, may not cross the
/// book. Orders of other kinds are not placed.
pub open spec fn placeable(order: Order, book: OrderBook, post_only: bool) -> bool {
    match order.action {
        Action::Limit { side, px, tif, post_only: own, .. } => !((post_only || adds_liquidity_only(
            tif,
            own,
        )) && crosses(side, px, book)),
        _ => false,
    }
}

/// The limit order without its restrictions: good till cancel, and free to
/// cross.
pub open spec fn unrestricted(order: Order) -> Order {
    match order.action {
        Action::Limit { side, px, sz, reduce_only, .. } => Order {
            action: Action::Limit {
                side,
                px,
                sz,
                tif: Tif::Gtc,
                post_only: false,
                reduce_only,
            },
            ..order
        },
        _ => order,
    }
}

/// A post-only limit order whose price crosses the opposite best price is
/// rejected, also where it would fill otherwise: it may not be placed; where
/// it is live, has size open and is post-only by its own flag or its time in
/// force, it is canceled without a fill; and the same order without the
/// restriction gets a fill where the best level holds size.
pub proof fn lemma_post_only_cross_rejected(order: Order, book: OrderBook, post_only: bool)
    requires
        order.action is Limit,
        post_only || adds_liquidity_only(order.action->Limit_tif, order.action->Limit_post_only),
        crosses(order.action->Limit_side, order.action->Limit_px, book),
    ensures
        !placeable(order, book, post_only),
        live(order) && order.filled_sz < order.action->Limit_sz && adds_liquidity_only(
            order.action->Limit_tif,
            order.action->Limit_post_only,
        ) ==> limit_execution(order, book) == Some(canceled_at(order.action->Limit_px)),
        reachable_level(order.action->Limit_side, order.action->Limit_px, book) is Some,
        live(order) && order.filled_sz < order.action->Limit_sz && reachable_level(
            order.action->Limit_side,
            order.action->Limit_px,
            book,
        ).unwrap().1 > 0 ==> limit_execution(unrestricted(order), book) is Some
            && limit_execution(unrestricted(order), book).unwrap().filled_sz > 0,
{
}

/// No attempt fills or changes an order that has come to its end.
pub proof fn lemma_ended_orders_rest(order: Order, book: OrderBook)
    requires
        order.status == OrderStatus::Filled || order.status == OrderStatus::Canceled,
    ensures
        market_execution(order, book) is None,
        limit_execution(order, book) is None,
{
}

/// The size filled of an order never shrinks and never passes the size of
/// its action: a fill is of no more than what is open, and the order is
/// filled exactly when nothing is left open.
pub proof fn lemma_fills_within_size(order: Order, book: OrderBook)
    ensures
        match market_execution(order, book) {
            Some(fill) => {
                &&& fill.filled_sz > 0
                &&& order.action matches Action::Market { sz, .. }
                &&& order.filled_sz + fill.filled_sz <= sz
                &&& fill.order_status == OrderStatus::Filled <==> order.filled_sz + fill.filled_sz
                    == sz
            },
            None => true,
        },
        match limit_execution(order, book) {
            Some(fill) => {
                &&& order.action matches Action::Limit { sz, .. }
                &&& order.filled_sz + fill.filled_sz <= sz
                &&& fill.order_status != OrderStatus::Canceled ==> fill.filled_sz > 0
                &&& fill.order_status == OrderStatus::Filled <==> order.filled_sz + fill.filled_sz
                    == sz
            },
            None => true,
        },
{
    match order.action {
        Action::Market { side, sz } => {
            if order.filled_sz < sz {
                let walk = match side {
                    Side::Buy => best_first(book.asks(), false),
                    Side::Sell => best_first(book.bids(), true),
                };
                lemma_sweep_filled(walk, (sz - order.filled_sz) as nat);
            }
        },
        _ => {},
    }
}

impl PerpsExecution {
    /// Executes a market order against the book: what is open of it is swept
    /// through the opposite side. The order's filled size and status are
    /// updated: it is filled where nothing is left open, else partly filled.
    /// `None`, and the order unchanged, where the order is not a market
    /// order, has come to its end (filled or canceled), has nothing open, or
    /// the book has no liquidity.
    pub fn execute_market(order: &mut Order, book: &OrderBook) -> (r: Option<FillResult>)
        ensures
            r == market_execution(*old(order), *book),
            match r {
                Some(fill) => {
                    &&& *final(order) == order_after(*old(order), fill)
                    &&& fill.filled_sz > 0
                    &&& !fill.is_maker
                    &&& old(order).action matches Action::Market { sz, .. }
                        && final(order).filled_sz <= sz
                },
                None => *final(order) == *old(order),
            },
            !live(*old(order)) ==> r is None,
    {
        match order.status {
            OrderStatus::Filled => {
                return None;
            },
            OrderStatus::Canceled => {
                return None;
            },
            _ => {},
        }
        match order.action {
            Action::Market { side, sz } => {
                if order.filled_sz >= sz {
                    return None;
                }
                let remaining_sz: u64 = sz - order.filled_sz;
                let swept = match side {
                    Side::Buy => book.sweep_market_buy(remaining_sz),
                    Side::Sell => book.sweep_market_sell(remaining_sz),
                };
                match swept {
                    None => None,
                    Some(fill) => {
                        let filled_sz: u64 = fill.0;
                        order.filled_sz = order.filled_sz + filled_sz;
                        let order_status = if order.filled_sz >= sz {
                            OrderStatus::Filled
                        } else {
                            OrderStatus::PartiallyFilled
                        };
                        order.status = order_status;
                        Some(
                            FillResult {
                                filled_sz,
                                fill_price: fill.1,
                                is_maker: fill.2,
                                order_status,
                            },
                        )
                    },
                }
            },
            _ => None,
        }
    }

    /// Whether a limit order may be placed without crossing where it must
    /// not cross.
    pub fn can_place_limit(order: &Order, book: &OrderBook, post_only: bool) -> (r: bool)
        ensures
            r == placeable(*order, *book, post_only),
    {
        match order.action {
            Action::Limit { side, px, sz: _, tif, post_only: order_post_only, reduce_only: _ } => {
                let would_cross = match side {
                    Side::Buy => book.would_cross_buy(px),
                    Side::Sell => book.would_cross_sell(px),
                };
                let passive = match tif {
                    Tif::Alo => true,
                    _ => post_only || order_post_only,
                };
                if passive && would_cross {
                    return false;
                }
                true
            },
            _ => false,
        }
    }

    /// Has a limit order meet the book.
    ///
    /// - An order that adds liquidity only (post-only, or `Alo`) and would
    ///   cross is canceled without a fill.
    /// - Else the order fills where the best opposite price reaches its
    ///   limit: at that price, for what is open of it or what rests there,
    ///   whichever is less. The fill is a maker fill where it is at the
    ///   order's own price, a taker fill where the book has gone through it.
    ///   The order is filled where nothing is left open, else partly filled.
    /// - An immediate-or-cancel order that fills nothing is canceled.
    ///
    /// A cancellation is told as an attempt of size zero with the status
    /// `Canceled`. `None`, and the order unchanged, where nothing happens:
    /// the order is no limit order, has come to its end, has nothing open,
    /// or rests on.
    pub fn check_limit_fill(order: &mut Order, book: &OrderBook) -> (r: Option<FillResult>)
        ensures
            r == limit_execution(*old(order), *book),
            match r {
                Some(fill) => {
                    &&& *final(order) == order_after(*old(order), fill)
                    &&& old(order).action matches Action::Limit { sz, px, .. }
                        && final(order).filled_sz <= sz
                        && (fill.order_status != OrderStatus::Canceled ==> (fill.filled_sz > 0
                        && fill.is_maker == (fill.fill_price == px)))
                },
                None => *final(order) == *old(order),
            },
            !live(*old(order)) ==> r is None,
    {
        match order.status {
            OrderStatus::Filled => {
                return None;
            },
            OrderStatus::Canceled => {
                return None;
            },
            _ => {},
        }
        match order.action {
            Action::Limit { side, px, sz, tif, post_only, reduce_only: _ } => {
                if order.filled_sz >= sz {
                    return None;
                }
                let remaining_sz: u64 = sz - order.filled_sz;
                let would_cross = match side {
                    Side::Buy => book.would_cross_buy(px),
                    Side::Sell => book.would_cross_sell(px),
                };
                let passive = match tif {
                    Tif::Alo => true,
                    _ => post_only,
                };
                let canceled = FillResult {
                    filled_sz: 0,
                    fill_price: px,
                    is_maker: false,
                    order_status: OrderStatus::Canceled,
                };
                if passive && would_cross {
                    order.status = OrderStatus::Canceled;
                    return Some(canceled);
                }
                let best = match side {
                    Side::Buy => match book.best_ask() {
                        Some(ask) => if ask.0 <= px {
                            Some(ask)
                        } else {
                            None
                        },
                        None => None,
                    },
                    Side::Sell => match book.best_bid() {
                        Some(bid) => if bid.0 >= px {
                            Some(bid)
                        } else {
                            None
                        },
                        None => None,
                    },
                };
                let filled_sz: u64 = match best {
                    Some(level) => if (remaining_sz as u128) <= level.1 {
                        remaining_sz
                    } else {
                        level.1 as u64
                    },
                    None => 0,
                };
                match best {
                    Some(level) => {
                        if filled_sz > 0 {
                            order.filled_sz = order.filled_sz + filled_sz;
                            let order_status = if order.filled_sz >= sz {
                                OrderStatus::Filled
                            } else {
                                OrderStatus::PartiallyFilled
                            };
                            order.status = order_status;
                            return Some(
                                FillResult {
                                    filled_sz,
                                    fill_price: level.0,
                                    is_maker: level.0 == px,
                                    order_status,
                                },
                            );
                        }
                    },
                    None => {},
                }
                match tif {
                    Tif::Ioc => {
                        order.status = OrderStatus::Canceled;
                        Some(canceled)
                    },
                    _ => None,
                }
            },
            _ => None,
        }
    }
}

} // verus!
