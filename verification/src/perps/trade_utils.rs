//! Small helpers that turn fills into trades.

use crate::fees::FeeCalculator;
use crate::fixed::fits_money;
use crate::orders::types::{Action, Side, Trade};
use crate::perps::execution::FillResult;
use vstd::prelude::*;

verus! {

/// The name of a side as trades record it.
pub open spec fn side_name(side: Side) -> Seq<char> {
    match side {
        Side::Buy => "BUY"@,
        Side::Sell => "SELL"@,
    }
}

/// The name of a side: `"BUY"` or `"SELL"`.
pub fn side_to_string(side: Side) -> (name: &'static str)
    ensures
        name@ == side_name(side),
{
    match side {
        Side::Buy => "BUY",
        Side::Sell => "SELL",
    }
}

/// The side of a market or limit action; `None` for every other kind.
pub fn extract_side_from_action(action: &Action) -> (r: Option<Side>)
    ensures
        r == match *action {
            Action::Market { side, .. } => Some(side),
            Action::Limit { side, .. } => Some(side),
            _ => None,
        },
{
    match action {
        Action::Market { side, .. } => Some(*side),
        Action::Limit { side, .. } => Some(*side),
        _ => None,
    }
}

/// The trade that records a fill. Its fee is zero: the fee is computed
/// apart.
pub fn create_trade_from_fill(
    fill_result: &FillResult,
    order_id: u64,
    timestamp: u64,
    symbol: &str,
    side: Side,
) -> (trade: Trade)
    ensures
        trade.timestamp == timestamp,
        trade.symbol@ == symbol@,
        trade.side@ == side_name(side),
        trade.size == fill_result.filled_sz,
        trade.price == fill_result.fill_price,
        trade.fee == 0,
        trade.order_id == order_id,
{
    Trade {
        timestamp,
        symbol: symbol.to_owned(),
        side: side_to_string(side).to_owned(),
        size: fill_result.filled_sz,
        price: fill_result.fill_price,
        fee: 0,
        order_id,
    }
}

/// The fee on a trade of `notional`, by the maker or the taker rate.
pub fn calculate_trade_fee(notional: i128, is_maker: bool, fee_calc: &FeeCalculator) -> (fee: i128)
    requires
        fits_money(fee_calc.fee_of(notional as int, is_maker)),
    ensures
        fee == fee_calc.fee_of(notional as int, is_maker),
{
    fee_calc.calculate_fee(notional, is_maker)
}

} // verus!
