//! The decisions of a strategy: comparisons over the candle and the
//! indicators, the orders that actions ask for, and the walk through a graph
//! of conditions and actions.

use crate::data::types::{bar_of, Bar, Candle};
use crate::fixed::{magnitude, mul_div, mul_div_signed, SCALE};
use crate::indicators2::values::{read_value, reading_value, IndicatorReading, ReadingError};
use crate::ir::compile::CompiledStrategy;
use crate::ir::types::{ActionSpec, ActionType, ComparisonOp, Expr, ExprValue, NamedNode, Node};
use crate::orders::types::{Action, Order, OrderStatus, Side, Tif};
use crate::perps::engine::{PerpsRun, RunModel, Tick, PERCENT_SCALE};
use crate::portfolio::{Holdings, Portfolio};
use crate::text::{chars_of, same_text};
use vstd::prelude::*;

verus! {

/// Why a strategy cannot decide.
#[derive(Debug, Clone, Copy, PartialEq, Eq, Structural)]
pub enum StrategyError {
    /// A walk came to a name that no node has.
    NodeNotFound,
    /// A reference names an indicator that is not there.
    IndicatorNotFound,
    /// A reference names an output that its indicator does not show.
    UnknownOutput,
    /// A reference is not written `indicator.output`.
    InvalidReference,
    /// A series is none of open, high, low, close and volume.
    UnknownSeries,
    /// The candle's close is not above zero.
    InvalidCandlePrice,
    /// The sizing value is below zero.
    InvalidSizing,
    /// A walk went through more nodes than the graph has: it never ends.
    Cycle,
    /// No order number is left.
    OrdersExhausted,
}

/// What a walk through a graph reads.
pub struct Context {
    pub readings: Seq<IndicatorReading>,
    pub bar: Bar,
    pub prev_close: Option<u64>,
}

/// The value of a series of the candle.
pub open spec fn series_value(series: Seq<char>, bar: Bar) -> Option<i128> {
    if series == "open"@ {
        Some(bar.open as i128)
    } else if series == "high"@ {
        Some(bar.high as i128)
    } else if series == "low"@ {
        Some(bar.low as i128)
    } else if series == "close"@ {
        Some(bar.close as i128)
    } else if series == "volume"@ {
        Some(bar.volume as i128)
    } else {
        None
    }
}

/// The index of the first dot at `from` or behind it; the length of the text
/// where there is none.
pub open spec fn first_dot(text: Seq<char>, from: int) -> int
    decreases text.len() - from,
{
    if from < 0 || from >= text.len() {
        text.len() as int
    } else if text[from] == '.' {
        from
    } else {
        first_dot(text, from + 1)
    }
}

/// The error of a strategy that an error of reading is.
pub open spec fn reading_error(e: ReadingError) -> StrategyError {
    match e {
        ReadingError::IndicatorNotFound => StrategyError::IndicatorNotFound,
        ReadingError::UnknownOutput => StrategyError::UnknownOutput,
    }
}

/// The value that a reference names: the output behind its first dot, of the
/// indicator before it.
pub open spec fn reference_value(reference: Seq<char>, readings: Seq<IndicatorReading>) -> Result<
    i128,
    StrategyError,
> {
    let dot = first_dot(reference, 0);
    if dot >= reference.len() {
        Err(StrategyError::InvalidReference)
    } else {
        match reading_value(
            readings,
            reference.subrange(0, dot),
            reference.subrange(dot + 1, reference.len() as int),
        ) {
            Ok(v) => Ok(v),
            Err(e) => Err(reading_error(e)),
        }
    }
}

/// The value of one side of a comparison.
pub open spec fn expr_value(value: ExprValue, readings: Seq<IndicatorReading>, bar: Bar) -> Result<
    i128,
    StrategyError,
> {
    match value {
        ExprValue::Ref { reference } => reference_value(reference@, readings),
        ExprValue::Const { value } => Ok(value),
        ExprValue::Series { series } => match series_value(series@, bar) {
            Some(v) => Ok(v),
            None => Err(StrategyError::UnknownSeries),
        },
    }
}

/// What a comparison of two values gives. A crossing is told by the values
/// of the moment alone: above is greater, below is less.
pub open spec fn compared(op: ComparisonOp, lhs: i128, rhs: i128) -> bool {
    match op {
        ComparisonOp::Lt => lhs < rhs,
        ComparisonOp::Lte => lhs <= rhs,
        ComparisonOp::Eq => lhs == rhs,
        ComparisonOp::Ne => lhs != rhs,
        ComparisonOp::Gte => lhs >= rhs,
        ComparisonOp::Gt => lhs > rhs,
        ComparisonOp::CrossesAbove => lhs > rhs,
        ComparisonOp::CrossesBelow => lhs < rhs,
    }
}

/// Whether `current` lies below `reference` by `percent` percent of it or
/// more. `percent` is fixed-point.
pub open spec fn dropped_by(current: u64, reference: u64, percent: i128) -> bool {
    reference > 0 && (current - reference) * PERCENT_SCALE <= -(percent * reference)
}

/// Whether a comparison reads as a fall in percent: the close against a
/// constant above 0 and below 100.
pub open spec fn reads_as_drop(expr: Expr) -> bool {
    &&& expr.lhs matches ExprValue::Series { series }
    &&& series@ == "close"@
    &&& expr.rhs matches ExprValue::Const { value }
    &&& 0 < value < 100 * (SCALE as i128)
}

/// The reference of a fall in percent: the close of the candle before, or
/// of this one where there was none before.
pub open spec fn drop_reference(ctx: Context) -> u64 {
    match ctx.prev_close {
        Some(close) => close,
        None => ctx.bar.close,
    }
}

/// What a condition gives. A comparison of the close with a constant above
/// 0 and below 100 asks whether the close has fallen by that many percent
/// from the close of the candle before, whatever its operator; every other
/// comparison compares its two values.
pub open spec fn expr_result(expr: Expr, ctx: Context) -> Result<bool, StrategyError> {
    if reads_as_drop(expr) {
        Ok(dropped_by(ctx.bar.close, drop_reference(ctx), expr.rhs->Const_value))
    } else {
        match expr_value(expr.lhs, ctx.readings, ctx.bar) {
            Err(e) => Err(e),
            Ok(lhs) => match expr_value(expr.rhs, ctx.readings, ctx.bar) {
                Err(e) => Err(e),
                Ok(rhs) => Ok(compared(expr.op, lhs, rhs)),
            },
        }
    }
}

/// The size of an order: the sizing value as a quantity (`qty`), as a
/// percentage of the equity spent at the close (`pct`), or as cash spent at
/// the close (`cash` and every other mode). `None`, no order, where the value
/// is zero, or beyond 64 bits for a quantity or a percentage, or where the
/// size is not above zero or not within 64 bits.
pub open spec fn sized(mode: Seq<char>, value: int, close: int, equity: int) -> Option<u64> {
    let raw: int = if mode == "qty"@ {
        value
    } else if mode == "pct"@ {
        mul_div(mul_div(equity, value, PERCENT_SCALE as int), SCALE as int, close)
    } else {
        mul_div(value, SCALE as int, close)
    };
    if value == 0 || ((mode == "qty"@ || mode == "pct"@) && value > u64::MAX) {
        None
    } else if 0 < raw <= u64::MAX {
        Some(raw as u64)
    } else {
        None
    }
}

/// The time in force that a strategy names: good till cancel unless it says
/// `IOC` or `ALO`.
pub open spec fn tif_named(name: Option<String>) -> Tif {
    match name {
        Some(n) => if n@ == "IOC"@ {
            Tif::Ioc
        } else if n@ == "ALO"@ {
            Tif::Alo
        } else {
            Tif::Gtc
        },
        None => Tif::Gtc,
    }
}

/// The side of an action: its own, or for a close the side that brings the
/// position to zero; `None` for an alert and for a close of nothing.
pub open spec fn action_side(kind: ActionType, position: int) -> Option<Side> {
    match kind {
        ActionType::Buy => Some(Side::Buy),
        ActionType::Sell => Some(Side::Sell),
        ActionType::Close => if position == 0 {
            None
        } else if position > 0 {
            Some(Side::Sell)
        } else {
            Some(Side::Buy)
        },
        ActionType::Alert => None,
    }
}

/// The mode of sizing that an action names; `cash` where it names none.
pub open spec fn mode_named(action: ActionSpec) -> Seq<char> {
    match action.sizing_mode {
        Some(m) => m@,
        None => "cash"@,
    }
}

/// The sizing value that an action names; zero where it names none.
pub open spec fn value_named(action: ActionSpec) -> i128 {
    match action.sizing_value {
        Some(v) => v,
        None => 0,
    }
}

/// The limit price of an action: the one it names, or the close where it
/// names none or zero. `None` where that is no price.
pub open spec fn limit_named(action: ActionSpec, close: u64) -> Option<u64> {
    let raw: i128 = match action.limit {
        Some(l) => l,
        None => 0,
    };
    if raw == 0 {
        Some(close)
    } else if 0 < raw <= u64::MAX {
        Some(raw as u64)
    } else {
        None
    }
}

/// What the order of an action is to do: a market order, or a limit order at
/// the limit price; `None` for every other type of order and for a limit
/// that is no price.
pub open spec fn action_for(action: ActionSpec, side: Side, sz: u64, close: u64) -> Option<Action> {
    let order_type = match action.order_type {
        Some(t) => t@,
        None => "MARKET"@,
    };
    if order_type == "MARKET"@ {
        Some(Action::Market { side, sz })
    } else if order_type == "LIMIT"@ {
        match limit_named(action, close) {
            Some(px) => Some(
                Action::Limit {
                    side,
                    px,
                    sz,
                    tif: tif_named(action.tif),
                    post_only: tif_named(action.tif) == Tif::Alo,
                    reduce_only: action.kind == ActionType::Close,
                },
            ),
            None => None,
        }
    } else {
        None
    }
}

/// The order that an action asks for, in a portfolio that holds `position`
/// in the action's symbol and is worth `equity` at the close. `None` for an
/// action that asks for no order.
pub open spec fn order_for(
    action: ActionSpec,
    bar: Bar,
    order_id: u64,
    position: int,
    equity: int,
) -> Result<Option<Order>, StrategyError> {
    match action_side(action.kind, position) {
        None => Ok(None),
        Some(side) => if bar.close == 0 {
            Err(StrategyError::InvalidCandlePrice)
        } else if value_named(action) < 0 {
            Err(StrategyError::InvalidSizing)
        } else {
            match sized(mode_named(action), value_named(action) as int, bar.close as int, equity) {
                None => Ok(None),
                Some(sz) => match action_for(action, side, sz, bar.close) {
                    None => Ok(None),
                    Some(act) => Ok(
                        Some(
                            Order {
                                id: order_id,
                                action: act,
                                created_at: bar.time_open,
                                filled_sz: 0,
                                status: OrderStatus::Pending,
                            },
                        ),
                    ),
                },
            }
        },
    }
}

/// The first node of the name; `None` where there is none.
pub open spec fn node_named(nodes: Seq<NamedNode>, name: Seq<char>) -> Option<Node>
    decreases nodes.len(),
{
    if nodes.len() == 0 {
        None
    } else if nodes[0].name@ == name {
        Some(nodes[0].node)
    } else {
        node_named(nodes.drop_first(), name)
    }
}

/// A walk from the node `current`, through at most `fuel` nodes that are
/// not terminal: the state in which it ends, and the error with which it
/// failed, if it failed. A condition leads to one of its branches; an action
/// proposes its order, where it asks for one, and leads to its next node; a
/// terminal node ends the walk. What was proposed before a failure stays
/// proposed.
pub open spec fn walk(
    m: RunModel,
    coin_holdings: Holdings,
    nodes: Seq<NamedNode>,
    current: Seq<char>,
    fuel: nat,
    ctx: Context,
) -> (RunModel, Option<StrategyError>)
    decreases fuel,
{
    match node_named(nodes, current) {
        None => (m, Some(StrategyError::NodeNotFound)),
        Some(Node::Terminal) => (m, None),
        Some(Node::Condition { expr, true_branch, false_branch }) => if fuel == 0 {
            (m, Some(StrategyError::Cycle))
        } else {
            match expr_result(expr, ctx) {
                Err(e) => (m, Some(e)),
                Ok(holds) => walk(
                    m,
                    coin_holdings,
                    nodes,
                    if holds {
                        true_branch@
                    } else {
                        false_branch@
                    },
                    (fuel - 1) as nat,
                    ctx,
                ),
            }
        },
        Some(Node::Action { action, guards, next }) => if fuel == 0 {
            (m, Some(StrategyError::Cycle))
        } else {
            match order_for(
                action,
                ctx.bar,
                m.next_order_id,
                coin_holdings.size_of(action.symbol@),
                coin_holdings.equity_of(action.symbol@, ctx.bar.close),
            ) {
                Err(e) => (m, Some(e)),
                Ok(None) => walk(m, coin_holdings, nodes, next@, (fuel - 1) as nat, ctx),
                Ok(Some(order)) => walk(
                    m.proposed(order.action),
                    coin_holdings,
                    nodes,
                    next@,
                    (fuel - 1) as nat,
                    ctx,
                ),
            }
        },
    }
}

/// What a walk that ended in `end` returns.
pub open spec fn outcome(end: Option<StrategyError>) -> Result<(), StrategyError> {
    match end {
        None => Ok(()),
        Some(e) => Err(e),
    }
}

/// Reads a series of the candle.
pub fn read_series(series: &str, candle: &Candle) -> (r: Option<i128>)
    ensures
        r == series_value(series@, bar_of(*candle)),
{
    if same_text(series, "open") {
        Some(candle.open as i128)
    } else if same_text(series, "high") {
        Some(candle.high as i128)
    } else if same_text(series, "low") {
        Some(candle.low as i128)
    } else if same_text(series, "close") {
        Some(candle.close as i128)
    } else if same_text(series, "volume") {
        Some(candle.volume as i128)
    } else {
        None
    }
}

/// Reads the value of one side of a comparison: an output of an indicator,
/// a constant, or a series of the candle.
pub fn get_expr_value_perps(
    expr_val: &ExprValue,
    indicators: &Vec<IndicatorReading>,
    candle: &Candle,
) -> (r: Result<i128, StrategyError>)
    ensures
        r == expr_value(*expr_val, indicators@, bar_of(*candle)),
{
    match expr_val {
        ExprValue::Ref { reference } => {
            let chars = chars_of(reference.as_str());
            let n = chars.len();
            let mut dot: usize = 0;
            while dot < n && chars[dot] != '.'
                invariant
                    dot <= n,
                    n == chars@.len(),
                    first_dot(chars@, 0) == first_dot(chars@, dot as int),
                decreases n - dot,
            {
                dot = dot + 1;
            }
            if dot >= n {
                return Err(StrategyError::InvalidReference);
            }
            match read_value(indicators, &chars, 0, dot, dot + 1, n) {
                Ok(v) => Ok(v),
                Err(ReadingError::IndicatorNotFound) => Err(StrategyError::IndicatorNotFound),
                Err(ReadingError::UnknownOutput) => Err(StrategyError::UnknownOutput),
            }
        },
        ExprValue::Const { value } => Ok(*value),
        ExprValue::Series { series } => match read_series(series.as_str(), candle) {
            Some(v) => Ok(v),
            None => Err(StrategyError::UnknownSeries),
        },
    }
}

/// Tells whether `current` lies below `reference` by `percent` percent of
/// it, or more. A reference of zero has no fall.
pub fn check_percentage_drop(current: u64, reference: u64, percent: i128) -> (r: bool)
    ensures
        r == dropped_by(current, reference, percent),
{
    if reference == 0 {
        return false;
    }
    let delta: i128 = current as i128 - reference as i128;
    proof {
        assert(-(0xFFFF_FFFF_FFFF_FFFF * 10_000_000_000) <= delta * 10_000_000_000
            <= 0xFFFF_FFFF_FFFF_FFFF * 10_000_000_000) by (nonlinear_arith)
            requires
                -0xFFFF_FFFF_FFFF_FFFF <= delta <= 0xFFFF_FFFF_FFFF_FFFF,
        ;
    }
    let change: i128 = delta * (PERCENT_SCALE as i128);
    let ghost wanted: int = -(percent * reference);
    if percent >= 0 {
        // The fall asked for, as a magnitude.
        match (percent as u128).checked_mul(reference as u128) {
            Some(product) => {
                if product > i128::MAX as u128 {
                    proof {
                        assert(change >= -(0xFFFF_FFFF_FFFF_FFFF * 10_000_000_000));
                    }
                    false
                } else {
                    change <= -(product as i128)
                }
            },
            None => {
                proof {
                    assert(change >= -(0xFFFF_FFFF_FFFF_FFFF * 10_000_000_000));
                }
                false
            },
        }
    } else {
        let rise: u128 = magnitude(percent);
        proof {
            assert(wanted == rise * reference) by (nonlinear_arith)
                requires
                    wanted == -(percent * reference),
                    rise == -percent,
            ;
        }
        match rise.checked_mul(reference as u128) {
            Some(product) => {
                if product > i128::MAX as u128 {
                    proof {
                        assert(change <= 0xFFFF_FFFF_FFFF_FFFF * 10_000_000_000);
                    }
                    true
                } else {
                    change <= product as i128
                }
            },
            None => {
                proof {
                    assert(change <= 0xFFFF_FFFF_FFFF_FFFF * 10_000_000_000);
                }
                true
            },
        }
    }
}

/// Decides a condition. A comparison of the close with a constant above 0
/// and below 100 asks for a fall of that many percent from the close of the
/// candle before; every other comparison compares its two values.
pub fn evaluate_expr_perps(
    expr: &Expr,
    indicators: &Vec<IndicatorReading>,
    candle: &Candle,
    prev_candle_close: Option<u64>,
) -> (r: Result<bool, StrategyError>)
    ensures
        r == expr_result(
            *expr,
            Context { readings: indicators@, bar: bar_of(*candle), prev_close: prev_candle_close },
        ),
{
    match (&expr.lhs, &expr.rhs) {
        (ExprValue::Series { series }, ExprValue::Const { value }) => {
            if same_text(series.as_str(), "close") && *value > 0 && *value < 100 * (SCALE as i128) {
                let reference = match prev_candle_close {
                    Some(close) => close,
                    None => candle.close,
                };
                return Ok(check_percentage_drop(candle.close, reference, *value));
            }
        },
        _ => {},
    }
    let lhs_val = match get_expr_value_perps(&expr.lhs, indicators, candle) {
        Ok(v) => v,
        Err(e) => {
            return Err(e);
        },
    };
    let rhs_val = match get_expr_value_perps(&expr.rhs, indicators, candle) {
        Ok(v) => v,
        Err(e) => {
            return Err(e);
        },
    };
    Ok(
        match expr.op {
            ComparisonOp::Lt => lhs_val < rhs_val,
            ComparisonOp::Lte => lhs_val <= rhs_val,
            ComparisonOp::Eq => lhs_val == rhs_val,
            ComparisonOp::Ne => lhs_val != rhs_val,
            ComparisonOp::Gte => lhs_val >= rhs_val,
            ComparisonOp::Gt => lhs_val > rhs_val,
            ComparisonOp::CrossesAbove => lhs_val > rhs_val,
            ComparisonOp::CrossesBelow => lhs_val < rhs_val,
        },
    )
}

/// Sizes an order.
pub fn size_order(mode: &str, value: i128, close: u64, equity: i128) -> (r: Option<u64>)
    requires
        close > 0,
        value >= 0,
    ensures
        r == sized(mode@, value as int, close as int, equity as int),
{
    if value == 0 {
        return None;
    }
    let raw: Option<i128> = if same_text(mode, "qty") {
        if value > u64::MAX as i128 {
            return None;
        }
        Some(value)
    } else if same_text(mode, "pct") {
        if value > u64::MAX as i128 {
            return None;
        }
        match mul_div_signed(equity, value, PERCENT_SCALE as u64) {
            Some(amount) => mul_div_signed(amount, SCALE as i128, close),
            None => {
                proof {
                    lemma_beyond_money(
                        mul_div(equity as int, value as int, PERCENT_SCALE as int),
                        close as int,
                    );
                }
                None
            },
        }
    } else {
        mul_div_signed(value, SCALE as i128, close)
    };
    match raw {
        Some(sz) => if sz > 0 && sz <= u64::MAX as i128 {
            Some(sz as u64)
        } else {
            None
        },
        None => None,
    }
}

/// An amount beyond the range of money buys, at any price, a size beyond 64
/// bits or a size that is not above zero.
pub proof fn lemma_beyond_money(amount: int, close: int)
    requires
        amount > i128::MAX || amount < -(i128::MAX as int),
        0 < close <= u64::MAX,
    ensures
        !(0 < mul_div(amount, SCALE as int, close) <= u64::MAX),
{
    if amount > 0 {
        assert((amount * 100_000_000) / close > 0xFFFF_FFFF_FFFF_FFFF) by (nonlinear_arith)
            requires
                amount > 0x7FFF_FFFF_FFFF_FFFF_FFFF_FFFF_FFFF_FFFF,
                0 < close <= 0xFFFF_FFFF_FFFF_FFFF,
        ;
    } else {
        assert(amount * 100_000_000 < 0) by (nonlinear_arith)
            requires
                amount < 0,
        ;
        assert((-(amount * 100_000_000)) / close >= 0) by (nonlinear_arith)
            requires
                amount * 100_000_000 < 0,
                0 < close,
        ;
    }
}

/// Reads the time in force that a strategy names.
pub fn read_tif(name: &Option<String>) -> (tif: Tif)
    ensures
        tif == tif_named(*name),
{
    match name {
        Some(n) => if same_text(n.as_str(), "IOC") {
            Tif::Ioc
        } else if same_text(n.as_str(), "ALO") {
            Tif::Alo
        } else {
            Tif::Gtc
        },
        None => Tif::Gtc,
    }
}

/// Makes the order that an action asks for: on the action's side, or for a
/// close on the side that brings the position to zero; sized by the action's
/// sizing; a market order, or a limit order at the named limit or at the
/// close. An alert, a close of nothing, a sizing of zero, a size or a limit
/// that cannot be, and an order type that is neither, give no order.
pub fn create_order_from_action_perps(
    action: &ActionSpec,
    candle: &Candle,
    order_id: u64,
    portfolio: &Portfolio,
) -> (r: Result<Option<Order>, StrategyError>)
    requires
        portfolio.wf(),
    ensures
        r == order_for(
            *action,
            bar_of(*candle),
            order_id,
            portfolio@.size_of(action.symbol@),
            portfolio@.equity_of(action.symbol@, candle.close),
        ),
{
    let side = match action.kind {
        ActionType::Buy => Side::Buy,
        ActionType::Sell => Side::Sell,
        ActionType::Close => {
            let pos_size = portfolio.get_position(action.symbol.as_str());
            if pos_size == 0 {
                return Ok(None);
            }
            if pos_size > 0 {
                Side::Sell
            } else {
                Side::Buy
            }
        },
        ActionType::Alert => {
            return Ok(None);
        },
    };
    let sizing_value: i128 = match action.sizing_value {
        Some(v) => v,
        None => 0,
    };
    if candle.close == 0 {
        return Err(StrategyError::InvalidCandlePrice);
    }
    if sizing_value < 0 {
        return Err(StrategyError::InvalidSizing);
    }
    let equity = portfolio.total_equity(action.symbol.as_str(), candle.close);
    let sized = match &action.sizing_mode {
        Some(mode) => size_order(mode.as_str(), sizing_value, candle.close, equity),
        None => size_order("cash", sizing_value, candle.close, equity),
    };
    let sz: u64 = match sized {
        Some(sz) => sz,
        None => {
            return Ok(None);
        },
    };
    let is_market = match &action.order_type {
        Some(t) => same_text(t.as_str(), "MARKET"),
        None => true,
    };
    let is_limit = match &action.order_type {
        Some(t) => same_text(t.as_str(), "LIMIT"),
        None => false,
    };
    let order_action = if is_market {
        Action::Market { side, sz }
    } else if is_limit {
        let limit_px_raw: i128 = match action.limit {
            Some(l) => l,
            None => 0,
        };
        let limit_px: u64 = if limit_px_raw == 0 {
            candle.close
        } else if limit_px_raw > 0 && limit_px_raw <= u64::MAX as i128 {
            limit_px_raw as u64
        } else {
            return Ok(None);
        };
        let tif = read_tif(&action.tif);
        let post_only = match tif {
            Tif::Alo => true,
            _ => false,
        };
        let reduce_only = match action.kind {
            ActionType::Close => true,
            _ => false,
        };
        Action::Limit { side, px: limit_px, sz, tif, post_only, reduce_only }
    } else {
        return Ok(None);
    };
    Ok(
        Some(
            Order {
                id: order_id,
                action: order_action,
                created_at: candle.time_open,
                filled_sz: 0,
                status: OrderStatus::Pending,
            },
        ),
    )
}

/// Finds the first node of a name.
pub fn find_node<'a>(nodes: &'a Vec<NamedNode>, name: &str) -> (r: Option<&'a Node>)
    ensures
        match r {
            Some(node) => node_named(nodes@, name@) == Some(*node),
            None => node_named(nodes@, name@) is None,
        },
{
    let n = nodes.len();
    let mut i: usize = 0;
    proof {
        assert(nodes@.skip(0) =~= nodes@);
    }
    while i < n
        invariant
            i <= n,
            n == nodes@.len(),
            node_named(nodes@, name@) == node_named(nodes@.skip(i as int), name@),
        decreases n - i,
    {
        proof {
            assert(nodes@.skip(i as int)[0] == nodes@[i as int]);
            assert(nodes@.skip(i as int).drop_first() =~= nodes@.skip(i + 1));
        }
        if same_text(nodes[i].name.as_str(), name) {
            return Some(&nodes[i].node);
        }
        i = i + 1;
    }
    None
}

/// Walks a graph from its entry and proposes to the run the orders that its
/// actions ask for. The walk ends at a terminal node; it fails where it
/// comes to a name that no node has, where a condition or an action fails,
/// and where it has gone through as many nodes as the graph holds without
/// coming to an end. Orders proposed before a failure stay proposed.
pub fn evaluate_graph_perps(
    run: &mut PerpsRun,
    entry_node: &str,
    nodes: &Vec<NamedNode>,
    indicators: &Vec<IndicatorReading>,
) -> (r: Result<(), StrategyError>)
    requires
        old(run).wf(),
    ensures
        final(run).wf(),
        final(run).env() == old(run).env(),
        (final(run)@, r) == ({
            let w = walk(
                old(run)@,
                old(run)@.holdings,
                nodes@,
                entry_node@,
                nodes@.len(),
                Context {
                    readings: indicators@,
                    bar: old(run)@.bar,
                    prev_close: old(run)@.prev_candle_close,
                },
            );
            (w.0, outcome(w.1))
        }),
{
    let ghost ctx = Context {
        readings: indicators@,
        bar: run@.bar,
        prev_close: run@.prev_candle_close,
    };
    let ghost holdings = run@.holdings;
    let ghost start = run@;
    let mut current: &str = entry_node;
    let mut fuel: usize = nodes.len();
    loop
        invariant
            run.wf(),
            run.env() == old(run).env(),
            run@.holdings == holdings,
            run@.bar == ctx.bar,
            run@.prev_candle_close == ctx.prev_close,
            ctx.readings == indicators@,
            fuel <= nodes@.len(),
            walk(start, holdings, nodes@, entry_node@, nodes@.len(), ctx) == walk(
                run@,
                holdings,
                nodes@,
                current@,
                fuel as nat,
                ctx,
            ),
            start == old(run)@,
            holdings == old(run)@.holdings,
            ctx == (Context {
                readings: indicators@,
                bar: old(run)@.bar,
                prev_close: old(run)@.prev_candle_close,
            }),
        ensures
            walk(start, holdings, nodes@, entry_node@, nodes@.len(), ctx) == (
                run@,
                None::<StrategyError>,
            ),
            run.wf(),
            run.env() == old(run).env(),
        decreases fuel,
    {
        let node = match find_node(nodes, current) {
            Some(node) => node,
            None => {
                return Err(StrategyError::NodeNotFound);
            },
        };
        match node {
            Node::Terminal => {
                break;
            },
            Node::Condition { expr, true_branch, false_branch } => {
                if fuel == 0 {
                    return Err(StrategyError::Cycle);
                }
                let holds = match evaluate_expr_perps(
                    expr,
                    indicators,
                    run.candle(),
                    run.prev_candle_close(),
                ) {
                    Ok(b) => b,
                    Err(e) => {
                        return Err(e);
                    },
                };
                current = if holds {
                    true_branch.as_str()
                } else {
                    false_branch.as_str()
                };
                fuel = fuel - 1;
            },
            Node::Action { action, guards: _, next } => {
                if fuel == 0 {
                    return Err(StrategyError::Cycle);
                }
                let made = match create_order_from_action_perps(
                    action,
                    run.candle(),
                    run.next_order_id(),
                    run.portfolio(),
                ) {
                    Ok(made) => made,
                    Err(e) => {
                        return Err(e);
                    },
                };
                match made {
                    Some(order) => {
                        let _ = run.propose(order.action);
                    },
                    None => {},
                }
                current = next.as_str();
                fuel = fuel - 1;
            },
        }
    }
    Ok(())
}

/// The graph that a tick has the strategy walk: the entry graph where the
/// run asks for an entry, the exit graph, if the strategy has one, where it
/// asks for an exit.
pub open spec fn graph_for(strategy: CompiledStrategy, tick: Tick) -> Option<(Seq<char>, Seq<NamedNode>)> {
    match tick {
        Tick::Entry => Some((strategy.entry_node@, strategy.nodes@)),
        Tick::Exit => match (strategy.exit_entry_node, strategy.exit_nodes) {
            (Some(entry), Some(nodes)) => Some((entry@, nodes@)),
            _ => None,
        },
        _ => None,
    }
}

/// Has the strategy decide at this tick: it walks the graph that the tick
/// asks for and proposes the orders of its actions; where the walk fails,
/// what was proposed before stays proposed. At a tick that asks nothing of
/// the strategy nothing is decided.
pub fn decide(run: &mut PerpsRun, strategy: &CompiledStrategy, indicators: &Vec<IndicatorReading>) -> (r:
    Result<(), StrategyError>)
    requires
        old(run).wf(),
    ensures
        final(run).wf(),
        final(run).env() == old(run).env(),
        match graph_for(*strategy, old(run)@.tick) {
            None => r is Ok && final(run)@ == old(run)@,
            Some(graph) => (final(run)@, r) == ({
                let w = walk(
                    old(run)@,
                    old(run)@.holdings,
                    graph.1,
                    graph.0,
                    graph.1.len(),
                    Context {
                        readings: indicators@,
                        bar: old(run)@.bar,
                        prev_close: old(run)@.prev_candle_close,
                    },
                );
                (w.0, outcome(w.1))
            }),
        },
{
    match run.tick() {
        Tick::Entry => evaluate_graph_perps(
            run,
            strategy.entry_node.as_str(),
            &strategy.nodes,
            indicators,
        ),
        Tick::Exit => match (&strategy.exit_entry_node, &strategy.exit_nodes) {
            (Some(entry), Some(nodes)) => evaluate_graph_perps(
                run,
                entry.as_str(),
                nodes,
                indicators,
            ),
            _ => Ok(()),
        },
        _ => Ok(()),
    }
}

} // verus!
