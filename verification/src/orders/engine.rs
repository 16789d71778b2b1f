//! The simulation over candles: the decisions of a strategy at each candle,
//! the fills of its orders against the candle, and the statistics of a
//! finished run.

use crate::data::types::{bar_of, Bar, Candle};
use crate::fees::FeeCalculator;
use crate::fixed::{mul_div, mul_div_signed, notional, notional_of, SCALE};
use crate::indicators2::values::{read_value, reading_value, IndicatorReading, ReadingError};
use crate::ir::compile::CompiledStrategy;
use crate::ir::types::{ActionSpec, ActionType, ComparisonOp, Expr, ExprValue, NamedNode, Node};
use crate::metrics::{calculate_drawdown, calculate_trade_stats, drawdown_of, trade_stats_of};
use crate::orders::fills::{
    can_process, candle_fill, process_order_fill, slippage_ok, FillResult,
};
use crate::orders::types::{
    Action, EquityPoint, Order, OrderStatus, Side, SimConfig, SimResult, Tif, Trade, TradeView,
};
use crate::perps::decision::{
    action_side, compared, find_node, first_dot, mode_named, node_named, outcome, read_series,
    read_tif, reading_error, series_value, tif_named, value_named, StrategyError,
};
use crate::perps::engine::{
    pct_fits, return_pct, return_percent, trade_views, PERCENT_SCALE,
};
use crate::perps::trade_utils::{side_name, side_to_string};
use crate::portfolio::{Holdings, Portfolio, CASH_LIMIT};
use crate::text::{chars_of, same_text};
use vstd::prelude::*;

verus! {

/// The value that a reference with exactly one dot names: the output behind
/// the dot, of the indicator before it.
pub open spec fn plain_reference_value(reference: Seq<char>, readings: Seq<IndicatorReading>) -> Result<
    i128,
    StrategyError,
> {
    let dot = first_dot(reference, 0);
    if dot >= reference.len() || first_dot(reference, dot + 1) < reference.len() {
        Err(StrategyError::InvalidReference)
    } else {
        match reading_value(
            readings,
            reference.subrange(0, dot),
            reference.subrange(dot + 1, reference.len() as int),
        ) {
            Ok(v) => Ok(v),
            Err(e) => Err(reading_error(e)),
        }
    }
}

/// The value of one side of a comparison.
pub open spec fn plain_expr_value(value: ExprValue, readings: Seq<IndicatorReading>, bar: Bar) -> Result<
    i128,
    StrategyError,
> {
    match value {
        ExprValue::Ref { reference } => plain_reference_value(reference@, readings),
        ExprValue::Const { value } => Ok(value),
        ExprValue::Series { series } => match series_value(series@, bar) {
            Some(v) => Ok(v),
            None => Err(StrategyError::UnknownSeries),
        },
    }
}

/// What a condition gives: the comparison of its two values.
pub open spec fn plain_expr_result(expr: Expr, readings: Seq<IndicatorReading>, bar: Bar) -> Result<
    bool,
    StrategyError,
> {
    match plain_expr_value(expr.lhs, readings, bar) {
        Err(e) => Err(e),
        Ok(lhs) => match plain_expr_value(expr.rhs, readings, bar) {
            Err(e) => Err(e),
            Ok(rhs) => Ok(compared(expr.op, lhs, rhs)),
        },
    }
}

/// The size of an order by its sizing: a quantity (`qty`), a percentage of
/// the equity spent at the close (`pct`), or cash spent at the close (`cash`
/// and every other mode). `None`, no order, where the size is below zero or
/// not within 64 bits, where cash or a percentage meets a close of zero, and
/// for a percentage whose magnitude is beyond 64 bits.
pub open spec fn sized_at(mode: Seq<char>, value: int, close: int, equity: int) -> Option<u64> {
    if mode == "qty"@ {
        if 0 <= value <= u64::MAX {
            Some(value as u64)
        } else {
            None
        }
    } else if close == 0 {
        None
    } else if mode == "pct"@ {
        let raw = mul_div(mul_div(equity, value, PERCENT_SCALE as int), SCALE as int, close);
        if -(u64::MAX as int) <= value <= u64::MAX && 0 <= raw <= u64::MAX {
            Some(raw as u64)
        } else {
            None
        }
    } else {
        let raw = mul_div(value, SCALE as int, close);
        if 0 <= raw <= u64::MAX {
            Some(raw as u64)
        } else {
            None
        }
    }
}

/// A price that a strategy names, or the close where it names none; `None`
/// where what it names is no price.
pub open spec fn price_named(named: Option<i128>, close: u64) -> Option<u64> {
    match named {
        None => Some(close),
        Some(p) => if 0 <= p <= u64::MAX {
            Some(p as u64)
        } else {
            None
        },
    }
}

/// The limit of a limit order: the close where the strategy names none or
/// zero.
pub open spec fn limit_or_close(named: Option<i128>, close: u64) -> Option<u64> {
    match named {
        Some(p) => if p == 0 {
            Some(close)
        } else {
            price_named(named, close)
        },
        None => Some(close),
    }
}

/// What the order of an action is to do, by the type of order that the
/// action names; a market order where it names none. `None` for a type that
/// is none of the six, and where a limit or a trigger is no price.
pub open spec fn typed_action(action: ActionSpec, side: Side, sz: u64, close: u64) -> Option<
    Action,
> {
    let order_type = match action.order_type {
        Some(t) => t@,
        None => "MARKET"@,
    };
    let tif = tif_named(action.tif);
    if order_type == "MARKET"@ {
        Some(Action::Market { side, sz })
    } else if order_type == "LIMIT"@ {
        match limit_or_close(action.limit, close) {
            Some(px) => Some(
                Action::Limit {
                    side,
                    px,
                    sz,
                    tif,
                    post_only: tif == Tif::Alo,
                    reduce_only: action.kind == ActionType::Close,
                },
            ),
            None => None,
        }
    } else if order_type == "STOP_MARKET"@ {
        match price_named(action.trigger, close) {
            Some(trigger) => Some(Action::StopMarket { side, trigger, sz }),
            None => None,
        }
    } else if order_type == "STOP_LIMIT"@ {
        match (price_named(action.trigger, close), price_named(action.limit, close)) {
            (Some(trigger), Some(px)) => Some(Action::StopLimit { side, trigger, px, sz, tif }),
            _ => None,
        }
    } else if order_type == "TAKE_MARKET"@ {
        match price_named(action.trigger, close) {
            Some(trigger) => Some(Action::TakeMarket { side, trigger, sz }),
            None => None,
        }
    } else if order_type == "TAKE_LIMIT"@ {
        match (price_named(action.trigger, close), price_named(action.limit, close)) {
            (Some(trigger), Some(px)) => Some(Action::TakeLimit { side, trigger, px, sz, tif }),
            _ => None,
        }
    } else {
        None
    }
}

/// The order that an action asks for at a candle, in a portfolio that holds
/// `position` in the action's symbol and is worth `equity` at the close.
pub open spec fn candle_order_for(
    action: ActionSpec,
    bar: Bar,
    order_id: u64,
    position: int,
    equity: int,
) -> Option<Order> {
    match action_side(action.kind, position) {
        None => None,
        Some(side) => match sized_at(
            mode_named(action),
            value_named(action) as int,
            bar.close as int,
            equity,
        ) {
            None => None,
            Some(sz) => match typed_action(action, side, sz, bar.close) {
                None => None,
                Some(act) => Some(
                    Order {
                        id: order_id,
                        action: act,
                        created_at: bar.time_open,
                        filled_sz: 0,
                        status: OrderStatus::Pending,
                    },
                ),
            },
        },
    }
}

/// Reads the value of one side of a comparison. A reference is written
/// `indicator.output`, with one dot.
pub fn get_expr_value(expr_val: &ExprValue, indicators: &Vec<IndicatorReading>, candle: &Candle) -> (r:
    Result<i128, StrategyError>)
    ensures
        r == plain_expr_value(*expr_val, indicators@, bar_of(*candle)),
{
    match expr_val {
        ExprValue::Ref { reference } => {
            let chars = chars_of(reference.as_str());
            let n = chars.len();
            let mut dot: usize = 0;
            while dot < n && chars[dot] != '.'
                invariant
                    dot <= n,
                    n == chars@.len(),
                    first_dot(chars@, 0) == first_dot(chars@, dot as int),
                decreases n - dot,
            {
                dot = dot + 1;
            }
            if dot >= n {
                return Err(StrategyError::InvalidReference);
            }
            let mut second: usize = dot + 1;
            while second < n && chars[second] != '.'
                invariant
                    dot < second <= n,
                    n == chars@.len(),
                    first_dot(chars@, dot + 1) == first_dot(chars@, second as int),
                decreases n - second,
            {
                second = second + 1;
            }
            if second < n {
                return Err(StrategyError::InvalidReference);
            }
            match read_value(indicators, &chars, 0, dot, dot + 1, n) {
                Ok(v) => Ok(v),
                Err(ReadingError::IndicatorNotFound) => Err(StrategyError::IndicatorNotFound),
                Err(ReadingError::UnknownOutput) => Err(StrategyError::UnknownOutput),
            }
        },
        ExprValue::Const { value } => Ok(*value),
        ExprValue::Series { series } => match read_series(series.as_str(), candle) {
            Some(v) => Ok(v),
            None => Err(StrategyError::UnknownSeries),
        },
    }
}

/// Decides a condition: compares its two values.
pub fn evaluate_expr(expr: &Expr, indicators: &Vec<IndicatorReading>, candle: &Candle) -> (r: Result<
    bool,
    StrategyError,
>)
    ensures
        r == plain_expr_result(*expr, indicators@, bar_of(*candle)),
{
    let lhs_val = match get_expr_value(&expr.lhs, indicators, candle) {
        Ok(v) => v,
        Err(e) => {
            return Err(e);
        },
    };
    let rhs_val = match get_expr_value(&expr.rhs, indicators, candle) {
        Ok(v) => v,
        Err(e) => {
            return Err(e);
        },
    };
    Ok(
        match expr.op {
            ComparisonOp::Lt => lhs_val < rhs_val,
            ComparisonOp::Lte => lhs_val <= rhs_val,
            ComparisonOp::Eq => lhs_val == rhs_val,
            ComparisonOp::Ne => lhs_val != rhs_val,
            ComparisonOp::Gte => lhs_val >= rhs_val,
            ComparisonOp::Gt => lhs_val > rhs_val,
            ComparisonOp::CrossesAbove => lhs_val > rhs_val,
            ComparisonOp::CrossesBelow => lhs_val < rhs_val,
        },
    )
}

/// Sizes an order at a candle.
pub fn size_at(mode: &str, value: i128, close: u64, equity: i128) -> (r: Option<u64>)
    ensures
        r == sized_at(mode@, value as int, close as int, equity as int),
{
    if same_text(mode, "qty") {
        return if value >= 0 && value <= u64::MAX as i128 {
            Some(value as u64)
        } else {
            None
        };
    }
    if close == 0 {
        return None;
    }
    let raw: Option<i128> = if same_text(mode, "pct") {
        if value > u64::MAX as i128 || value < -(u64::MAX as i128) {
            return None;
        }
        match mul_div_signed(equity, value, PERCENT_SCALE as u64) {
            Some(amount) => mul_div_signed(amount, SCALE as i128, close),
            None => {
                proof {
                    crate::perps::decision::lemma_beyond_money(
                        mul_div(equity as int, value as int, PERCENT_SCALE as int),
                        close as int,
                    );
                    let amount = mul_div(equity as int, value as int, PERCENT_SCALE as int);
                    if amount > 0 {
                        assert((amount * 100_000_000) / (close as int) > 0) by (nonlinear_arith)
                            requires
                                amount > 0x7FFF_FFFF_FFFF_FFFF_FFFF_FFFF_FFFF_FFFF,
                                0 < close <= 0xFFFF_FFFF_FFFF_FFFF,
                        ;
                    } else {
                        assert(amount * 100_000_000 < 0) by (nonlinear_arith)
                            requires
                                amount < 0,
                        ;
                        assert((-(amount * 100_000_000)) / (close as int) > 0) by (nonlinear_arith)
                            requires
                                amount < -0x7FFF_FFFF_FFFF_FFFF_FFFF_FFFF_FFFF_FFFF,
                                0 < close <= 0xFFFF_FFFF_FFFF_FFFF,
                        ;
                    }
                }
                None
            },
        }
    } else {
        mul_div_signed(value, SCALE as i128, close)
    };
    match raw {
        Some(sz) => if sz >= 0 && sz <= u64::MAX as i128 {
            Some(sz as u64)
        } else {
            None
        },
        None => None,
    }
}

/// Reads a price that a strategy names, or takes the close.
fn read_price(named: Option<i128>, close: u64) -> (r: Option<u64>)
    ensures
        r == price_named(named, close),
{
    match named {
        None => Some(close),
        Some(p) => if p >= 0 && p <= u64::MAX as i128 {
            Some(p as u64)
        } else {
            None
        },
    }
}

/// Makes the order that an action asks for at a candle: on the action's
/// side, or for a close on the side that brings the position to zero; sized
/// by the action's sizing; of the type that the action names, with limit and
/// trigger at the close where it names none. An alert, a close of nothing,
/// a size, a limit or a trigger that cannot be, and a type that is none of
/// the six, give no order.
pub fn create_order_from_action(
    action: &ActionSpec,
    candle: &Candle,
    order_id: u64,
    portfolio: &Portfolio,
) -> (r: Option<Order>)
    requires
        portfolio.wf(),
    ensures
        r == candle_order_for(
            *action,
            bar_of(*candle),
            order_id,
            portfolio@.size_of(action.symbol@),
            portfolio@.equity_of(action.symbol@, candle.close),
        ),
{
    let side = match action.kind {
        ActionType::Buy => Side::Buy,
        ActionType::Sell => Side::Sell,
        ActionType::Close => {
            let pos_size = portfolio.get_position(action.symbol.as_str());
            if pos_size == 0 {
                return None;
            }
            if pos_size > 0 {
                Side::Sell
            } else {
                Side::Buy
            }
        },
        ActionType::Alert => {
            return None;
        },
    };
    let sizing_value: i128 = match action.sizing_value {
        Some(v) => v,
        None => 0,
    };
    let equity = portfolio.total_equity(action.symbol.as_str(), candle.close);
    let sized = match &action.sizing_mode {
        Some(mode) => size_at(mode.as_str(), sizing_value, candle.close, equity),
        None => size_at("cash", sizing_value, candle.close, equity),
    };
    let sz: u64 = match sized {
        Some(sz) => sz,
        None => {
            return None;
        },
    };
    let kind: &str = match &action.order_type {
        Some(t) => t.as_str(),
        None => "MARKET",
    };
    let tif = read_tif(&action.tif);
    let order_action = if same_text(kind, "MARKET") {
        Action::Market { side, sz }
    } else if same_text(kind, "LIMIT") {
        let named = match action.limit {
            Some(p) => if p == 0 {
                None
            } else {
                Some(p)
            },
            None => None,
        };
        let px = match read_price(named, candle.close) {
            Some(px) => px,
            None => {
                return None;
            },
        };
        let post_only = match tif {
            Tif::Alo => true,
            _ => false,
        };
        let reduce_only = match action.kind {
            ActionType::Close => true,
            _ => false,
        };
        Action::Limit { side, px, sz, tif, post_only, reduce_only }
    } else if same_text(kind, "STOP_MARKET") {
        match read_price(action.trigger, candle.close) {
            Some(trigger) => Action::StopMarket { side, trigger, sz },
            None => {
                return None;
            },
        }
    } else if same_text(kind, "STOP_LIMIT") {
        match (read_price(action.trigger, candle.close), read_price(action.limit, candle.close)) {
            (Some(trigger), Some(px)) => Action::StopLimit { side, trigger, px, sz, tif },
            _ => {
                return None;
            },
        }
    } else if same_text(kind, "TAKE_MARKET") {
        match read_price(action.trigger, candle.close) {
            Some(trigger) => Action::TakeMarket { side, trigger, sz },
            None => {
                return None;
            },
        }
    } else if same_text(kind, "TAKE_LIMIT") {
        match (read_price(action.trigger, candle.close), read_price(action.limit, candle.close)) {
            (Some(trigger), Some(px)) => Action::TakeLimit { side, trigger, px, sz, tif },
            _ => {
                return None;
            },
        }
    } else {
        return None;
    };
    Some(
        Order {
            id: order_id,
            action: order_action,
            created_at: candle.time_open,
            filled_sz: 0,
            status: OrderStatus::Pending,
        },
    )
}

/// Why a simulation over candles cannot go on.
#[derive(Debug, Clone, Copy, PartialEq, Eq, Structural)]
pub enum SimError {
    /// The strategy could not decide.
    Strategy(StrategyError),
    /// A position, the cash, a price after slippage or a statistic left the
    /// range that the simulation holds.
    LimitExceeded,
    /// There are fewer candles than the indicators need.
    NotEnoughCandles,
}

/// The state of a simulation over candles.
pub struct SimModel {
    pub holdings: Holdings,
    /// The orders that wait to be filled.
    pub active: Seq<Order>,
    pub trades: Seq<TradeView>,
    pub equity: Seq<EquityPoint>,
    pub next_order_id: u64,
}

/// A simulation over candles.
#[derive(Debug, Clone)]
pub struct Simulation {
    portfolio: Portfolio,
    fee_calc: FeeCalculator,
    initial_capital: i128,
    active_orders: Vec<Order>,
    next_order_id: u64,
    trades: Vec<Trade>,
    equity_curve: Vec<EquityPoint>,
}

/// The sequence without the orders at the indices `removed`, taken out from
/// the last index to the first; the others keep their order.
pub open spec fn remove_all(s: Seq<Order>, removed: Seq<usize>) -> Seq<Order>
    decreases removed.len(),
{
    if removed.len() == 0 {
        s
    } else {
        remove_all(s.remove(removed.last() as int), removed.drop_last())
    }
}

impl SimModel {
    /// The state after an order is taken with the next number.
    pub open spec fn taken(self, order: Order) -> SimModel {
        SimModel {
            active: self.active.push(order),
            next_order_id: (self.next_order_id + 1) as u64,
            ..self
        }
    }

    /// A walk from the node `current`, through at most `fuel` nodes that
    /// are not terminal: the state in which it ends, and the error with
    /// which it failed, if it failed. A condition leads to one of its
    /// branches; an action has its order, where it asks for one, join the
    /// active orders, and leads to its next node; a terminal node ends the
    /// walk. Orders taken before a failure stay.
    pub open spec fn walk(
        self,
        nodes: Seq<NamedNode>,
        current: Seq<char>,
        fuel: nat,
        readings: Seq<IndicatorReading>,
        bar: Bar,
    ) -> (SimModel, Option<StrategyError>)
        decreases fuel,
    {
        match node_named(nodes, current) {
            None => (self, Some(StrategyError::NodeNotFound)),
            Some(Node::Terminal) => (self, None),
            Some(Node::Condition { expr, true_branch, false_branch }) => if fuel == 0 {
                (self, Some(StrategyError::Cycle))
            } else {
                match plain_expr_result(expr, readings, bar) {
                    Err(e) => (self, Some(e)),
                    Ok(holds) => self.walk(
                        nodes,
                        if holds {
                            true_branch@
                        } else {
                            false_branch@
                        },
                        (fuel - 1) as nat,
                        readings,
                        bar,
                    ),
                }
            },
            Some(Node::Action { action, guards, next }) => if fuel == 0 {
                (self, Some(StrategyError::Cycle))
            } else {
                match candle_order_for(
                    action,
                    bar,
                    self.next_order_id,
                    self.holdings.size_of(action.symbol@),
                    self.holdings.equity_of(action.symbol@, bar.close),
                ) {
                    None => self.walk(nodes, next@, (fuel - 1) as nat, readings, bar),
                    Some(order) => if self.next_order_id == u64::MAX {
                        (self, Some(StrategyError::OrdersExhausted))
                    } else {
                        self.taken(order).walk(nodes, next@, (fuel - 1) as nat, readings, bar)
                    },
                }
            },
        }
    }

    /// The trade that records the fill of an order at a candle.
    pub open spec fn trade_at(order: Order, fill: FillResult, candle: Candle, fee_calc: FeeCalculator) -> TradeView {
        TradeView {
            timestamp: candle.time_open,
            symbol: candle.coin@,
            side: side_name(order.action.side_of()),
            size: fill.filled_sz,
            price: fill.fill_price,
            fee: fee_calc.fee_of(
                notional_of(fill.filled_sz as int, fill.fill_price as int),
                fill.is_maker,
            ) as i128,
            order_id: order.id,
        }
    }

    /// The state after the first `n` active orders met the candle, with the
    /// indices of those that filled or were canceled: they leave the active
    /// orders. A fill is booked as a trade with its fee. `None` where a price
    /// after slippage is none, or the ledger cannot hold a trade.
    pub open spec fn fills_done(self, candle: Candle, fee_calc: FeeCalculator, n: int) -> Option<
        (SimModel, Seq<usize>),
    >
        decreases n,
    {
        if n <= 0 {
            Some((self, Seq::empty()))
        } else {
            match self.fills_done(candle, fee_calc, n - 1) {
                None => None,
                Some(done) => {
                    let order = self.active[n - 1];
                    if !slippage_ok(order, candle, fee_calc) {
                        None
                    } else {
                        match candle_fill(order, candle, fee_calc) {
                            None => Some(done),
                            Some(fill) => if fill.order_status == OrderStatus::Filled {
                                let trade = Self::trade_at(order, fill, candle, fee_calc);
                                if done.0.holdings.can_book(trade, fill.fill_price) {
                                    Some(
                                        (
                                            SimModel {
                                                holdings: done.0.holdings.booked(
                                                    trade,
                                                    fill.fill_price,
                                                ),
                                                trades: done.0.trades.push(trade),
                                                ..done.0
                                            },
                                            done.1.push((n - 1) as usize),
                                        ),
                                    )
                                } else {
                                    None
                                }
                            } else if fill.order_status == OrderStatus::Canceled {
                                Some((done.0, done.1.push((n - 1) as usize)))
                            } else {
                                Some(done)
                            },
                        }
                    }
                },
            }
        }
    }

    /// The state after those of the first `n` orders that come before the
    /// first that the simulation cannot take further: where a candle fails,
    /// the simulation stops there, and the orders that filled or were
    /// canceled are still among the active orders.
    pub open spec fn fills_held(self, candle: Candle, fee_calc: FeeCalculator, n: int) -> SimModel
        decreases n,
    {
        if n <= 0 {
            self
        } else {
            match self.fills_done(candle, fee_calc, n) {
                Some(done) => done.0,
                None => self.fills_held(candle, fee_calc, n - 1),
            }
        }
    }

    /// The sample of the portfolio's value at the close of a candle.
    pub open spec fn sample_at(self, candle: Candle) -> EquityPoint {
        EquityPoint {
            timestamp: candle.time_open,
            equity: self.holdings.equity_of(candle.coin@, candle.close) as i128,
            cash: self.holdings.cash as i128,
            position_value: self.holdings.value_of(candle.coin@, candle.close) as i128,
        }
    }

    /// The state after the active orders met the candle and the equity was
    /// sampled.
    pub open spec fn settled(self, candle: Candle, fee_calc: FeeCalculator) -> Option<SimModel> {
        match self.fills_done(candle, fee_calc, self.active.len() as int) {
            None => None,
            Some(done) => {
                let left = SimModel { active: remove_all(done.0.active, done.1), ..done.0 };
                Some(SimModel { equity: left.equity.push(left.sample_at(candle)), ..left })
            },
        }
    }
}

/// The graph that a candle has the strategy walk: the entry graph while the
/// portfolio is flat in the candle's coin, else the exit graph, if the
/// strategy has one.
pub open spec fn graph_at(strategy: CompiledStrategy, position: int) -> Option<
    (Seq<char>, Seq<NamedNode>),
> {
    if position == 0 {
        Some((strategy.entry_node@, strategy.nodes@))
    } else {
        match (strategy.exit_entry_node, strategy.exit_nodes) {
            (Some(entry), Some(nodes)) => Some((entry@, nodes@)),
            _ => None,
        }
    }
}

/// Once a fill cannot be booked among the first `k` orders it stays so.
pub proof fn lemma_fills_fail_on(
    m: SimModel,
    candle: Candle,
    fee_calc: FeeCalculator,
    k: int,
    n: int,
)
    requires
        k <= n,
        m.fills_done(candle, fee_calc, k) is None,
    ensures
        m.fills_done(candle, fee_calc, n) is None,
    decreases n - k,
{
    if k < n {
        lemma_fills_fail_on(m, candle, fee_calc, k, n - 1);
    }
}

/// Where the simulation cannot take the order at `k` further, it stops in
/// the state after the orders before it.
pub proof fn lemma_fills_held_at_failure(
    m: SimModel,
    candle: Candle,
    fee_calc: FeeCalculator,
    k: int,
    n: int,
)
    requires
        0 <= k < n,
        m.fills_done(candle, fee_calc, k) is Some,
        m.fills_done(candle, fee_calc, k + 1) is None,
    ensures
        m.fills_held(candle, fee_calc, n) == m.fills_done(candle, fee_calc, k).unwrap().0,
    decreases n - k,
{
    lemma_fills_fail_on(m, candle, fee_calc, k + 1, n);
    if n > k + 1 {
        lemma_fills_held_at_failure(m, candle, fee_calc, k, n - 1);
    } else {
        assert(m.fills_held(candle, fee_calc, k + 1) == m.fills_held(candle, fee_calc, k));
        if k > 0 {
            assert(m.fills_held(candle, fee_calc, k) == m.fills_done(candle, fee_calc, k).unwrap().0);
        } else {
            assert(m.fills_held(candle, fee_calc, 0) == m);
            assert(m.fills_done(candle, fee_calc, 0) == Some((m, Seq::<usize>::empty())));
        }
    }
}

/// Tells the side of an action.
pub fn side_of_action(action: &Action) -> (side: Side)
    ensures
        side == action.side_of(),
{
    match action {
        Action::Market { side, .. } => *side,
        Action::Limit { side, .. } => *side,
        Action::StopMarket { side, .. } => *side,
        Action::StopLimit { side, .. } => *side,
        Action::TakeMarket { side, .. } => *side,
        Action::TakeLimit { side, .. } => *side,
        Action::Scale { side, .. } => *side,
        Action::Twap { side, .. } => *side,
    }
}

/// Tells whether there are candles enough for the indicators to warm up.
pub fn check_candles(count: usize, max_lookback: usize) -> (r: Result<(), SimError>)
    ensures
        r == if count < max_lookback {
            Err::<(), SimError>(SimError::NotEnoughCandles)
        } else {
            Ok::<(), SimError>(())
        },
{
    if count < max_lookback {
        Err(SimError::NotEnoughCandles)
    } else {
        Ok(())
    }
}

impl View for Simulation {
    type V = SimModel;

    closed spec fn view(&self) -> SimModel {
        SimModel {
            holdings: self.portfolio@,
            active: self.active_orders@,
            trades: trade_views(self.trades@),
            equity: self.equity_curve@,
            next_order_id: self.next_order_id,
        }
    }
}

impl Simulation {
    /// The fee rates of the simulation.
    pub closed spec fn fee_calc(&self) -> FeeCalculator {
        self.fee_calc
    }

    /// The capital that the simulation began with.
    pub closed spec fn initial_capital(&self) -> i128 {
        self.initial_capital
    }

    /// The holdings are valid.
    pub open spec fn wf(&self) -> bool {
        self@.holdings.wf()
    }

    /// A simulation that has seen no candle: the initial capital in cash, no
    /// order, no trade; the first order will have number 1.
    pub fn new(config: &SimConfig) -> (sim: Self)
        ensures
            sim@ == (SimModel {
                holdings: Holdings { cash: config.initial_capital as int, positions: Seq::empty() },
                active: Seq::empty(),
                trades: Seq::empty(),
                equity: Seq::empty(),
                next_order_id: 1,
            }),
            sim.initial_capital() == config.initial_capital,
            sim.fee_calc().maker_bps() == config.maker_fee_bps,
            sim.fee_calc().taker_bps() == config.taker_fee_bps,
            sim.fee_calc().slippage() == config.slippage_bps,
            -CASH_LIMIT <= config.initial_capital <= CASH_LIMIT ==> sim.wf(),
    {
        let fee_calc = FeeCalculator::new(
            config.maker_fee_bps,
            config.taker_fee_bps,
            config.slippage_bps,
        );
        let sim = Simulation {
            portfolio: Portfolio::new(config.initial_capital, fee_calc),
            fee_calc,
            initial_capital: config.initial_capital,
            active_orders: Vec::new(),
            next_order_id: 1,
            trades: Vec::new(),
            equity_curve: Vec::new(),
        };
        proof {
            assert(sim@.trades =~= Seq::<TradeView>::empty());
            assert(sim@.holdings.positions =~= Seq::empty());
        }
        sim
    }

    /// The orders that wait to be filled.
    pub fn active_orders(&self) -> (orders: &Vec<Order>)
        ensures
            orders@ == self@.active,
    {
        &self.active_orders
    }

    /// The trades so far.
    pub fn trades(&self) -> (trades: &Vec<Trade>)
        ensures
            trade_views(trades@) == self@.trades,
    {
        &self.trades
    }

    /// The equity samples so far.
    pub fn equity_curve(&self) -> (curve: &Vec<EquityPoint>)
        ensures
            curve@ == self@.equity,
    {
        &self.equity_curve
    }

    /// The portfolio.
    pub fn portfolio(&self) -> (portfolio: &Portfolio)
        ensures
            portfolio@ == self@.holdings,
    {
        &self.portfolio
    }

    /// Walks a graph from its entry at a candle; the orders that its actions
    /// ask for join the active orders. The walk ends at a terminal node; it
    /// fails where it comes to a name that no node has, where a condition
    /// fails, and where it has gone through as many nodes as the graph holds
    /// without coming to an end. Orders taken before a failure stay.
    pub fn evaluate_graph(
        &mut self,
        entry_node: &str,
        nodes: &Vec<NamedNode>,
        indicators: &Vec<IndicatorReading>,
        candle: &Candle,
    ) -> (r: Result<(), StrategyError>)
        requires
            old(self).wf(),
        ensures
            final(self).wf(),
            final(self).fee_calc() == old(self).fee_calc(),
            final(self).initial_capital() == old(self).initial_capital(),
            (final(self)@, r) == ({
                let w = old(self)@.walk(
                    nodes@,
                    entry_node@,
                    nodes@.len(),
                    indicators@,
                    bar_of(*candle),
                );
                (w.0, outcome(w.1))
            }),
    {
        let ghost start = self@;
        let ghost bar = bar_of(*candle);
        let mut current: &str = entry_node;
        let mut fuel: usize = nodes.len();
        loop
            invariant
                self.wf(),
                self.fee_calc() == old(self).fee_calc(),
                self.initial_capital() == old(self).initial_capital(),
                fuel <= nodes@.len(),
                bar == bar_of(*candle),
                start == old(self)@,
                start.walk(nodes@, entry_node@, nodes@.len(), indicators@, bar) == self@.walk(
                    nodes@,
                    current@,
                    fuel as nat,
                    indicators@,
                    bar,
                ),
            ensures
                start.walk(nodes@, entry_node@, nodes@.len(), indicators@, bar) == (
                    self@,
                    None::<StrategyError>,
                ),
                self.wf(),
                self.fee_calc() == old(self).fee_calc(),
                self.initial_capital() == old(self).initial_capital(),
            decreases fuel,
        {
            let node = match find_node(nodes, current) {
                Some(node) => node,
                None => {
                    return Err(StrategyError::NodeNotFound);
                },
            };
            match node {
                Node::Terminal => {
                    break;
                },
                Node::Condition { expr, true_branch, false_branch } => {
                    if fuel == 0 {
                        return Err(StrategyError::Cycle);
                    }
                    let holds = match evaluate_expr(expr, indicators, candle) {
                        Ok(b) => b,
                        Err(e) => {
                            return Err(e);
                        },
                    };
                    current = if holds {
                        true_branch.as_str()
                    } else {
                        false_branch.as_str()
                    };
                    fuel = fuel - 1;
                },
                Node::Action { action, guards: _, next } => {
                    if fuel == 0 {
                        return Err(StrategyError::Cycle);
                    }
                    match create_order_from_action(
                        action,
                        candle,
                        self.next_order_id,
                        &self.portfolio,
                    ) {
                        Some(order) => {
                            if self.next_order_id == u64::MAX {
                                return Err(StrategyError::OrdersExhausted);
                            }
                            self.active_orders.push(order);
                            self.next_order_id = self.next_order_id + 1;
                        },
                        None => {},
                    }
                    current = next.as_str();
                    fuel = fuel - 1;
                },
            }
        }
        Ok(())
    }

    /// Takes the orders at `removed` out of the active orders, from the last
    /// index to the first.
    fn remove_orders(&mut self, removed: &Vec<usize>)
        requires
            forall|i: int|
                0 <= i < removed@.len() ==> (#[trigger] removed@[i]) + (removed@.len() - i) <= old(
                    self,
                )@.active.len(),
        ensures
            final(self).fee_calc() == old(self).fee_calc(),
            final(self).initial_capital() == old(self).initial_capital(),
            final(self)@ == (SimModel {
                active: remove_all(old(self)@.active, removed@),
                ..old(self)@
            }),
    {
        let mut j: usize = removed.len();
        proof {
            assert(removed@.take(j as int) =~= removed@);
        }
        while j > 0
            invariant
                j <= removed@.len(),
                self.fee_calc() == old(self).fee_calc(),
                self.initial_capital() == old(self).initial_capital(),
                self@ == (SimModel { active: self@.active, ..old(self)@ }),
                remove_all(old(self)@.active, removed@) == remove_all(
                    self@.active,
                    removed@.take(j as int),
                ),
                forall|i: int| 0 <= i < j ==> (#[trigger] removed@[i]) + (j - i) <= self@.active.len(),
            decreases j,
        {
            let idx = removed[j - 1];
            proof {
                let head = removed@.take(j as int);
                assert(head.last() == idx);
                assert(head.drop_last() =~= removed@.take(j - 1));
                assert(removed@[j - 1] + 1 <= self@.active.len());
            }
            self.active_orders.remove(idx);
            j = j - 1;
        }
    }

    /// Has the active orders meet a candle and samples the equity at its
    /// close: each order fills, is canceled or waits, as `process_order_fill`
    /// says; a fill is booked as a trade with its fee, and orders that filled
    /// or were canceled leave. An error says that a price after slippage, or
    /// the ledger's range, was left: the simulation stops before the order
    /// at which that showed.
    pub fn process_candle(&mut self, candle: &Candle) -> (r: Result<(), SimError>)
        requires
            old(self).wf(),
        ensures
            final(self).wf(),
            final(self).fee_calc() == old(self).fee_calc(),
            final(self).initial_capital() == old(self).initial_capital(),
            match r {
                Ok(()) => Some(final(self)@) == old(self)@.settled(*candle, old(self).fee_calc()),
                Err(e) => {
                    &&& e == SimError::LimitExceeded
                    &&& old(self)@.settled(*candle, old(self).fee_calc()) is None
                    &&& final(self)@ == old(self)@.fills_held(
                        *candle,
                        old(self).fee_calc(),
                        old(self)@.active.len() as int,
                    )
                },
            },
    {
        let n = self.active_orders.len();
        let mut removed: Vec<usize> = Vec::new();
        let mut k: usize = 0;
        while k < n
            invariant
                k <= n,
                n == old(self)@.active.len(),
                self.wf(),
                self.fee_calc() == old(self).fee_calc(),
                self.initial_capital() == old(self).initial_capital(),
                self@.active == old(self)@.active,
                old(self)@.fills_done(*candle, old(self).fee_calc(), k as int) == Some(
                    (self@, removed@),
                ),
                forall|i: int|
                    0 <= i < removed@.len() ==> (#[trigger] removed@[i]) + (removed@.len() - i) <= k,
            decreases n - k,
        {
            let mut order = self.active_orders[k];
            if !can_process(&order, candle, &self.fee_calc) {
                proof {
                    lemma_fills_fail_on(old(self)@, *candle, old(self).fee_calc(), k + 1, n as int);
                    lemma_fills_held_at_failure(
                        old(self)@,
                        *candle,
                        old(self).fee_calc(),
                        k as int,
                        n as int,
                    );
                }
                return Err(SimError::LimitExceeded);
            }
            match process_order_fill(&mut order, candle, &self.portfolio, &self.fee_calc) {
                Some(fill) => {
                    match fill.order_status {
                        OrderStatus::Filled => {
                            let value: u128 = notional(fill.filled_sz, fill.fill_price);
                            proof {
                                self.fee_calc.lemma_fee_fits(value as int, fill.is_maker);
                            }
                            let fee = self.fee_calc.calculate_fee(value as i128, fill.is_maker);
                            let trade = Trade {
                                timestamp: candle.time_open,
                                symbol: candle.coin.clone(),
                                side: side_to_string(side_of_action(&order.action)).to_owned(),
                                size: fill.filled_sz,
                                price: fill.fill_price,
                                fee,
                                order_id: order.id,
                            };
                            match self.portfolio.execute_trade(&trade, fill.fill_price) {
                                Ok(()) => {
                                    let ghost before = self.trades@;
                                    self.trades.push(trade);
                                    proof {
                                        assert(trade_views(self.trades@) =~= trade_views(
                                            before,
                                        ).push(trade@));
                                    }
                                    removed.push(k);
                                },
                                Err(_) => {
                                    proof {
                                        lemma_fills_fail_on(
                                            old(self)@,
                                            *candle,
                                            old(self).fee_calc(),
                                            k + 1,
                                            n as int,
                                        );
                                        lemma_fills_held_at_failure(
                                            old(self)@,
                                            *candle,
                                            old(self).fee_calc(),
                                            k as int,
                                            n as int,
                                        );
                                    }
                                    return Err(SimError::LimitExceeded);
                                },
                            }
                        },
                        OrderStatus::Canceled => {
                            removed.push(k);
                        },
                        _ => {},
                    }
                },
                None => {},
            }
            k = k + 1;
        }
        self.remove_orders(&removed);
        let equity = self.portfolio.total_equity(candle.coin.as_str(), candle.close);
        let position_value = self.portfolio.get_position_value(candle.coin.as_str(), candle.close);
        self.equity_curve.push(
            EquityPoint {
                timestamp: candle.time_open,
                equity,
                cash: self.portfolio.cash,
                position_value,
            },
        );
        Ok(())
    }

    /// One candle of the simulation: the strategy decides, on the entry
    /// graph while the portfolio is flat in the candle's coin and else on
    /// the exit graph; then the active orders meet the candle and the equity
    /// is sampled. Where the strategy fails, the orders that it had taken
    /// stay and the candle goes by without them meeting it.
    pub fn step(
        &mut self,
        candle: &Candle,
        strategy: &CompiledStrategy,
        indicators: &Vec<IndicatorReading>,
    ) -> (r: Result<(), SimError>)
        requires
            old(self).wf(),
        ensures
            final(self).wf(),
            final(self).fee_calc() == old(self).fee_calc(),
            final(self).initial_capital() == old(self).initial_capital(),
            ({
                let decided = match graph_at(*strategy, old(self)@.holdings.size_of(candle.coin@)) {
                    None => (old(self)@, None::<StrategyError>),
                    Some(graph) => old(self)@.walk(
                        graph.1,
                        graph.0,
                        graph.1.len(),
                        indicators@,
                        bar_of(*candle),
                    ),
                };
                match decided.1 {
                    Some(e) => r == Err::<(), SimError>(SimError::Strategy(e)) && final(self)@
                        == decided.0,
                    None => match decided.0.settled(*candle, old(self).fee_calc()) {
                        Some(after) => r is Ok && final(self)@ == after,
                        None => r == Err::<(), SimError>(SimError::LimitExceeded) && final(self)@
                            == decided.0.fills_held(
                            *candle,
                            old(self).fee_calc(),
                            decided.0.active.len() as int,
                        ),
                    },
                }
            }),
    {
        let position_size = self.portfolio.get_position(candle.coin.as_str());
        let decided = if position_size == 0 {
            self.evaluate_graph(strategy.entry_node.as_str(), &strategy.nodes, indicators, candle)
        } else {
            match (&strategy.exit_entry_node, &strategy.exit_nodes) {
                (Some(entry), Some(nodes)) => self.evaluate_graph(
                    entry.as_str(),
                    nodes,
                    indicators,
                    candle,
                ),
                _ => Ok(()),
            }
        };
        match decided {
            Ok(()) => {},
            Err(e) => {
                return Err(SimError::Strategy(e));
            },
        }
        self.process_candle(candle)
    }

    /// The equity at the end: that of the last sample, or the initial
    /// capital where there is none.
    pub open spec fn final_equity(&self) -> i128 {
        if self@.equity.len() > 0 {
            self@.equity.last().equity
        } else {
            self.initial_capital()
        }
    }

    /// What a finished simulation reports: trades and equity samples, the
    /// final equity, the return in money and in percent of the initial
    /// capital, win rate, average win and loss, and the greatest drawdown.
    /// The ratios of return to risk are left at zero: they are computed
    /// apart. `None` where a statistic is beyond 128 bits.
    pub open spec fn summary(&self) -> Option<(i128, i128, i128, (i128, i128, i128), (i128, i128))> {
        let total_return = self.final_equity() - self.initial_capital();
        if !(i128::MIN <= total_return <= i128::MAX) || !pct_fits(
            total_return,
            self.initial_capital() as int,
        ) {
            None
        } else {
            match (
                trade_stats_of(self@.trades.len(), self@.equity),
                drawdown_of(self@.equity, self.initial_capital()),
            ) {
                (Some(stats), Some(drawdown)) => Some(
                    (
                        self.final_equity(),
                        total_return as i128,
                        return_pct(total_return, self.initial_capital() as int) as i128,
                        stats,
                        drawdown,
                    ),
                ),
                _ => None,
            }
        }
    }

    /// Ends the simulation and reports it.
    pub fn finish(self) -> (r: Result<SimResult, SimError>)
        ensures
            match r {
                Ok(result) => {
                    &&& self.summary() == Some(
                        (
                            result.final_equity,
                            result.total_return,
                            result.total_return_pct,
                            (result.win_rate, result.avg_win, result.avg_loss),
                            (result.max_drawdown, result.max_drawdown_pct),
                        ),
                    )
                    &&& trade_views(result.trades@) == self@.trades
                    &&& result.equity_curve@ == self@.equity
                    &&& result.num_trades == self@.trades.len()
                    &&& result.sharpe_ratio == 0
                    &&& result.sortino_ratio == 0
                },
                Err(e) => e == SimError::LimitExceeded && self.summary() is None,
            },
    {
        let final_equity: i128 = if self.equity_curve.len() > 0 {
            self.equity_curve[self.equity_curve.len() - 1].equity
        } else {
            self.initial_capital
        };
        let total_return: i128 = match final_equity.checked_sub(self.initial_capital) {
            Some(v) => v,
            None => {
                return Err(SimError::LimitExceeded);
            },
        };
        let total_return_pct: i128 = match return_percent(total_return, self.initial_capital) {
            Some(pct) => pct,
            None => {
                return Err(SimError::LimitExceeded);
            },
        };
        let stats = match calculate_trade_stats(&self.trades, &self.equity_curve) {
            Some(stats) => stats,
            None => {
                return Err(SimError::LimitExceeded);
            },
        };
        let drawdown = match calculate_drawdown(&self.equity_curve, self.initial_capital) {
            Some(drawdown) => drawdown,
            None => {
                return Err(SimError::LimitExceeded);
            },
        };
        let num_trades = self.trades.len();
        Ok(
            SimResult {
                trades: self.trades,
                equity_curve: self.equity_curve,
                final_equity,
                total_return,
                total_return_pct,
                num_trades,
                win_rate: stats.0,
                avg_win: stats.1,
                avg_loss: stats.2,
                max_drawdown: drawdown.0,
                max_drawdown_pct: drawdown.1,
                sharpe_ratio: 0,
                sortino_ratio: 0,
            },
        )
    }
}

} // verus!
