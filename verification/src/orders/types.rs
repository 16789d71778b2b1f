//! Orders, fills and what a simulation records.

use vstd::prelude::*;

verus! {

/// The direction of an order.
#[derive(Debug, Clone, Copy, PartialEq, Eq, Structural)]
pub enum Side {
    Buy,
    Sell,
}

/// How long a limit order rests.
#[derive(Debug, Clone, Copy, PartialEq, Eq, Structural)]
pub enum Tif {
    /// Good till cancel.
    Gtc,
    /// Immediate or cancel.
    Ioc,
    /// Add liquidity only (post only).
    Alo,
}

/// What an order asks for. Prices, triggers and sizes are fixed-point.
#[derive(Debug, Clone, Copy, PartialEq, Eq, Structural)]
pub enum Action {
    Market { side: Side, sz: u64 },
    Limit { side: Side, px: u64, sz: u64, tif: Tif, post_only: bool, reduce_only: bool },
    StopMarket { side: Side, trigger: u64, sz: u64 },
    StopLimit { side: Side, trigger: u64, px: u64, sz: u64, tif: Tif },
    TakeMarket { side: Side, trigger: u64, sz: u64 },
    TakeLimit { side: Side, trigger: u64, px: u64, sz: u64, tif: Tif },
    Scale { side: Side, from_px: u64, to_px: u64, steps: u32, total_sz: u64 },
    Twap { side: Side, total_sz: u64, duration_s: u64 },
}

/// Where an order stands. `Filled` and `Canceled` are final.
#[derive(Debug, Clone, Copy, PartialEq, Eq, Structural)]
pub enum OrderStatus {
    Pending,
    PartiallyFilled,
    Filled,
    Canceled,
    /// A stop or take order whose trigger was reached and that has not filled.
    Triggered,
}

/// An order with its fill state.
#[derive(Debug, Clone, Copy, PartialEq, Eq, Structural)]
pub struct Order {
    pub id: u64,
    pub action: Action,
    pub created_at: u64,
    pub filled_sz: u64,
    pub status: OrderStatus,
}

/// A holding in one symbol: positive size is long, negative is short.
#[derive(Debug, Clone)]
pub struct Position {
    pub symbol: String,
    pub size: i64,
    pub entry_price: i128,
    pub tp_price: Option<u64>,
    pub sl_price: Option<u64>,
}

/// A position as contracts see it: its symbol as a sequence of characters.
pub struct PositionView {
    pub symbol: Seq<char>,
    pub size: i64,
    pub entry_price: i128,
    pub tp_price: Option<u64>,
    pub sl_price: Option<u64>,
}

impl View for Position {
    type V = PositionView;

    open spec fn view(&self) -> PositionView {
        PositionView {
            symbol: self.symbol@,
            size: self.size,
            entry_price: self.entry_price,
            tp_price: self.tp_price,
            sl_price: self.sl_price,
        }
    }
}

/// The parameters of a simulation.
#[derive(Debug, Clone, Copy)]
pub struct SimConfig {
    pub initial_capital: i128,
    pub maker_fee_bps: i16,
    pub taker_fee_bps: i16,
    pub slippage_bps: u16,
    /// Least time between two entries, in milliseconds; 15 minutes when absent.
    pub trade_cooldown_ms: Option<u64>,
}

/// The record of one fill.
#[derive(Debug, Clone)]
pub struct Trade {
    pub timestamp: u64,
    pub symbol: String,
    /// `"BUY"` or `"SELL"`.
    pub side: String,
    pub size: u64,
    pub price: u64,
    pub fee: i128,
    pub order_id: u64,
}

/// A trade as contracts see it: symbol and side as sequences of characters.
pub struct TradeView {
    pub timestamp: u64,
    pub symbol: Seq<char>,
    pub side: Seq<char>,
    pub size: u64,
    pub price: u64,
    pub fee: i128,
    pub order_id: u64,
}

impl View for Trade {
    type V = TradeView;

    open spec fn view(&self) -> TradeView {
        TradeView {
            timestamp: self.timestamp,
            symbol: self.symbol@,
            side: self.side@,
            size: self.size,
            price: self.price,
            fee: self.fee,
            order_id: self.order_id,
        }
    }
}

/// A sample of the portfolio's value.
#[derive(Debug, Clone, Copy, PartialEq, Eq, Structural)]
pub struct EquityPoint {
    pub timestamp: u64,
    pub equity: i128,
    pub cash: i128,
    pub position_value: i128,
}

/// What a finished simulation reports. Money and ratios are fixed-point.
#[derive(Debug, Clone)]
pub struct SimResult {
    pub trades: Vec<Trade>,
    pub equity_curve: Vec<EquityPoint>,
    pub final_equity: i128,
    pub total_return: i128,
    pub total_return_pct: i128,
    pub num_trades: usize,
    pub win_rate: i128,
    pub avg_win: i128,
    pub avg_loss: i128,
    pub max_drawdown: i128,
    pub max_drawdown_pct: i128,
    pub sharpe_ratio: i128,
    pub sortino_ratio: i128,
}

impl Action {
    /// The side that the action trades on.
    pub open spec fn side_of(self) -> Side {
        match self {
            Action::Market { side, .. } => side,
            Action::Limit { side, .. } => side,
            Action::StopMarket { side, .. } => side,
            Action::StopLimit { side, .. } => side,
            Action::TakeMarket { side, .. } => side,
            Action::TakeLimit { side, .. } => side,
            Action::Scale { side, .. } => side,
            Action::Twap { side, .. } => side,
        }
    }
}

/// Whether an order has not come to its end: it is neither filled nor
/// canceled. An order that has come to its end never changes again.
pub open spec fn live(order: Order) -> bool {
    order.status != OrderStatus::Filled && order.status != OrderStatus::Canceled
}

/// Whether a limit order adds liquidity only: by its flag or by its time in
/// force. Such an order never takes: where it would cross it is canceled.
pub open spec fn adds_liquidity_only(tif: Tif, post_only: bool) -> bool {
    post_only || tif == Tif::Alo
}

} // verus!
