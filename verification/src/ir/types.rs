//! The description of a strategy: what it trades, the indicators it reads,
//! and the graphs of conditions and actions by which it decides.

use vstd::prelude::*;

verus! {

/// A strategy as it is handed to the simulation. The first scope is the one
/// that runs.
#[derive(Debug, Clone)]
pub struct StrategyIr {
    pub version: String,
    pub scopes: Vec<Scope>,
}

/// One instrument with its indicators and its graphs.
#[derive(Debug, Clone)]
pub struct Scope {
    pub instrument: Instrument,
    pub indicators: Vec<IndicatorSpec>,
    /// The graph that is walked while the portfolio is flat.
    pub graph: Graph,
    /// The graph that is walked while the portfolio holds a position.
    pub exit_graph: Option<Graph>,
}

/// What a strategy trades, and on what timeframe it decides.
#[derive(Debug, Clone)]
pub struct Instrument {
    pub symbol: String,
    pub coin: String,
    pub venue: String,
    pub timeframe: String,
}

/// A named parameter of an indicator. Its value is fixed-point.
#[derive(Debug, Clone)]
pub struct Param {
    pub name: String,
    pub value: i128,
}

/// An indicator that the strategy reads.
#[derive(Debug, Clone)]
pub struct IndicatorSpec {
    pub id: String,
    pub indicator_type: String,
    pub params: Vec<Param>,
    pub outputs: Vec<String>,
}

/// A graph of nodes by name, with the name of the node where a walk begins.
#[derive(Debug, Clone)]
pub struct Graph {
    pub entry: String,
    pub nodes: Vec<NamedNode>,
}

/// A node under its name.
#[derive(Debug, Clone)]
pub struct NamedNode {
    pub name: String,
    pub node: Node,
}

/// A step of a walk: a condition that branches, an action that proposes an
/// order, or the end.
#[derive(Debug, Clone)]
pub enum Node {
    Condition { expr: Expr, true_branch: String, false_branch: String },
    Action { action: ActionSpec, guards: Vec<String>, next: String },
    Terminal,
}

/// A comparison of two values.
#[derive(Debug, Clone)]
pub struct Expr {
    pub op: ComparisonOp,
    pub lhs: ExprValue,
    pub rhs: ExprValue,
}

/// A value of a comparison: an output of an indicator, written
/// `indicator.output`; a constant; or a series of the candle.
#[derive(Debug, Clone)]
pub enum ExprValue {
    Ref { reference: String },
    Const { value: i128 },
    Series { series: String },
}

/// How a condition compares its two sides.
#[derive(Debug, Clone, Copy, PartialEq, Eq, Structural)]
pub enum ComparisonOp {
    Lt,
    Lte,
    Eq,
    Ne,
    Gte,
    Gt,
    CrossesAbove,
    CrossesBelow,
}

/// What an action asks for: its kind and symbol, how the order is sized
/// (`cash`, `qty` or `pct` with a value), and the order's type, limit,
/// trigger and time in force as far as the strategy names them.
#[derive(Debug, Clone)]
pub struct ActionSpec {
    pub kind: ActionType,
    pub symbol: String,
    pub sizing_mode: Option<String>,
    pub sizing_value: Option<i128>,
    pub order_type: Option<String>,
    pub limit: Option<i128>,
    pub trigger: Option<i128>,
    pub tif: Option<String>,
}

/// What an action node asks for.
#[derive(Debug, Clone, Copy, PartialEq, Eq, Structural)]
pub enum ActionType {
    Buy,
    Sell,
    Close,
    Alert,
}

/// The kinds of order that a strategy names.
#[derive(Debug, Clone, Copy, PartialEq, Eq, Structural)]
pub enum OrderType {
    Market,
    Limit,
    StopLimit,
    StopMarket,
    TakeLimit,
    TakeMarket,
}

} // verus!
