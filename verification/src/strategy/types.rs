//! A strategy as rules: a condition for entering with an action, and one
//! for leaving.

use crate::ir::types::Param;
use vstd::prelude::*;

verus! {

/// A strategy: its indicators, its entry rule and, if it has one, its exit
/// rule.
#[derive(Debug)]
pub struct Strategy {
    pub name: String,
    pub instrument: Instrument,
    pub indicators: Vec<IndicatorSpec>,
    /// When to open a position.
    pub entry: Rule,
    /// When to close it.
    pub exit: Option<Rule>,
}

/// What a strategy trades, and on what timeframe it decides.
#[derive(Debug, Clone)]
pub struct Instrument {
    pub symbol: String,
    pub coin: String,
    pub venue: String,
    pub timeframe: String,
}

/// An indicator that the strategy reads.
#[derive(Debug, Clone)]
pub struct IndicatorSpec {
    pub id: String,
    pub indicator_type: String,
    pub params: Vec<Param>,
    pub outputs: Vec<String>,
}

/// A condition with the action that it sets off.
#[derive(Debug)]
pub struct Rule {
    pub condition: Condition,
    pub action: Action,
}

/// What sets an action off.
#[derive(Debug)]
pub enum Condition {
    /// An indicator against a constant.
    Threshold { indicator: String, op: ComparisonOp, value: i128 },
    /// One indicator crossing another.
    Crossover { fast: String, slow: String, direction: CrossDirection },
    /// All of the conditions.
    And { conditions: Vec<Condition> },
    /// One of the conditions.
    Or { conditions: Vec<Condition> },
}

/// How a threshold compares.
#[derive(Debug, Clone, Copy, PartialEq, Eq, Structural)]
pub enum ComparisonOp {
    Lt,
    Lte,
    Eq,
    Ne,
    Gte,
    Gt,
}

/// The direction of a crossing.
#[derive(Debug, Clone, Copy, PartialEq, Eq, Structural)]
pub enum CrossDirection {
    Above,
    Below,
}

/// What a rule does. Percentages are fixed-point.
#[derive(Debug, Clone, Copy, PartialEq, Eq, Structural)]
pub enum Action {
    /// Buy with a percentage of the capital at hand.
    Buy { size_pct: i128 },
    /// Sell a percentage of the position.
    Sell { size_pct: i128 },
    /// Close the whole position.
    Close,
}

/// A strategy that is ready to run.
#[derive(Debug)]
pub struct CompiledStrategy {
    pub instrument: Instrument,
    pub indicators: Vec<CompiledIndicator>,
    pub entry: Rule,
    pub exit: Option<Rule>,
}

/// An indicator with its lookback.
#[derive(Debug, Clone)]
pub struct CompiledIndicator {
    pub id: String,
    pub indicator_type: String,
    pub params: Vec<Param>,
    pub outputs: Vec<String>,
    pub lookback: usize,
}

} // verus!
