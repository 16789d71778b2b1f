pub mod compile;
pub mod types;

pub use types::{ActionType, ComparisonOp, Instrument, OrderType, StrategyIr};
