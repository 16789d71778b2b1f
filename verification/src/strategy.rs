pub mod compile;
pub mod eval;
pub mod types;

pub use compile::compile_strategy;
pub use eval::EvalState;
pub use types::{
    Action, ComparisonOp, CompiledIndicator, CompiledStrategy, Condition, CrossDirection,
    IndicatorSpec, Instrument, Rule, Strategy,
};
