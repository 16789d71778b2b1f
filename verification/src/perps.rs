pub mod decision;
pub mod engine;
pub mod execution;
pub mod funding;
pub mod single_entry;
pub mod timeframe;
pub mod trade_utils;

pub use engine::PerpsEngine;
pub use execution::PerpsExecution;
pub use funding::FundingSchedule;
pub use trade_utils::{calculate_trade_fee, create_trade_from_fill, extract_side_from_action, side_to_string};
