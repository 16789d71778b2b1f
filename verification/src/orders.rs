pub mod engine;
pub mod fills;
pub mod types;

pub use types::{Action, EquityPoint, Order, OrderStatus, Position, Side, SimConfig, SimResult, Tif, Trade};
