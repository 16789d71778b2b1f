pub mod cache;
pub mod types;

pub use cache::Cache;
pub use types::Candle;
