//! Backtesting of perpetual-futures strategies against order-book snapshots.
//!
//! All quantities are fixed-point integers (see [`fixed`]): the book, the
//! matching rules, the ledger and the simulation driver are exact integer
//! arithmetic.

pub mod cli;
pub mod data;
pub mod fees;
pub mod fixed;
pub mod indicators2;
pub mod ingest;
pub mod ir;
pub mod metrics;
pub mod orderbook;
pub mod orders;
pub mod perps;
pub mod portfolio;
pub mod strategy;
pub mod text;
pub mod util;
