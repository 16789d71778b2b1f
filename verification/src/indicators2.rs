pub mod registry;
pub mod values;

pub use registry::IndicatorRegistry;
pub use values::{IndicatorReading, OutputValue};
