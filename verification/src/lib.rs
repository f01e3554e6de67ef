//! Shared vocabulary for technical-analysis indicators and strategies:
//! market-data carriers, output values and shapes, and the error catalog.
//!
//! Floating-point scalars are carried as IEEE 754 binary64 bit patterns
//! (`u64`); see [`num`].

pub mod errors;
pub mod num;
pub mod output;
pub mod strategy_error;
pub mod traits;
pub mod types;

pub use errors::{OutputError, TaUtilsError, TaUtilsResult};
pub use output::{OutputShape, OutputType, Statics};
pub use strategy_error::StrategyError;
pub use traits::{Candle, IndicatorTrait, Next, Period, Reset};
pub use types::{Bar, MarketData, Queue};
