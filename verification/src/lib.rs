//! Streaming moving-average indicators over fixed-point prices, and the
//! crossover signals derived from them.
//!
//! `fixed` holds the arithmetic on prices, `window` and `history` the two
//! rings an accumulator is made of, `model` the mathematical model of an
//! accumulator with what holds of it, `average` the accumulator itself,
//! `macd` the MACD indicator, and `signal` the three signal evaluators.
pub mod average;
pub mod fixed;
pub mod history;
pub mod macd;
pub mod model;
pub mod signal;
pub mod window;

pub use average::{MAData, MAError};
pub use fixed::{whole_steps, Price, PRICE_DECIMALS, PRICE_LIMIT, UNITS_PER_WHOLE};
pub use macd::MACD;
pub use signal::{
    trading_decision_ma_cross, trading_decision_ma_trend_change, trading_decision_macd, MAMode,
    MarketDataTracker, PositionType, TradingPair,
};
