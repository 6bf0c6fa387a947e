//! A deterministic simulator of a single account on a leveraged futures exchange:
//! resting limit orders, market orders, position-aware order margin, fees and liquidation.
//!
//! Amounts are fixed-point integers with five decimals (see `currency::SCALE`).

pub mod currency;
pub mod types;
pub mod filters;
pub mod config;
pub mod market_state;
pub mod market_update;
pub mod rate_limiter;
pub mod active_orders;
pub mod balances;
pub mod position;
pub mod order_margin;
pub mod risk;
pub mod exchange;
pub mod text;
