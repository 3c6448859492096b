//! Core of a live-updating market-data watchlist and order-entry front end.
//!
//! The crate owns the per-symbol mutable state that a periodic refresh task
//! and a rendering pass share: ordered OHLCV time series, quote snapshots,
//! chart toggles and order-entry sub-state. It derives chart-ready geometry
//! (candle bodies and colors, bar widths, axis labels) from raw samples, and
//! drives a small order workflow with validated numeric text input.
//!
//! All prices are integer minor units (for instance cents) and all
//! timestamps are milliseconds since the Unix epoch, UTC. Network transport
//! and window chrome are external collaborators: they hand plain values in
//! and take plain values back.

pub mod axis;
pub mod chart;
pub mod endpoints;
pub mod order;
pub mod series;
pub mod session;
pub mod text;
pub mod watchlist;
