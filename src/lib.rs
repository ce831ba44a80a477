//! Core of an automated trading pipeline: technical indicators, chart
//! patterns, strategy evaluation, signal gating and a risk-gated execution
//! engine.
//!
//! Prices and money amounts are fixed-point integers ("ticks"), quantities are
//! integer "lots" of `1 / QTY_SCALE` base units, and confidences are basis
//! points. Exchange access, market-data streams and the clock stay outside
//! the library: callers hand their results in as plain values.
pub mod errors;
pub mod models;
pub mod indicators;
pub mod patterns;
pub mod strategies;
pub mod signals;
pub mod execution;
pub mod feeds;
pub mod analysis;
pub mod market;
