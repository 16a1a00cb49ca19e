//! Core of a single-process trading terminal backend: market-data parsing,
//! a threshold strategy, an order-management pipeline with simulated
//! execution, and a per-symbol position ledger.
//!
//! Prices and quantities are fixed-point integers (see [`fixed`]); the
//! asynchronous plumbing around this core lives outside the library and
//! drives it through plain values.

pub mod config;
pub mod data_model;
pub mod fixed;
pub mod market_data;
pub mod oms;
pub mod strategy;
