//! A draw engine for scarce prizes: weighted selection, per-user cooldown,
//! atomic stock decrement, a prize cache and reconciliation of the fast
//! counters with the durable stock.

pub mod auth;
pub mod chance;
pub mod config;
pub mod error;
pub mod ids;
pub mod laws;
pub mod ledger;
pub mod lottery_service;
pub mod models;
pub mod prize_cache;
pub mod routes;
pub mod selector;
pub mod stock_sync;
pub mod store;
