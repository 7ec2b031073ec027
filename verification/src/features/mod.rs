//! Features of trading symbols: their store, schemas, rolling windows and normalization.
pub mod normalization;
pub mod registry;
pub mod rolling;
pub mod store;
pub mod windows;
