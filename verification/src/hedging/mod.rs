//! Statistical hedging: betas over rolling windows, portfolio margin, and the bus that joins them.
pub mod beta_tracker;
pub mod cross_margin;
pub mod risk_bus;
