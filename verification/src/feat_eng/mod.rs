//! Feature engineering: rankings, observation windows and the byte formats of features.
pub mod cross_sectional;
pub mod engine;
pub mod temporal;
