//! Building blocks of a low-latency trading system.
pub mod bytes;
pub mod concurrent;
pub mod doubles;
pub mod exchange;
pub mod execution;
pub mod feat_eng;
pub mod features;
pub mod fix;
pub mod forecast;
pub mod gateway;
pub mod hardware;
pub mod hedging;
pub mod impact;
pub mod names;
pub mod numbers;
pub mod tally;
pub mod text;
