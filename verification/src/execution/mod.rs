//! Order execution: routing, sweeping, slicing and order types.
pub mod aggressive;
pub mod conditional;
pub mod iceberg;
pub mod iceberg_refresh;
pub mod instructions;
pub mod maker_taker;
pub mod pegged_order;
pub mod post_only;
pub mod pov;
pub mod queue_jumping;
pub mod risk;
pub mod routing;
pub mod sniper;
pub mod sweeper;
pub mod trailing_stop;
pub mod vwap;
