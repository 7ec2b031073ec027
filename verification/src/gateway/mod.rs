//! Venue connectivity: adapters, load balancing and failover.
pub mod manager;
pub mod pool;
pub mod venue;
