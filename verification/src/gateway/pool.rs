//! Connection slots and gateway events.
use vstd::prelude::*;

verus! {

/// Connection pool managing multi-venue connections
#[derive(Debug, Clone, Copy, PartialEq, Eq, Structural)]
pub struct ConnectionPool {
    /// Maximum connections per venue
    pub max_connections_per_venue: usize,
    /// Total active connections
    pub active_connections: usize,
    /// Pool is running
    pub is_running: bool,
    /// Connection errors count
    pub connection_errors: u64,
    /// Reconnection attempts
    pub reconnection_attempts: u64,
}

/// Connection pool statistics
#[derive(Debug, Clone, Copy, PartialEq, Eq, Structural)]
pub struct ConnectionPoolStats {
    pub active_connections: usize,
    pub max_connections: usize,
    pub connection_errors: u64,
    pub reconnection_attempts: u64,
    pub is_running: bool,
}

impl ConnectionPool {
    /// The number of slots: ten venues' worth.
    pub open spec fn slots(&self) -> int {
        self.max_connections_per_venue * 10
    }

    pub fn new(max_connections_per_venue: usize) -> (p: Self)
        ensures
            p == (ConnectionPool {
                max_connections_per_venue,
                active_connections: 0,
                is_running: true,
                connection_errors: 0,
                reconnection_attempts: 0,
            }),
    {
        Self {
            max_connections_per_venue,
            active_connections: 0,
            is_running: true,
            connection_errors: 0,
            reconnection_attempts: 0,
        }
    }

    /// Try to acquire a connection slot
    pub fn try_acquire(&mut self) -> (r: bool)
        requires
            old(self).is_running ==> old(self).slots() <= usize::MAX,
        ensures
            r == (old(self).is_running && old(self).active_connections < old(self).slots()),
            *final(self) == if r {
                ConnectionPool {
                    active_connections: (old(self).active_connections + 1) as usize,
                    ..*old(self)
                }
            } else {
                *old(self)
            },
    {
        if !self.is_running {
            return false;
        }
        if self.active_connections >= self.max_connections_per_venue * 10 {
            return false;
        }
        self.active_connections = self.active_connections + 1;
        true
    }

    /// Release a connection slot
    pub fn release(&mut self)
        ensures
            *final(self) == (ConnectionPool {
                active_connections: old(self).active_connections.wrapping_sub(1),
                ..*old(self)
            }),
    {
        self.active_connections = self.active_connections.wrapping_sub(1);
    }

    /// Get active connection count
    pub fn active_count(&self) -> (n: usize)
        ensures
            n == self.active_connections,
    {
        self.active_connections
    }

    /// Record connection error
    pub fn record_error(&mut self)
        ensures
            *final(self) == (ConnectionPool {
                connection_errors: old(self).connection_errors.wrapping_add(1),
                ..*old(self)
            }),
    {
        self.connection_errors = self.connection_errors.wrapping_add(1);
    }

    /// Record reconnection attempt
    pub fn record_reconnect(&mut self)
        ensures
            *final(self) == (ConnectionPool {
                reconnection_attempts: old(self).reconnection_attempts.wrapping_add(1),
                ..*old(self)
            }),
    {
        self.reconnection_attempts = self.reconnection_attempts.wrapping_add(1);
    }

    /// Stop the pool
    pub fn stop(&mut self)
        ensures
            *final(self) == (ConnectionPool { is_running: false, ..*old(self) }),
    {
        self.is_running = false;
    }

    /// Check if pool is running
    pub fn is_running(&self) -> (r: bool)
        ensures
            r == self.is_running,
    {
        self.is_running
    }

    /// Get pool statistics
    pub fn get_stats(&self) -> (s: ConnectionPoolStats)
        requires
            self.slots() <= usize::MAX,
        ensures
            s == (ConnectionPoolStats {
                active_connections: self.active_connections,
                max_connections: self.slots() as usize,
                connection_errors: self.connection_errors,
                reconnection_attempts: self.reconnection_attempts,
                is_running: self.is_running,
            }),
    {
        ConnectionPoolStats {
            active_connections: self.active_count(),
            max_connections: self.max_connections_per_venue * 10,
            connection_errors: self.connection_errors,
            reconnection_attempts: self.reconnection_attempts,
            is_running: self.is_running(),
        }
    }
}

/// Releasing a slot undoes acquiring it, and the pool never hands out more slots than it has.
pub proof fn law_release_undoes_acquire(p: ConnectionPool)
    requires
        p.is_running,
        p.active_connections < p.slots() <= usize::MAX,
    ensures
        ({
            let taken = ConnectionPool {
                active_connections: (p.active_connections + 1) as usize,
                ..p
            };
            &&& taken.active_connections <= taken.slots()
            &&& taken.active_connections.wrapping_sub(1) == p.active_connections
        }),
{
}

/// Gateway events for internal communication
#[derive(Debug, Clone, Copy, PartialEq, Eq, Structural)]
pub enum GatewayEvent {
    /// Venue connected
    VenueConnected { venue_id: u32, timestamp_ns: u64 },
    /// Venue disconnected
    VenueDisconnected { venue_id: u32, reason: DisconnectReason },
    /// Order routed
    OrderRouted { order_id: u64, venue_id: u32 },
    /// Fill received
    FillReceived { order_id: u64, fill_price: u64, fill_qty: u64 },
    /// Market data update
    MarketDataUpdate { venue_id: u32, symbol_hash: u64 },
    /// Latency measurement
    LatencyMeasurement { venue_id: u32, latency_ns: u64 },
    /// Error occurred
    Error { venue_id: u32, error_code: u32 },
}

/// Reason for disconnection
#[derive(Debug, Clone, Copy, PartialEq, Eq, Structural)]
pub enum DisconnectReason {
    /// Network error
    NetworkError,
    /// Authentication failed
    AuthFailed,
    /// Rate limited
    RateLimited,
    /// Graceful shutdown
    GracefulShutdown,
    /// Timeout
    Timeout,
    /// Protocol error
    ProtocolError,
}

/// A pool has ten times as many slots as a venue may have connections.
pub proof fn law_pool_serves_ten_venues(p: ConnectionPool)
    ensures
        p.slots() == crate::tally::sum(10, |venue: int| p.max_connections_per_venue as int),
{
    reveal_with_fuel(crate::tally::sum, 11);
}

} // verus!
