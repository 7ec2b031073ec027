//! Venues: their configuration, requests, answers and routing decisions.
use vstd::prelude::*;

verus! {

/// Exchanges.
#[derive(Debug, Clone, Copy, PartialEq, Eq, Structural)]
pub enum VenueId {
    Unknown,
    Nasdaq,
    NYSE,
}

/// Venue type identifier
#[derive(Debug, Clone, Copy, PartialEq, Eq, Hash, Structural)]
pub enum VenueType {
    /// Centralized Exchange (CEX)
    CEX,
    /// Decentralized Exchange (DEX)
    DEX,
    /// Market Maker
    MarketMaker,
    /// Dark Pool
    DarkPool,
}

impl VenueType {
    pub fn as_str(&self) -> (s: &'static str)
        ensures
            s == match *self {
                VenueType::CEX => "CEX",
                VenueType::DEX => "DEX",
                VenueType::MarketMaker => "MM",
                VenueType::DarkPool => "DARK",
            },
    {
        match self {
            VenueType::CEX => "CEX",
            VenueType::DEX => "DEX",
            VenueType::MarketMaker => "MM",
            VenueType::DarkPool => "DARK",
        }
    }
}

/// Connection configuration for a venue
#[derive(Debug, Clone, Copy)]
pub struct ConnectionConfig {
    /// Venue ID
    pub venue_id: u32,
    /// Venue type
    pub venue_type: VenueType,
    /// WebSocket endpoint URL
    pub ws_endpoint: [u8; 256],
    /// REST API endpoint URL
    pub rest_endpoint: [u8; 256],
    /// API key (encrypted in production)
    pub api_key: [u8; 128],
    /// API secret (encrypted in production)
    pub api_secret: [u8; 256],
    /// Connection timeout in milliseconds
    pub connect_timeout_ms: u32,
    /// Heartbeat interval in milliseconds
    pub heartbeat_interval_ms: u32,
    /// Reconnect delay in milliseconds
    pub reconnect_delay_ms: u32,
    /// Maximum reconnection attempts
    pub max_reconnect_attempts: u32,
    /// Enable rate limiting
    pub rate_limit_enabled: bool,
    /// Maximum orders per second
    pub max_orders_per_second: u32,
}

/// True where all bytes are zero.
pub open spec fn blank(bytes: Seq<u8>) -> bool {
    forall|i: int| 0 <= i < bytes.len() ==> #[trigger] bytes[i] == 0
}

impl Default for ConnectionConfig {
    fn default() -> (c: Self)
        ensures
            c.venue_id == 0,
            c.venue_type == VenueType::CEX,
            blank(c.ws_endpoint@),
            blank(c.rest_endpoint@),
            blank(c.api_key@),
            blank(c.api_secret@),
            c.connect_timeout_ms == 5000,
            c.heartbeat_interval_ms == 30000,
            c.reconnect_delay_ms == 1000,
            c.max_reconnect_attempts == 10,
            c.rate_limit_enabled,
            c.max_orders_per_second == 100,
    {
        Self {
            venue_id: 0,
            venue_type: VenueType::CEX,
            ws_endpoint: [0u8;256],
            rest_endpoint: [0u8;256],
            api_key: [0u8;128],
            api_secret: [0u8;256],
            connect_timeout_ms: 5000,
            heartbeat_interval_ms: 30000,
            reconnect_delay_ms: 1000,
            max_reconnect_attempts: 10,
            rate_limit_enabled: true,
            max_orders_per_second: 100,
        }
    }
}

/// Order routing decision from the load balancer
#[derive(Debug, Clone, Copy, PartialEq, Eq, Structural)]
pub struct OrderRoutingDecision {
    /// Target venue ID
    pub venue_id: u32,
    /// Expected latency in nanoseconds
    pub expected_latency_ns: u64,
    /// Available liquidity (base currency)
    pub available_liquidity: u64,
    /// Routing score (higher is better)
    pub score: u32,
    /// Is this a failover route
    pub is_failover: bool,
}

/// The score of a latency: the lower the latency, the higher.
pub open spec fn latency_score(latency_ns: u64) -> u32 {
    if latency_ns < 1_000_000 {
        100
    } else if latency_ns < 5_000_000 {
        80
    } else if latency_ns < 10_000_000 {
        60
    } else {
        40
    }
}

/// The score of a liquidity: the higher the liquidity, the higher.
pub open spec fn liquidity_score(liquidity: u64) -> u32 {
    if liquidity > 1_000_000_000 {
        100
    } else if liquidity > 100_000_000 {
        80
    } else if liquidity > 10_000_000 {
        60
    } else {
        40
    }
}

/// The decision for a venue: its score is the mean of both scores.
pub open spec fn decision_for(venue_id: u32, latency_ns: u64, liquidity: u64) -> OrderRoutingDecision {
    OrderRoutingDecision {
        venue_id,
        expected_latency_ns: latency_ns,
        available_liquidity: liquidity,
        score: ((latency_score(latency_ns) + liquidity_score(liquidity)) / 2) as u32,
        is_failover: false,
    }
}

/// A decision as a failover route: its score is lower by twenty, but not below zero.
pub open spec fn failover_of(d: OrderRoutingDecision) -> OrderRoutingDecision {
    OrderRoutingDecision {
        is_failover: true,
        score: if d.score >= 20 {
            (d.score - 20) as u32
        } else {
            0
        },
        ..d
    }
}

/// The score of a latency.
pub fn score_latency(latency_ns: u64) -> (r: u32)
    ensures
        r == latency_score(latency_ns),
{
    if latency_ns < 1_000_000 {
        100
    } else if latency_ns < 5_000_000 {
        80
    } else if latency_ns < 10_000_000 {
        60
    } else {
        40
    }
}

impl OrderRoutingDecision {
    pub fn new(venue_id: u32, expected_latency_ns: u64, available_liquidity: u64) -> (d: Self)
        ensures
            d == decision_for(venue_id, expected_latency_ns, available_liquidity),
    {
        let latency: u32 = score_latency(expected_latency_ns);
        let liquidity: u32 = if available_liquidity > 1_000_000_000 {
            100
        } else if available_liquidity > 100_000_000 {
            80
        } else if available_liquidity > 10_000_000 {
            60
        } else {
            40
        };
        Self {
            venue_id,
            expected_latency_ns,
            available_liquidity,
            score: (latency + liquidity) / 2,
            is_failover: false,
        }
    }

    pub fn as_failover(self) -> (d: Self)
        ensures
            d == failover_of(self),
    {
        let score: u32 = self.score.saturating_sub(20);
        OrderRoutingDecision { is_failover: true, score, ..self }
    }
}

/// A lower latency and a higher liquidity never make a lower score.
pub proof fn law_score_is_monotone(
    venue_id: u32,
    latency_a: u64,
    latency_b: u64,
    liquidity_a: u64,
    liquidity_b: u64,
)
    requires
        latency_a <= latency_b,
        liquidity_a >= liquidity_b,
    ensures
        decision_for(venue_id, latency_a, liquidity_a).score >= decision_for(
            venue_id,
            latency_b,
            liquidity_b,
        ).score,
        40 <= decision_for(venue_id, latency_a, liquidity_a).score <= 100,
{
}

/// Venue error types
#[derive(Debug, Clone, Copy, PartialEq, Eq, Structural)]
pub enum VenueError {
    /// Not connected
    NotConnected,
    /// Connection failed
    ConnectionFailed,
    /// Authentication failed
    AuthenticationFailed,
    /// Rate limited
    RateLimited,
    /// Invalid request
    InvalidRequest,
    /// Timeout
    Timeout,
    /// Protocol error
    ProtocolError,
    /// Insufficient balance
    InsufficientBalance,
    /// Order rejected
    OrderRejected,
    /// Symbol not found
    SymbolNotFound,
    /// Internal error
    InternalError,
}

impl VenueError {
    /// The number of an error.
    pub open spec fn code(self) -> u32 {
        match self {
            VenueError::NotConnected => 1,
            VenueError::ConnectionFailed => 2,
            VenueError::AuthenticationFailed => 3,
            VenueError::RateLimited => 4,
            VenueError::InvalidRequest => 5,
            VenueError::Timeout => 6,
            VenueError::ProtocolError => 7,
            VenueError::InsufficientBalance => 8,
            VenueError::OrderRejected => 9,
            VenueError::SymbolNotFound => 10,
            VenueError::InternalError => 99,
        }
    }

    pub fn error_code(&self) -> (r: u32)
        ensures
            r == self.code(),
    {
        match self {
            VenueError::NotConnected => 1,
            VenueError::ConnectionFailed => 2,
            VenueError::AuthenticationFailed => 3,
            VenueError::RateLimited => 4,
            VenueError::InvalidRequest => 5,
            VenueError::Timeout => 6,
            VenueError::ProtocolError => 7,
            VenueError::InsufficientBalance => 8,
            VenueError::OrderRejected => 9,
            VenueError::SymbolNotFound => 10,
            VenueError::InternalError => 99,
        }
    }
}

/// No two errors have the same number, and none has the number zero.
pub proof fn law_error_codes_are_distinct(a: VenueError, b: VenueError)
    ensures
        a.code() == b.code() ==> a == b,
        a.code() != 0,
{
}

/// Order request structure
#[derive(Debug, Clone, Copy, PartialEq, Eq, Structural)]
pub struct OrderRequest {
    /// Client order ID
    pub client_order_id: u64,
    /// Symbol hash
    pub symbol_hash: u64,
    /// Side: 0 = Buy, 1 = Sell
    pub side: u8,
    /// Order type: 0 = Limit, 1 = Market, 2 = IOC, 3 = FOK
    pub order_type: u8,
    /// Price (in quote ticks)
    pub price: u64,
    /// Quantity (in base ticks)
    pub quantity: u64,
    /// Time in force: 0 = GTC, 1 = IOC, 2 = FOK, 3 = GTD
    pub time_in_force: u8,
    /// Timestamp in nanoseconds
    pub timestamp_ns: u64,
}

impl OrderRequest {
    pub fn new(
        client_order_id: u64,
        symbol_hash: u64,
        side: u8,
        order_type: u8,
        price: u64,
        quantity: u64,
        time_in_force: u8,
    ) -> (o: Self)
        ensures
            o == (OrderRequest {
                client_order_id,
                symbol_hash,
                side,
                order_type,
                price,
                quantity,
                time_in_force,
                timestamp_ns: 0,
            }),
    {
        Self {
            client_order_id,
            symbol_hash,
            side,
            order_type,
            price,
            quantity,
            time_in_force,
            // Set when the order is sent
            timestamp_ns: 0,
        }
    }
}

/// Order response structure
#[derive(Debug, Clone, Copy, PartialEq, Eq, Structural)]
pub struct OrderResponse {
    /// Order ID assigned by venue
    pub order_id: u64,
    /// Client order ID
    pub client_order_id: u64,
    /// Status: 0 = New, 1 = PartiallyFilled, 2 = Filled, 3 = Cancelled, 4 = Rejected
    pub status: u8,
    /// Average fill price
    pub avg_fill_price: u64,
    /// Total filled quantity
    pub filled_qty: u64,
    /// Remaining quantity
    pub remaining_qty: u64,
    /// Timestamp in nanoseconds
    pub timestamp_ns: u64,
    /// Error code if rejected
    pub error_code: u32,
}

impl OrderResponse {
    /// True where the venue refused the order.
    pub open spec fn rejected(&self) -> bool {
        self.status == 4 || self.error_code != 0
    }

    pub fn is_filled(&self) -> (r: bool)
        ensures
            r == (self.status == 2),
    {
        self.status == 2
    }

    pub fn is_rejected(&self) -> (r: bool)
        ensures
            r == self.rejected(),
    {
        self.status == 4 || self.error_code != 0
    }
}

/// Cancel request/response structure
#[derive(Debug, Clone, Copy, PartialEq, Eq, Structural)]
pub struct CancelResponse {
    /// Order ID
    pub order_id: u64,
    /// Client order ID
    pub client_order_id: u64,
    /// Cancel successful
    pub success: bool,
    /// Remaining quantity at cancel time
    pub canceled_qty: u64,
    /// Timestamp in nanoseconds
    pub timestamp_ns: u64,
    /// Error code if failed
    pub error_code: u32,
}

/// Liquidity information
#[derive(Debug, Clone, Copy, PartialEq, Eq, Structural)]
pub struct LiquidityInfo {
    /// Best bid price
    pub best_bid: u64,
    /// Best ask price
    pub best_ask: u64,
    /// Bid size (base currency)
    pub bid_size: u64,
    /// Ask size (base currency)
    pub ask_size: u64,
    /// Spread in ticks
    pub spread: u64,
    /// Mid price
    pub mid_price: u64,
    /// Timestamp in nanoseconds
    pub timestamp_ns: u64,
}

impl LiquidityInfo {
    /// True where both sides have a price and do not cross.
    pub open spec fn valid(&self) -> bool {
        self.best_bid > 0 && self.best_ask > 0 && self.best_bid < self.best_ask
    }

    pub fn empty() -> (l: Self)
        ensures
            l == (LiquidityInfo {
                best_bid: 0,
                best_ask: 0,
                bid_size: 0,
                ask_size: 0,
                spread: 0,
                mid_price: 0,
                timestamp_ns: 0,
            }),
    {
        Self {
            best_bid: 0,
            best_ask: 0,
            bid_size: 0,
            ask_size: 0,
            spread: 0,
            mid_price: 0,
            timestamp_ns: 0,
        }
    }

    pub fn is_valid(&self) -> (r: bool)
        ensures
            r == self.valid(),
    {
        self.best_bid > 0 && self.best_ask > 0 && self.best_bid < self.best_ask
    }
}

/// Venue statistics
#[derive(Debug, Clone, Copy, PartialEq, Eq, Structural)]
pub struct VenueStats {
    /// Orders submitted
    pub orders_submitted: u64,
    /// Orders filled
    pub orders_filled: u64,
    /// Orders rejected
    pub orders_rejected: u64,
    /// Orders canceled
    pub orders_canceled: u64,
    /// Average latency in nanoseconds
    pub avg_latency_ns: u64,
    /// Last heartbeat timestamp
    pub last_heartbeat_ns: u64,
    /// Connection uptime in seconds
    pub uptime_seconds: u64,
    /// Error count
    pub error_count: u64,
}

/// Statistics of a venue that did nothing yet.
pub open spec fn no_stats() -> VenueStats {
    VenueStats {
        orders_submitted: 0,
        orders_filled: 0,
        orders_rejected: 0,
        orders_canceled: 0,
        avg_latency_ns: 0,
        last_heartbeat_ns: 0,
        uptime_seconds: 0,
        error_count: 0,
    }
}

impl VenueStats {
    pub fn new() -> (s: Self)
        ensures
            s == no_stats(),
    {
        Self {
            orders_submitted: 0,
            orders_filled: 0,
            orders_rejected: 0,
            orders_canceled: 0,
            avg_latency_ns: 0,
            last_heartbeat_ns: 0,
            uptime_seconds: 0,
            error_count: 0,
        }
    }
}

impl Default for VenueStats {
    fn default() -> (s: Self)
        ensures
            s == no_stats(),
    {
        Self::new()
    }
}

/// Base venue adapter with common functionality
#[derive(Debug, Clone, Copy, PartialEq, Eq, Structural)]
pub struct BaseVenueAdapter {
    /// Venue ID
    pub venue_id: u32,
    /// Venue type
    pub venue_type: VenueType,
    /// Connected state
    pub connected: bool,
    /// Last latency measurement
    pub last_latency_ns: u64,
    /// Orders submitted counter
    pub orders_submitted: u64,
    /// Connection start time
    pub connection_start_ns: u64,
}

impl BaseVenueAdapter {
    pub fn new(venue_id: u32, venue_type: VenueType) -> (a: Self)
        ensures
            a == (BaseVenueAdapter {
                venue_id,
                venue_type,
                connected: false,
                last_latency_ns: 0,
                orders_submitted: 0,
                connection_start_ns: 0,
            }),
    {
        Self {
            venue_id,
            venue_type,
            connected: false,
            last_latency_ns: 0,
            orders_submitted: 0,
            connection_start_ns: 0,
        }
    }

    pub fn venue_id(&self) -> (r: u32)
        ensures
            r == self.venue_id,
    {
        self.venue_id
    }

    pub fn venue_type(&self) -> (r: VenueType)
        ensures
            r == self.venue_type,
    {
        self.venue_type
    }

    pub fn is_connected(&self) -> (r: bool)
        ensures
            r == self.connected,
    {
        self.connected
    }

    /// Sets the connected state; a connection starts now
    pub fn set_connected(&mut self, connected: bool, now_ns: u64)
        ensures
            *final(self) == (BaseVenueAdapter {
                connected,
                connection_start_ns: if connected {
                    now_ns
                } else {
                    old(self).connection_start_ns
                },
                ..*old(self)
            }),
    {
        self.connected = connected;
        if connected {
            self.connection_start_ns = now_ns;
        }
    }

    pub fn update_latency(&mut self, latency_ns: u64)
        ensures
            *final(self) == (BaseVenueAdapter { last_latency_ns: latency_ns, ..*old(self) }),
    {
        self.last_latency_ns = latency_ns;
    }

    pub fn get_latency_ns(&self) -> (r: u64)
        ensures
            r == self.last_latency_ns,
    {
        self.last_latency_ns
    }

    pub fn increment_orders_submitted(&mut self)
        ensures
            *final(self) == (BaseVenueAdapter {
                orders_submitted: old(self).orders_submitted.wrapping_add(1),
                ..*old(self)
            }),
    {
        self.orders_submitted = self.orders_submitted.wrapping_add(1);
    }

    pub fn get_orders_submitted(&self) -> (r: u64)
        ensures
            r == self.orders_submitted,
    {
        self.orders_submitted
    }

    /// Whole seconds since the connection started; zero where none did
    pub fn get_uptime_seconds(&self, now_ns: u64) -> (r: u64)
        ensures
            r == if self.connection_start_ns == 0 || now_ns < self.connection_start_ns {
                0
            } else {
                ((now_ns - self.connection_start_ns) / 1_000_000_000) as u64
            },
    {
        let start: u64 = self.connection_start_ns;
        if start == 0 {
            return 0;
        }
        let up: u64 = now_ns.saturating_sub(start);
        up / 1_000_000_000
    }
}

/// A latency below a millisecond scores a hundred, and one of ten milliseconds or more forty; a
/// liquidity above a thousand million scores a hundred, and one of ten million or less forty; in
/// between both lose twenty points a step. The score of a decision is the mean of both.
pub proof fn law_scores_fall_in_steps(venue_id: u32, latency_ns: u64, liquidity: u64)
    ensures
        ({
            let slow = (if latency_ns >= 1_000_000 {
                1int
            } else {
                0
            }) + (if latency_ns >= 5_000_000 {
                1int
            } else {
                0
            }) + (if latency_ns >= 10_000_000 {
                1int
            } else {
                0
            });
            let thin = (if liquidity <= 1_000_000_000 {
                1int
            } else {
                0
            }) + (if liquidity <= 100_000_000 {
                1int
            } else {
                0
            }) + (if liquidity <= 10_000_000 {
                1int
            } else {
                0
            });
            let d = decision_for(venue_id, latency_ns, liquidity);
            &&& latency_score(latency_ns) == 100 - 20 * slow
            &&& d.score == 100 - 10 * (slow + thin)
            &&& d.venue_id == venue_id
            &&& d.expected_latency_ns == latency_ns
            &&& d.available_liquidity == liquidity
            &&& !d.is_failover
        }),
{
}

/// A failover route goes to the same venue and scores twenty less, but not below zero.
pub proof fn law_failover_scores_less(d: OrderRoutingDecision)
    ensures
        failover_of(d).is_failover,
        failover_of(d).venue_id == d.venue_id,
        failover_of(d).expected_latency_ns == d.expected_latency_ns,
        failover_of(d).available_liquidity == d.available_liquidity,
        d.score >= 20 ==> failover_of(d).score + 20 == d.score,
        d.score < 20 ==> failover_of(d).score == 0,
{
}

/// Errors have the numbers by which they are known outside.
pub proof fn law_errors_have_their_numbers()
    ensures
        VenueError::NotConnected.code() == 1,
        VenueError::ConnectionFailed.code() == 2,
        VenueError::AuthenticationFailed.code() == 3,
        VenueError::RateLimited.code() == 4,
        VenueError::InvalidRequest.code() == 5,
        VenueError::Timeout.code() == 6,
        VenueError::ProtocolError.code() == 7,
        VenueError::InsufficientBalance.code() == 8,
        VenueError::OrderRejected.code() == 9,
        VenueError::SymbolNotFound.code() == 10,
        VenueError::InternalError.code() == 99,
{
}

/// A response with an error is a rejection, whatever its status, and so is one with the status of a
/// rejection; no other is.
pub proof fn law_rejections_are_told_apart(r: OrderResponse)
    ensures
        r.error_code != 0 ==> r.rejected(),
        r.error_code == 0 ==> (r.rejected() <==> r.status == 4),
{
}

/// A quote is valid where it has two prices and the bid is below the ask.
pub proof fn law_valid_quotes_do_not_cross(l: LiquidityInfo)
    ensures
        l.valid() <==> 0 < l.best_bid < l.best_ask,
{
}

} // verus!
