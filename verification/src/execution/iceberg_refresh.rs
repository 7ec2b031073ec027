//! Iceberg orders whose refreshes vary in size and time.
use crate::names::NamedMap;
use rand::Rng;
use vstd::prelude::*;

verus! {

#[derive(Debug, Clone, Copy, PartialEq, Eq, Structural)]
pub enum Side {
    Buy,
    Sell,
}

impl Side {
    pub fn as_str(&self) -> (s: &'static str)
        ensures
            s == match *self {
                Side::Buy => "BUY",
                Side::Sell => "SELL",
            },
    {
        match self {
            Side::Buy => "BUY",
            Side::Sell => "SELL",
        }
    }
}

/// Iceberg order state
#[derive(Debug)]
pub struct IcebergOrder {
    /// Unique order identifier
    pub order_id: String,
    /// Parent order ID for tracking
    pub parent_id: String,
    /// Symbol/trading pair
    pub symbol: String,
    /// Side (buy/sell)
    pub side: Side,
    /// Total quantity of the iceberg (including hidden)
    pub total_quantity: i64,
    /// Current display quantity (visible to market)
    pub display_quantity: i64,
    /// Minimum display quantity (floor for randomization)
    pub min_display_qty: i64,
    /// Maximum display quantity (ceiling for randomization)
    pub max_display_qty: i64,
    /// Remaining quantity to execute
    pub remaining_quantity: i64,
    /// Executed quantity
    pub executed_quantity: i64,
    /// Limit price
    pub limit_price: i64,
    /// Current child order ID (active displayed portion)
    pub active_child_id: Option<String>,
    /// Number of child orders created
    pub child_order_count: u32,
    /// Creation timestamp
    pub created_at: u64,
    /// Last refresh timestamp
    pub last_refresh_at: u64,
    /// Queue position estimate (for priority preservation)
    pub queue_position: usize,
}

impl IcebergOrder {
    /// A copy of the order.
    pub fn copy(&self) -> (r: Self)
        ensures
            r == *self,
    {
        IcebergOrder {
            order_id: self.order_id.clone(),
            parent_id: self.parent_id.clone(),
            symbol: self.symbol.clone(),
            side: self.side,
            total_quantity: self.total_quantity,
            display_quantity: self.display_quantity,
            min_display_qty: self.min_display_qty,
            max_display_qty: self.max_display_qty,
            remaining_quantity: self.remaining_quantity,
            executed_quantity: self.executed_quantity,
            limit_price: self.limit_price,
            active_child_id: match &self.active_child_id {
                Some(id) => Some(id.clone()),
                None => None,
            },
            child_order_count: self.child_order_count,
            created_at: self.created_at,
            last_refresh_at: self.last_refresh_at,
            queue_position: self.queue_position,
        }
    }

    /// What is left of the order after a fill.
    fn left_after(&self, filled_qty: i64) -> (r: i128)
        ensures
            r == self.left(filled_qty),
    {
        let sum: i128 = self.executed_quantity as i128 + filled_qty as i128;
        let executed: i128 = if sum > i64::MAX as i128 {
            i64::MAX as i128
        } else if sum < i64::MIN as i128 {
            i64::MIN as i128
        } else {
            sum
        };
        self.total_quantity as i128 - executed
    }

    /// What is left of the order after a fill: the total without what was executed, as far as that
    /// fits in 64 bits.
    pub open spec fn left(&self, filled_qty: i64) -> int {
        let executed = self.executed_quantity + filled_qty;
        self.total_quantity - if executed > i64::MAX {
            i64::MAX as int
        } else if executed < i64::MIN {
            i64::MIN as int
        } else {
            executed
        }
    }
}

/// The bits of 0.2.
pub const DEFAULT_RANDOMIZATION: u64 = 0x3fc9_9999_9999_999a;

/// Configuration for iceberg behavior
#[derive(Debug, Clone, Copy, PartialEq, Eq, Structural)]
pub struct IcebergConfig {
    /// Enable time jitter for refreshes
    pub enable_time_jitter: bool,
    /// Jitter range in milliseconds
    pub jitter_range_ms: u64,
    /// Enable size randomization
    pub enable_size_randomization: bool,
    /// Randomization percentage (0.0 - 1.0), as the bits of a double
    pub randomization_pct: u64,
    /// Minimum refresh interval in milliseconds
    pub min_refresh_interval_ms: u64,
    /// Maximum refresh interval in milliseconds
    pub max_refresh_interval_ms: u64,
    /// Queue position refresh threshold
    pub queue_refresh_threshold: usize,
}

impl IcebergConfig {
    /// True where a delay can be drawn: there is a range to draw from, and its end fits.
    pub open spec fn can_jitter(&self) -> bool {
        self.enable_time_jitter ==> self.jitter_range_ms > 0 && self.min_refresh_interval_ms
            + self.jitter_range_ms <= u64::MAX
    }

    /// True where a delay lies in the range that it is drawn from.
    pub open spec fn allows_delay(&self, delay_ms: u64) -> bool {
        if self.enable_time_jitter {
            self.min_refresh_interval_ms <= delay_ms < self.min_refresh_interval_ms
                + self.jitter_range_ms
        } else {
            delay_ms == self.min_refresh_interval_ms
        }
    }
}

impl Default for IcebergConfig {
    fn default() -> (c: Self)
        ensures
            c == (IcebergConfig {
                enable_time_jitter: true,
                jitter_range_ms: 500,
                enable_size_randomization: true,
                randomization_pct: DEFAULT_RANDOMIZATION,
                min_refresh_interval_ms: 100,
                max_refresh_interval_ms: 2000,
                queue_refresh_threshold: 10,
            }),
    {
        Self {
            enable_time_jitter: true,
            jitter_range_ms: 500,
            enable_size_randomization: true,
            randomization_pct: DEFAULT_RANDOMIZATION,
            min_refresh_interval_ms: 100,
            max_refresh_interval_ms: 2000,
            queue_refresh_threshold: 10,
        }
    }
}

#[derive(Debug, Clone, Copy, PartialEq, Eq, Structural)]
pub struct IcebergStats {
    pub total_orders_created: u64,
    pub total_child_orders: u64,
    pub total_executed_value: u64,
    pub detected_sniff_attempts: u64,
    pub queue_preserved_refreshes: u64,
}

impl Default for IcebergStats {
    fn default() -> (s: Self)
        ensures
            s == (IcebergStats {
                total_orders_created: 0,
                total_child_orders: 0,
                total_executed_value: 0,
                detected_sniff_attempts: 0,
                queue_preserved_refreshes: 0,
            }),
    {
        IcebergStats {
            total_orders_created: 0,
            total_child_orders: 0,
            total_executed_value: 0,
            detected_sniff_attempts: 0,
            queue_preserved_refreshes: 0,
        }
    }
}

/// Specification for a child order
#[derive(Debug)]
pub struct ChildOrderSpec {
    pub symbol: String,
    pub side: Side,
    pub price: i64,
    pub quantity: i64,
    pub display_qty: Option<i64>,
    pub iceberg_parent: Option<String>,
    /// Milliseconds to wait before the order is sent
    pub delay_before_submit_ms: u64,
    pub preserve_priority: bool,
}

/// Market event for sniffing detection
#[derive(Debug, Clone, Copy, PartialEq, Eq, Structural)]
pub struct MarketEvent {
    pub timestamp_ns: u64,
    pub event_type: MarketEventType,
    pub price: i64,
    pub quantity: i64,
}

impl MarketEvent {
    pub fn is_cancel(&self) -> (r: bool)
        ensures
            r == (self.event_type == MarketEventType::Cancel),
    {
        match self.event_type {
            MarketEventType::Cancel => true,
            _ => false,
        }
    }
}

#[derive(Debug, Clone, Copy, PartialEq, Eq, Structural)]
pub enum MarketEventType {
    Trade,
    NewOrder,
    Cancel,
    Modify,
}

#[derive(Debug, PartialEq, Eq)]
pub enum IcebergError {
    InvalidDisplayQuantity,
    OrderFullyExecuted,
    OrderNotFound,
    ExchangeError(String),
}

/// True where a cancellation stands between two events that are less than ten milliseconds apart.
pub open spec fn is_probe(events: Seq<MarketEvent>, i: int) -> bool {
    events[i + 1].event_type == MarketEventType::Cancel && events[i + 2].timestamp_ns
        - events[i].timestamp_ns < 10_000_000
}

/// How many of the first `k` triples of events are probes.
pub open spec fn probes(events: Seq<MarketEvent>, k: nat) -> nat
    decreases k,
{
    if k == 0 {
        0
    } else {
        probes(events, (k - 1) as nat) + if is_probe(events, k - 1) {
            1nat
        } else {
            0nat
        }
    }
}

/// The number of triples of successive events.
pub open spec fn triples(events: Seq<MarketEvent>) -> nat {
    if events.len() >= 3 {
        (events.len() - 2) as nat
    } else {
        0
    }
}

/// True where an event with a cancellation behind it is not after the one two places behind it.
pub open spec fn in_order_at(events: Seq<MarketEvent>, i: int) -> bool {
    events[i + 1].event_type == MarketEventType::Cancel ==> events[i].timestamp_ns <= events[i
        + 2].timestamp_ns
}

/// True where the events on both sides of each cancellation are in the order of time.
pub open spec fn in_time_order(events: Seq<MarketEvent>) -> bool {
    forall|i: int| 0 <= i < triples(events) ==> #[trigger] in_order_at(events, i)
}

/// The quantity to show next: the drawn one within its bounds, at most what is left, and at least
/// one; without drawing, the usual one or what is left.
pub open spec fn next_display(
    config: IcebergConfig,
    order: IcebergOrder,
    remaining: i64,
    drawn: i64,
) -> i64 {
    if !config.enable_size_randomization {
        if order.display_quantity <= remaining {
            order.display_quantity
        } else {
            remaining
        }
    } else {
        let bounded = if drawn < order.min_display_qty {
            order.min_display_qty
        } else if drawn > order.max_display_qty {
            order.max_display_qty
        } else {
            drawn
        };
        let shown = if bounded <= remaining {
            bounded
        } else {
            remaining
        };
        if shown >= 1 {
            shown
        } else {
            1
        }
    }
}

/// Draws a number below a limit with `rand::Rng::gen_range` on the generator of the thread: it is
/// below the limit, and it panics where the limit is zero.
#[verifier::external_body]
fn random_below(limit: u64) -> (r: u64)
    requires
        limit > 0,
    ensures
        r < limit,
{
    rand::thread_rng().gen_range(0..limit)
}

/// Iceberg order manager
#[derive(Debug)]
pub struct IcebergManager {
    /// Active iceberg orders
    pub orders: NamedMap<IcebergOrder>,
    /// RNG seed for deterministic replay (optional)
    pub rng_seed: u64,
    /// Statistics
    pub stats: IcebergStats,
    /// Configuration
    pub config: IcebergConfig,
}

impl IcebergManager {
    pub open spec fn inv(&self) -> bool {
        self.orders.inv()
    }

    pub fn new(config: IcebergConfig) -> (m: Self)
        ensures
            m.inv(),
            m.orders@ == Map::<Seq<char>, IcebergOrder>::empty(),
            m.rng_seed == 0,
            m.stats == (IcebergStats {
                total_orders_created: 0,
                total_child_orders: 0,
                total_executed_value: 0,
                detected_sniff_attempts: 0,
                queue_preserved_refreshes: 0,
            }),
            m.config == config,
    {
        Self { orders: NamedMap::new(), rng_seed: 0, stats: IcebergStats::default(), config }
    }

    /// True where an order is a new one as asked for.
    pub open spec fn is_new(
        order: IcebergOrder,
        order_id: Seq<char>,
        symbol: Seq<char>,
        side: Side,
        total_quantity: i64,
        limit_price: i64,
        display_qty: i64,
        bounds: (i64, i64),
        now_ns: u64,
    ) -> bool {
        &&& order.order_id@ == order_id
        &&& order.parent_id@ == order_id
        &&& order.symbol@ == symbol
        &&& order.side == side
        &&& order.total_quantity == total_quantity
        &&& order.display_quantity == display_qty
        &&& order.min_display_qty == if bounds.0 >= 1 {
            bounds.0
        } else {
            1
        }
        &&& order.max_display_qty == bounds.1
        &&& order.remaining_quantity == total_quantity
        &&& order.executed_quantity == 0
        &&& order.limit_price == limit_price
        &&& order.active_child_id is None
        &&& order.child_order_count == 0
        &&& order.created_at == now_ns
        &&& order.last_refresh_at == 0
        &&& order.queue_position == 0
    }

    /// Create a new iceberg order
    ///
    /// `bounds` are the least and the largest quantity to show.
    pub fn create_iceberg(
        &mut self,
        order_id: String,
        symbol: String,
        side: Side,
        total_quantity: i64,
        limit_price: i64,
        display_qty: i64,
        bounds: (i64, i64),
        now_ns: u64,
    ) -> (r: Result<IcebergOrder, IcebergError>)
        requires
            old(self).inv(),
        ensures
            final(self).inv(),
            final(self).config == old(self).config,
            final(self).rng_seed == old(self).rng_seed,
            if display_qty <= 0 || display_qty > total_quantity {
                &&& r == Err::<IcebergOrder, IcebergError>(IcebergError::InvalidDisplayQuantity)
                &&& *final(self) == *old(self)
            } else {
                &&& r is Ok
                &&& Self::is_new(
                    r->Ok_0,
                    order_id@,
                    symbol@,
                    side,
                    total_quantity,
                    limit_price,
                    display_qty,
                    bounds,
                    now_ns,
                )
                &&& final(self).orders@ == old(self).orders@.insert(order_id@, r->Ok_0)
                &&& final(self).stats == (IcebergStats {
                    total_orders_created: old(self).stats.total_orders_created.wrapping_add(1),
                    ..old(self).stats
                })
            },
    {
        if display_qty <= 0 || display_qty > total_quantity {
            return Err(IcebergError::InvalidDisplayQuantity);
        }
        let order = IcebergOrder {
            order_id: order_id.clone(),
            parent_id: order_id.clone(),
            symbol,
            side,
            total_quantity,
            display_quantity: display_qty,
            min_display_qty: if bounds.0 >= 1 {
                bounds.0
            } else {
                1
            },
            max_display_qty: bounds.1,
            remaining_quantity: total_quantity,
            executed_quantity: 0,
            limit_price,
            active_child_id: None,
            child_order_count: 0,
            created_at: now_ns,
            last_refresh_at: 0,
            queue_position: 0,
        };
        let kept = order.copy();
        self.orders.insert(order_id, kept);
        self.stats.total_orders_created = self.stats.total_orders_created.wrapping_add(1);
        Ok(order)
    }

    /// Calculate randomized display quantity for next child order
    ///
    /// `drawn` is the quantity that was drawn around the usual one.
    pub fn calculate_next_display_qty(
        &self,
        order: &IcebergOrder,
        remaining: i64,
        drawn: i64,
    ) -> (r: i64)
        requires
            self.config.enable_size_randomization ==> order.min_display_qty
                <= order.max_display_qty,
        ensures
            r == next_display(self.config, *order, remaining, drawn),
    {
        if !self.config.enable_size_randomization {
            return if order.display_quantity <= remaining {
                order.display_quantity
            } else {
                remaining
            };
        }
        let bounded: i64 = if drawn < order.min_display_qty {
            order.min_display_qty
        } else if drawn > order.max_display_qty {
            order.max_display_qty
        } else {
            drawn
        };
        let shown: i64 = if bounded <= remaining {
            bounded
        } else {
            remaining
        };
        if shown >= 1 {
            shown
        } else {
            1
        }
    }

    /// Calculate jittered refresh delay, in milliseconds
    pub fn calculate_refresh_delay(&self) -> (delay_ms: u64)
        requires
            self.config.can_jitter(),
        ensures
            self.config.allows_delay(delay_ms),
    {
        if !self.config.enable_time_jitter {
            return self.config.min_refresh_interval_ms;
        }
        let jitter: u64 = random_below(self.config.jitter_range_ms);
        self.config.min_refresh_interval_ms + jitter
    }

    /// True where a child order is the one that refreshes an order after a given delay.
    pub open spec fn is_refresh(
        &self,
        child: ChildOrderSpec,
        order: IcebergOrder,
        filled_qty: i64,
        drawn: i64,
        delay_ms: u64,
    ) -> bool {
        let quantity = next_display(self.config, order, order.left(filled_qty) as i64, drawn);
        &&& child.symbol@ == order.symbol@
        &&& child.side == order.side
        &&& child.price == order.limit_price
        &&& child.quantity == quantity
        &&& child.display_qty == Some(quantity)
        &&& child.iceberg_parent is Some
        &&& child.iceberg_parent->0@ == order.order_id@
        &&& child.delay_before_submit_ms == delay_ms
        &&& child.preserve_priority == (order.queue_position < self.config.queue_refresh_threshold)
    }

    /// The statistics after a refresh: one of an order far back in the queue is counted.
    pub open spec fn stats_refreshed(&self, order: IcebergOrder) -> IcebergStats {
        if order.queue_position > self.config.queue_refresh_threshold {
            IcebergStats {
                queue_preserved_refreshes: self.stats.queue_preserved_refreshes.wrapping_add(1),
                ..self.stats
            }
        } else {
            self.stats
        }
    }

    /// Refresh a child order while preserving queue position
    /// Returns the new child order details, to be sent after a given delay
    pub fn refresh_after(
        &mut self,
        order: &IcebergOrder,
        filled_qty: i64,
        drawn: i64,
        delay_ms: u64,
    ) -> (r: Result<ChildOrderSpec, IcebergError>)
        requires
            order.left(filled_qty) <= i64::MAX,
            order.left(filled_qty) > 0 && old(self).config.enable_size_randomization
                ==> order.min_display_qty <= order.max_display_qty,
        ensures
            final(self).orders == old(self).orders,
            final(self).config == old(self).config,
            final(self).rng_seed == old(self).rng_seed,
            if order.left(filled_qty) <= 0 {
                &&& r == Err::<ChildOrderSpec, IcebergError>(IcebergError::OrderFullyExecuted)
                &&& final(self).stats == old(self).stats
            } else {
                &&& r is Ok
                &&& old(self).is_refresh(r->Ok_0, *order, filled_qty, drawn, delay_ms)
                &&& final(self).stats == old(self).stats_refreshed(*order)
            },
    {
        let left: i128 = order.left_after(filled_qty);
        if left <= 0 {
            return Err(IcebergError::OrderFullyExecuted);
        }
        let remaining: i64 = left as i64;
        let display_qty: i64 = self.calculate_next_display_qty(order, remaining, drawn);
        if order.queue_position > self.config.queue_refresh_threshold {
            self.stats.queue_preserved_refreshes =
            self.stats.queue_preserved_refreshes.wrapping_add(1);
        }
        Ok(
            ChildOrderSpec {
                symbol: order.symbol.clone(),
                side: order.side,
                price: order.limit_price,
                quantity: display_qty,
                display_qty: Some(display_qty),
                iceberg_parent: Some(order.order_id.clone()),
                delay_before_submit_ms: delay_ms,
                preserve_priority: order.queue_position < self.config.queue_refresh_threshold,
            },
        )
    }

    /// Refresh a child order while preserving queue position
    /// Returns the new child order details, to be sent after a delay that is drawn
    pub fn refresh_child_order(
        &mut self,
        order: &IcebergOrder,
        filled_qty: i64,
        drawn: i64,
    ) -> (r: Result<ChildOrderSpec, IcebergError>)
        requires
            order.left(filled_qty) <= i64::MAX,
            order.left(filled_qty) > 0 ==> old(self).config.can_jitter(),
            order.left(filled_qty) > 0 && old(self).config.enable_size_randomization
                ==> order.min_display_qty <= order.max_display_qty,
        ensures
            final(self).orders == old(self).orders,
            final(self).config == old(self).config,
            final(self).rng_seed == old(self).rng_seed,
            if order.left(filled_qty) <= 0 {
                &&& r == Err::<ChildOrderSpec, IcebergError>(IcebergError::OrderFullyExecuted)
                &&& final(self).stats == old(self).stats
            } else {
                &&& r is Ok
                &&& old(self).is_refresh(
                    r->Ok_0,
                    *order,
                    filled_qty,
                    drawn,
                    r->Ok_0.delay_before_submit_ms,
                )
                &&& old(self).config.allows_delay(r->Ok_0.delay_before_submit_ms)
                &&& final(self).stats == old(self).stats_refreshed(*order)
            },
    {
        let delay_ms: u64 = if order.left_after(filled_qty) > 0 {
            self.calculate_refresh_delay()
        } else {
            0
        };
        self.refresh_after(order, filled_qty, drawn, delay_ms)
    }

    /// Detect potential sniffing attempts based on order flow patterns: more than five
    /// cancellations between events that are less than ten milliseconds apart
    pub fn detect_sniffing(&mut self, market_events: &[MarketEvent]) -> (r: bool)
        requires
            in_time_order(market_events@),
        ensures
            r == (probes(market_events@, triples(market_events@)) > 5),
            final(self).orders == old(self).orders,
            final(self).config == old(self).config,
            final(self).rng_seed == old(self).rng_seed,
            final(self).stats == if r {
                IcebergStats {
                    detected_sniff_attempts: old(self).stats.detected_sniff_attempts.wrapping_add(
                        1,
                    ),
                    ..old(self).stats
                }
            } else {
                old(self).stats
            },
    {
        let n: usize = if market_events.len() >= 3 {
            market_events.len() - 2
        } else {
            0
        };
        let mut patterns: usize = 0;
        let mut i: usize = 0;
        while i < n
            invariant
                i <= n,
                n == triples(market_events@),
                in_time_order(market_events@),
                patterns <= i,
                patterns == probes(market_events@, i as nat),
            decreases n - i,
        {
            assert(in_order_at(market_events@, i as int));
            if market_events[i + 1].is_cancel() {
                let span: u64 = market_events[i + 2].timestamp_ns - market_events[i].timestamp_ns;
                if span < 10_000_000 {
                    patterns = patterns + 1;
                }
            }
            i = i + 1;
        }
        let is_sniffing = patterns > 5;
        if is_sniffing {
            self.stats.detected_sniff_attempts =
            self.stats.detected_sniff_attempts.wrapping_add(1);
        }
        is_sniffing
    }

    /// Get an order by ID
    pub fn get_order(&self, order_id: &str) -> (r: Option<&IcebergOrder>)
        ensures
            match r {
                Some(o) => self.orders@.contains_key(order_id@) && *o == self.orders@[order_id@],
                None => !self.orders@.contains_key(order_id@),
            },
    {
        self.orders.get(order_id)
    }

    /// Remove a completed order
    pub fn remove_order(&mut self, order_id: &str) -> (r: Option<IcebergOrder>)
        requires
            old(self).inv(),
        ensures
            final(self).inv(),
            final(self).orders@ == old(self).orders@.remove(order_id@),
            final(self).stats == old(self).stats,
            final(self).config == old(self).config,
            final(self).rng_seed == old(self).rng_seed,
            match r {
                Some(o) => old(self).orders@.contains_key(order_id@) && o
                    == old(self).orders@[order_id@],
                None => !old(self).orders@.contains_key(order_id@),
            },
    {
        self.orders.remove(order_id)
    }

    /// Get statistics
    pub fn stats(&self) -> (s: &IcebergStats)
        ensures
            *s == self.stats,
    {
        &self.stats
    }
}

/// Iceberg order builder for fluent API
#[derive(Debug)]
pub struct IcebergBuilder {
    pub order_id: Option<String>,
    pub symbol: Option<String>,
    pub side: Option<Side>,
    pub total_quantity: Option<i64>,
    pub limit_price: Option<i64>,
    pub display_quantity: Option<i64>,
    pub config: IcebergConfig,
}

impl IcebergBuilder {
    pub fn new() -> (b: Self)
        ensures
            b == (IcebergBuilder {
                order_id: None,
                symbol: None,
                side: None,
                total_quantity: None,
                limit_price: None,
                display_quantity: None,
                config: b.config,
            }),
            b.config == (IcebergConfig {
                enable_time_jitter: true,
                jitter_range_ms: 500,
                enable_size_randomization: true,
                randomization_pct: DEFAULT_RANDOMIZATION,
                min_refresh_interval_ms: 100,
                max_refresh_interval_ms: 2000,
                queue_refresh_threshold: 10,
            }),
    {
        Self {
            order_id: None,
            symbol: None,
            side: None,
            total_quantity: None,
            limit_price: None,
            display_quantity: None,
            config: IcebergConfig::default(),
        }
    }

    pub fn order_id(self, id: String) -> (b: Self)
        ensures
            b == (IcebergBuilder { order_id: Some(id), ..self }),
    {
        IcebergBuilder { order_id: Some(id), ..self }
    }

    pub fn symbol(self, symbol: String) -> (b: Self)
        ensures
            b == (IcebergBuilder { symbol: Some(symbol), ..self }),
    {
        IcebergBuilder { symbol: Some(symbol), ..self }
    }

    pub fn side(self, side: Side) -> (b: Self)
        ensures
            b == (IcebergBuilder { side: Some(side), ..self }),
    {
        IcebergBuilder { side: Some(side), ..self }
    }

    pub fn total_quantity(self, qty: i64) -> (b: Self)
        ensures
            b == (IcebergBuilder { total_quantity: Some(qty), ..self }),
    {
        IcebergBuilder { total_quantity: Some(qty), ..self }
    }

    pub fn limit_price(self, price: i64) -> (b: Self)
        ensures
            b == (IcebergBuilder { limit_price: Some(price), ..self }),
    {
        IcebergBuilder { limit_price: Some(price), ..self }
    }

    pub fn display_quantity(self, qty: i64) -> (b: Self)
        ensures
            b == (IcebergBuilder { display_quantity: Some(qty), ..self }),
    {
        IcebergBuilder { display_quantity: Some(qty), ..self }
    }

    pub fn config(self, config: IcebergConfig) -> (b: Self)
        ensures
            b == (IcebergBuilder { config, ..self }),
    {
        IcebergBuilder { config, ..self }
    }

    /// What the first missing part is answered with, if one is missing.
    pub open spec fn refusal(&self) -> Option<IcebergError> {
        if self.order_id is None || self.symbol is None || self.side is None
            || self.total_quantity is None || self.limit_price is None {
            Some(IcebergError::OrderNotFound)
        } else if self.display_quantity is None {
            Some(IcebergError::InvalidDisplayQuantity)
        } else if self.display_quantity->0 <= 0 || self.display_quantity->0
            > self.total_quantity->0 {
            Some(IcebergError::InvalidDisplayQuantity)
        } else {
            None
        }
    }

    /// Creates the order, where nothing of it is missing
    pub fn build(self, manager: &mut IcebergManager, bounds: (i64, i64), now_ns: u64) -> (r: Result<
        IcebergOrder,
        IcebergError,
    >)
        requires
            old(manager).inv(),
        ensures
            final(manager).inv(),
            match self.refusal() {
                Some(e) => r == Err::<IcebergOrder, IcebergError>(e) && *final(manager) == *old(manager),
                None => {
                    &&& r is Ok
                    &&& IcebergManager::is_new(
                        r->Ok_0,
                        self.order_id->0@,
                        self.symbol->0@,
                        self.side->0,
                        self.total_quantity->0,
                        self.limit_price->0,
                        self.display_quantity->0,
                        bounds,
                        now_ns,
                    )
                    &&& final(manager).orders@ == old(manager).orders@.insert(
                        self.order_id->0@,
                        r->Ok_0,
                    )
                },
            },
    {
        let order_id = match self.order_id {
            Some(v) => v,
            None => {
                return Err(IcebergError::OrderNotFound);
            },
        };
        let symbol = match self.symbol {
            Some(v) => v,
            None => {
                return Err(IcebergError::OrderNotFound);
            },
        };
        let side = match self.side {
            Some(v) => v,
            None => {
                return Err(IcebergError::OrderNotFound);
            },
        };
        let total: i64 = match self.total_quantity {
            Some(v) => v,
            None => {
                return Err(IcebergError::OrderNotFound);
            },
        };
        let price: i64 = match self.limit_price {
            Some(v) => v,
            None => {
                return Err(IcebergError::OrderNotFound);
            },
        };
        let display: i64 = match self.display_quantity {
            Some(v) => v,
            None => {
                return Err(IcebergError::InvalidDisplayQuantity);
            },
        };
        manager.create_iceberg(order_id, symbol, side, total, price, display, bounds, now_ns)
    }
}

impl Default for IcebergBuilder {
    fn default() -> (b: Self)
        ensures
            b.order_id is None,
            b.symbol is None,
            b.side is None,
            b.total_quantity is None,
            b.limit_price is None,
            b.display_quantity is None,
            b.config == (IcebergConfig {
                enable_time_jitter: true,
                jitter_range_ms: 500,
                enable_size_randomization: true,
                randomization_pct: DEFAULT_RANDOMIZATION,
                min_refresh_interval_ms: 100,
                max_refresh_interval_ms: 2000,
                queue_refresh_threshold: 10,
            }),
    {
        Self::new()
    }
}

/// Whatever is drawn, what is shown is positive and at most what is left, and within its bounds
/// where enough is left.
pub proof fn law_shown_quantity_is_bounded(
    config: IcebergConfig,
    order: IcebergOrder,
    remaining: i64,
    drawn: i64,
)
    requires
        config.enable_size_randomization,
        1 <= order.min_display_qty <= order.max_display_qty,
        remaining >= 1,
    ensures
        1 <= next_display(config, order, remaining, drawn) <= remaining,
        next_display(config, order, remaining, drawn) <= order.max_display_qty,
        remaining >= order.max_display_qty ==> next_display(config, order, remaining, drawn)
            >= order.min_display_qty,
{
}

/// Without randomization an order shows its usual quantity, or what is left where that is less; with
/// it, what was drawn, wherever that lies within the bounds and is left.
pub proof fn law_shown_quantity_is_the_drawn_one(
    config: IcebergConfig,
    order: IcebergOrder,
    remaining: i64,
    drawn: i64,
)
    requires
        remaining >= 1,
    ensures
        ({
            let shown = next_display(config, order, remaining, drawn);
            &&& !config.enable_size_randomization ==> shown <= remaining && shown
                <= order.display_quantity && (shown == remaining || shown == order.display_quantity)
            &&& config.enable_size_randomization && order.min_display_qty <= drawn
                <= order.max_display_qty && 1 <= drawn <= remaining ==> shown == drawn
        }),
{
}

/// What is left of an order after a fill is its total without what was executed before and with the
/// fill, wherever that fits.
pub proof fn law_fill_reduces_what_is_left(order: IcebergOrder, filled_qty: i64)
    requires
        i64::MIN <= order.executed_quantity + filled_qty <= i64::MAX,
    ensures
        order.left(filled_qty) + order.executed_quantity + filled_qty == order.total_quantity,
{
}

/// A delay is the least interval where there is no jitter, and lies less than the jitter behind it
/// where there is.
pub proof fn law_delay_lies_in_its_range(config: IcebergConfig, delay_ms: u64)
    requires
        config.allows_delay(delay_ms),
    ensures
        delay_ms >= config.min_refresh_interval_ms,
        config.enable_time_jitter ==> delay_ms - config.min_refresh_interval_ms
            < config.jitter_range_ms,
        !config.enable_time_jitter ==> delay_ms == config.min_refresh_interval_ms,
{
}

/// The probes are the cancellations between two events that are less than ten milliseconds apart.
pub proof fn law_probes_are_quick_cancellations(events: Seq<MarketEvent>, k: nat)
    requires
        k <= triples(events),
    ensures
        probes(events, k) == crate::tally::count(
            k,
            |i: int|
                events[i + 1].event_type == MarketEventType::Cancel && events[i + 2].timestamp_ns
                    < events[i].timestamp_ns + 10_000_000,
        ),
        events.len() >= 2 ==> triples(events) == events.len() - 2,
        events.len() < 2 ==> triples(events) == 0,
    decreases k,
{
    if k > 0 {
        law_probes_are_quick_cancellations(events, (k - 1) as nat);
    }
}

/// An order keeps its priority where it stands before the threshold of the queue; a refresh of one
/// behind it is counted.
pub proof fn law_priority_depends_on_the_queue(
    m: IcebergManager,
    child: ChildOrderSpec,
    order: IcebergOrder,
    filled_qty: i64,
    drawn: i64,
    delay_ms: u64,
)
    requires
        m.is_refresh(child, order, filled_qty, drawn, delay_ms),
        m.stats.queue_preserved_refreshes < u64::MAX,
    ensures
        child.preserve_priority <==> order.queue_position < m.config.queue_refresh_threshold,
        child.price == order.limit_price,
        child.side == order.side,
        child.display_qty == Some(child.quantity),
        child.delay_before_submit_ms == delay_ms,
        m.stats_refreshed(order).queue_preserved_refreshes - m.stats.queue_preserved_refreshes
            == if order.queue_position > m.config.queue_refresh_threshold {
            1int
        } else {
            0
        },
        m.stats_refreshed(order).total_orders_created == m.stats.total_orders_created,
        m.stats_refreshed(order).detected_sniff_attempts == m.stats.detected_sniff_attempts,
{
}

/// A builder that lacks a part has no order to build; one without a quantity to show, or with one that
/// is not above zero and within the total, has none to show.
pub proof fn law_builder_refuses_for_its_reason(b: IcebergBuilder)
    ensures
        b.order_id is None || b.symbol is None || b.side is None || b.total_quantity is None
            || b.limit_price is None <==> b.refusal() == Some(IcebergError::OrderNotFound),
        b.refusal() is None ==> b.display_quantity is Some && 0 < b.display_quantity->0
            <= b.total_quantity->0,
        b.order_id is Some && b.symbol is Some && b.side is Some && b.total_quantity is Some
            && b.limit_price is Some && b.display_quantity is Some && 0 < b.display_quantity->0
            <= b.total_quantity->0 ==> b.refusal() is None,
        b.refusal() is None || b.refusal() == Some(IcebergError::OrderNotFound) || b.refusal()
            == Some(IcebergError::InvalidDisplayQuantity),
{
}

/// The child that refreshes an order is at its price and on its side, shows all it has, names its
/// parent, and keeps its priority where the order stands near the front of the queue.
pub proof fn law_child_follows_its_parent(
    m: IcebergManager,
    child: ChildOrderSpec,
    order: IcebergOrder,
    filled_qty: i64,
    drawn: i64,
    delay_ms: u64,
)
    requires
        m.is_refresh(child, order, filled_qty, drawn, delay_ms),
    ensures
        child.symbol@ == order.symbol@ && child.side == order.side,
        child.price == order.limit_price,
        child.display_qty == Some(child.quantity),
        child.iceberg_parent matches Some(p) && p@ == order.order_id@,
        child.delay_before_submit_ms == delay_ms,
        child.preserve_priority <==> order.queue_position < m.config.queue_refresh_threshold,
{
}

} // verus!
