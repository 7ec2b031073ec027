//! Post-only orders: prices that never cross the spread.
use crate::doubles::above;
use crate::names::NamedMap;
use vstd::prelude::*;

verus! {

#[derive(Debug, Clone, Copy, PartialEq, Eq, Structural)]
pub enum Side {
    Buy,
    Sell,
}

impl Side {
    pub fn as_str(&self) -> (s: &'static str)
        ensures
            s == match *self {
                Side::Buy => "BUY",
                Side::Sell => "SELL",
            },
    {
        match self {
            Side::Buy => "BUY",
            Side::Sell => "SELL",
        }
    }

    pub fn is_buy(&self) -> (r: bool)
        ensures
            r == (*self == Side::Buy),
    {
        match self {
            Side::Buy => true,
            Side::Sell => false,
        }
    }

    pub fn is_sell(&self) -> (r: bool)
        ensures
            r == (*self == Side::Sell),
    {
        match self {
            Side::Buy => false,
            Side::Sell => true,
        }
    }
}

#[derive(Debug, Clone, Copy, PartialEq, Eq, Structural)]
pub enum OrderStatus {
    Pending,
    Submitted,
    LiveOnBook,
    Cancelled,
    Rejected,
    Executed,
}

#[derive(Debug, Clone, Copy, PartialEq, Eq, Structural)]
pub enum ModificationReason {
    /// Price adjusted to avoid crossing spread
    SpreadAvoidance,
    /// Price adjusted due to volatility spike
    VolatilityAdjustment,
    /// Price adjusted to maintain queue priority
    QueuePriority,
    /// Minimum tick size adjustment
    TickSizeAdjustment,
}

/// Post-only order state
#[derive(Debug)]
pub struct PostOnlyOrder {
    /// Unique order identifier
    pub order_id: String,
    /// Symbol/trading pair
    pub symbol: String,
    /// Side (buy/sell)
    pub side: Side,
    /// Original intended price
    pub intended_price: i64,
    /// Actual submitted price (may be adjusted for post-only)
    pub submitted_price: i64,
    /// Quantity
    pub quantity: i64,
    /// Current best bid (snapshot at submission time)
    pub best_bid: i64,
    /// Current best ask (snapshot at submission time)
    pub best_ask: i64,
    /// Whether order was modified from intended price
    pub price_modified: bool,
    /// Modification reason
    pub modification_reason: Option<ModificationReason>,
    /// Submission timestamp
    pub submitted_at: u64,
    /// Status
    pub status: OrderStatus,
}

impl PostOnlyOrder {
    /// A copy of the order.
    pub fn copy(&self) -> (r: Self)
        ensures
            r == *self,
    {
        PostOnlyOrder {
            order_id: self.order_id.clone(),
            symbol: self.symbol.clone(),
            side: self.side,
            intended_price: self.intended_price,
            submitted_price: self.submitted_price,
            quantity: self.quantity,
            best_bid: self.best_bid,
            best_ask: self.best_ask,
            price_modified: self.price_modified,
            modification_reason: self.modification_reason,
            submitted_at: self.submitted_at,
            status: self.status,
        }
    }
}

/// The bits of 0.001.
pub const DEFAULT_ADJUSTMENT: u64 = 0x3f50_624d_d2f1_a9fc;

/// The bits of 2, a move in per cent.
pub const DEFAULT_VOLATILITY: u64 = 0x4000_0000_0000_0000;

/// Configuration for post-only behavior
#[derive(Debug, Clone, Copy, PartialEq, Eq, Structural)]
pub struct PostOnlyConfig {
    /// Minimum spread required to submit order (in basis points)
    pub min_spread_bps: u16,
    /// Maximum share of the price by which it is adjusted, as the bits of a double
    pub max_price_adjustment_pct: u64,
    /// Tick size for the symbol
    pub tick_size: i64,
    /// Enable volatility circuit breaker
    pub enable_circuit_breaker: bool,
    /// Volatility threshold (percentage move in window), as the bits of a double
    pub volatility_threshold_pct: u64,
    /// Volatility lookback window in milliseconds
    pub volatility_window_ms: u64,
    /// Spread staleness threshold in milliseconds
    pub spread_staleness_ms: u64,
    /// Auto-cancel on fill risk detection
    pub auto_cancel_on_fill_risk: bool,
}

impl Default for PostOnlyConfig {
    fn default() -> (c: Self)
        ensures
            c == (PostOnlyConfig {
                min_spread_bps: 5,
                max_price_adjustment_pct: DEFAULT_ADJUSTMENT,
                tick_size: 1,
                enable_circuit_breaker: true,
                volatility_threshold_pct: DEFAULT_VOLATILITY,
                volatility_window_ms: 1000,
                spread_staleness_ms: 100,
                auto_cancel_on_fill_risk: true,
            }),
    {
        Self {
            min_spread_bps: 5,
            max_price_adjustment_pct: DEFAULT_ADJUSTMENT,
            tick_size: 1,
            enable_circuit_breaker: true,
            volatility_threshold_pct: DEFAULT_VOLATILITY,
            volatility_window_ms: 1000,
            spread_staleness_ms: 100,
            auto_cancel_on_fill_risk: true,
        }
    }
}

#[derive(Debug, Clone, Copy, PartialEq, Eq, Structural)]
pub struct PostOnlyStats {
    pub total_orders_submitted: u64,
    pub orders_live_on_book: u64,
    pub orders_price_adjusted: u64,
    pub orders_cancelled_pre_fill: u64,
    pub maker_rebates_earned: u64,
    pub taker_fees_avoided: u64,
    pub circuit_breaker_trips: u64,
    pub spread_violations_prevented: u64,
}

impl Default for PostOnlyStats {
    fn default() -> (s: Self)
        ensures
            s == (PostOnlyStats {
                total_orders_submitted: 0,
                orders_live_on_book: 0,
                orders_price_adjusted: 0,
                orders_cancelled_pre_fill: 0,
                maker_rebates_earned: 0,
                taker_fees_avoided: 0,
                circuit_breaker_trips: 0,
                spread_violations_prevented: 0,
            }),
    {
        PostOnlyStats {
            total_orders_submitted: 0,
            orders_live_on_book: 0,
            orders_price_adjusted: 0,
            orders_cancelled_pre_fill: 0,
            maker_rebates_earned: 0,
            taker_fees_avoided: 0,
            circuit_breaker_trips: 0,
            spread_violations_prevented: 0,
        }
    }
}

/// Result of post-only validation
#[derive(Debug, Clone, Copy, PartialEq, Eq, Structural)]
pub enum PostOnlyValidationResult {
    Valid,
    RequiresAdjustment { original_price: i64, adjusted_price: i64, reason: ModificationReason },
    CircuitBreakerActive,
    StaleSpreadData,
    SpreadTooTight(u16),
    /// The price would have to be adjusted by this share
    AdjustmentExceedsLimit(u64),
}

/// Cancel decision based on fill risk analysis
#[derive(Debug, Clone, Copy, PartialEq, Eq, Structural)]
pub enum CancelDecision {
    NoRisk,
    FillRiskDetectedButHold,
    CancelToAvoidTakerExecution,
}

#[derive(Debug, PartialEq, Eq)]
pub enum PostOnlyError {
    CircuitBreakerActive,
    StaleMarketData,
    SpreadTooTight(u16),
    /// The price would have to be adjusted by this share
    PriceAdjustmentTooLarge(u64),
    OrderNotFound,
    InvalidParameters(&'static str),
}

/// The spread of a book in basis points of its mid price, in sixteen bits; none of a crossed or
/// incomplete book.
pub open spec fn spread_bps(bid: i64, ask: i64) -> Option<u16> {
    if bid <= 0 || ask <= 0 || bid >= ask {
        None
    } else {
        Some((((ask - bid) * 10_000) / ((bid + ask) / 2) % 0x1_0000) as u16)
    }
}

/// True where an order at a price would take instead of make.
pub open spec fn crosses(side: Side, price: i64, bid: i64, ask: i64) -> bool {
    match side {
        Side::Buy => price >= ask && ask > 0,
        Side::Sell => price <= bid && bid > 0,
    }
}

/// The price next to the other side of the book, by one tick: below the best ask for a buy, but at
/// least one, and above the best bid for a sell.
pub open spec fn passive_price(side: Side, bid: i64, ask: i64, tick: i64) -> int {
    match side {
        Side::Buy => if ask - tick >= 1 {
            ask - tick
        } else {
            1
        },
        Side::Sell => bid + tick,
    }
}

/// Post-only enforcement manager
#[derive(Debug)]
pub struct PostOnlyManager {
    /// Active post-only orders
    pub orders: NamedMap<PostOnlyOrder>,
    /// Current best bid/ask cache
    pub best_bid: i64,
    pub best_ask: i64,
    /// Last update time for spread data
    pub spread_last_updated: u64,
    /// Spread staleness threshold in nanoseconds
    pub spread_staleness_ns: u64,
    /// Statistics
    pub stats: PostOnlyStats,
    /// Configuration
    pub config: PostOnlyConfig,
    /// Circuit breaker for extreme volatility
    pub circuit_breaker: bool,
}

impl PostOnlyManager {
    pub open spec fn inv(&self) -> bool {
        self.orders.inv()
    }

    /// True where the spread data are fresh.
    pub open spec fn fresh(&self, now_ns: u64) -> bool {
        if now_ns >= self.spread_last_updated {
            now_ns - self.spread_last_updated < self.spread_staleness_ns
        } else {
            0 < self.spread_staleness_ns
        }
    }

    /// True where the spread is known and below the least one.
    pub open spec fn too_tight(&self) -> bool {
        match spread_bps(self.best_bid, self.best_ask) {
            Some(bps) => bps < self.config.min_spread_bps,
            None => false,
        }
    }

    /// True where an order at a price has a price next to the spread.
    pub open spec fn adjustable(&self, side: Side, price: i64) -> bool {
        crosses(side, price, self.best_bid, self.best_ask) ==> i64::MIN <= passive_price(
            side,
            self.best_bid,
            self.best_ask,
            self.config.tick_size,
        ) <= i64::MAX
    }

    /// What is found of an order: whether it may be submitted, as it is or at another price.
    pub open spec fn validation(
        &self,
        side: Side,
        price: i64,
        adjustment_pct: u64,
        now_ns: u64,
    ) -> PostOnlyValidationResult {
        if self.circuit_breaker {
            PostOnlyValidationResult::CircuitBreakerActive
        } else if !self.fresh(now_ns) {
            PostOnlyValidationResult::StaleSpreadData
        } else if self.too_tight() {
            PostOnlyValidationResult::SpreadTooTight(
                spread_bps(self.best_bid, self.best_ask)->0,
            )
        } else if crosses(side, price, self.best_bid, self.best_ask) {
            let adjusted = passive_price(
                side,
                self.best_bid,
                self.best_ask,
                self.config.tick_size,
            ) as i64;
            if !crate::doubles::greater(adjustment_pct, self.config.max_price_adjustment_pct) {
                PostOnlyValidationResult::RequiresAdjustment {
                    original_price: price,
                    adjusted_price: adjusted,
                    reason: ModificationReason::SpreadAvoidance,
                }
            } else {
                PostOnlyValidationResult::AdjustmentExceedsLimit(adjustment_pct)
            }
        } else {
            PostOnlyValidationResult::Valid
        }
    }

    /// The statistics after a validation: a spread that is too tight is counted.
    pub open spec fn stats_after(&self, v: PostOnlyValidationResult) -> PostOnlyStats {
        match v {
            PostOnlyValidationResult::SpreadTooTight(_) => PostOnlyStats {
                spread_violations_prevented: self.stats.spread_violations_prevented.wrapping_add(
                    1,
                ),
                ..self.stats
            },
            _ => self.stats,
        }
    }

    /// True where everything but the statistics and the orders is as in another state.
    pub open spec fn same_market(&self, other: &PostOnlyManager) -> bool {
        &&& self.best_bid == other.best_bid
        &&& self.best_ask == other.best_ask
        &&& self.spread_last_updated == other.spread_last_updated
        &&& self.spread_staleness_ns == other.spread_staleness_ns
        &&& self.config == other.config
        &&& self.circuit_breaker == other.circuit_breaker
    }

    pub fn new(config: PostOnlyConfig) -> (m: Self)
        requires
            config.spread_staleness_ms * 1_000_000 <= u64::MAX,
        ensures
            m.inv(),
            m.orders@ == Map::<Seq<char>, PostOnlyOrder>::empty(),
            m.best_bid == 0,
            m.best_ask == 0,
            m.spread_last_updated == 0,
            m.spread_staleness_ns == config.spread_staleness_ms * 1_000_000,
            m.stats == (PostOnlyStats {
                total_orders_submitted: 0,
                orders_live_on_book: 0,
                orders_price_adjusted: 0,
                orders_cancelled_pre_fill: 0,
                maker_rebates_earned: 0,
                taker_fees_avoided: 0,
                circuit_breaker_trips: 0,
                spread_violations_prevented: 0,
            }),
            m.config == config,
            !m.circuit_breaker,
    {
        Self {
            orders: NamedMap::new(),
            best_bid: 0,
            best_ask: 0,
            spread_last_updated: 0,
            spread_staleness_ns: config.spread_staleness_ms * 1_000_000,
            stats: PostOnlyStats::default(),
            config,
            circuit_breaker: false,
        }
    }

    /// Update best bid/ask from market data feed, where both have a price
    pub fn update_market_data(&mut self, best_bid: i64, best_ask: i64, now_ns: u64)
        ensures
            *final(self) == if best_bid > 0 && best_ask > 0 {
                PostOnlyManager {
                    best_bid,
                    best_ask,
                    spread_last_updated: now_ns,
                    ..*old(self)
                }
            } else {
                *old(self)
            },
    {
        if best_bid > 0 && best_ask > 0 {
            self.best_bid = best_bid;
            self.best_ask = best_ask;
            self.spread_last_updated = now_ns;
        }
    }

    /// Check if spread data is fresh enough for safe order submission
    pub fn is_spread_data_fresh(&self, now_ns: u64) -> (r: bool)
        ensures
            r == self.fresh(now_ns),
    {
        let age: u64 = now_ns.saturating_sub(self.spread_last_updated);
        age < self.spread_staleness_ns
    }

    /// Calculate current spread in basis points
    pub fn current_spread_bps(&self) -> (r: Option<u16>)
        ensures
            r == spread_bps(self.best_bid, self.best_ask),
    {
        let bid: i64 = self.best_bid;
        let ask: i64 = self.best_ask;
        if bid <= 0 || ask <= 0 || bid >= ask {
            return None;
        }
        let mid: u128 = (bid as u128 + ask as u128) / 2;
        let spread: u128 = (ask - bid) as u128;
        let bps: u128 = (spread * 10_000) / mid;
        Some((bps % 0x1_0000) as u16)
    }

    /// The price at which an order that would cross the spread stays passive; none where the
    /// order does not cross it
    pub fn adjusted_price(&self, side: Side, price: i64) -> (r: Option<i64>)
        requires
            self.adjustable(side, price),
        ensures
            r == if crosses(side, price, self.best_bid, self.best_ask) {
                Some(
                    passive_price(side, self.best_bid, self.best_ask, self.config.tick_size) as i64,
                )
            } else {
                None
            },
    {
        let would_cross = match side {
            Side::Buy => price >= self.best_ask && self.best_ask > 0,
            Side::Sell => price <= self.best_bid && self.best_bid > 0,
        };
        if !would_cross {
            return None;
        }
        let adjusted: i64 = match side {
            Side::Buy => {
                let below: i128 = self.best_ask as i128 - self.config.tick_size as i128;
                if below >= 1 {
                    below as i64
                } else {
                    1
                }
            },
            Side::Sell => self.best_bid + self.config.tick_size,
        };
        Some(adjusted)
    }

    /// Validate and potentially adjust order for post-only compliance
    ///
    /// `adjustment_pct` is the share of the price by which it has to be adjusted, as the bits of a
    /// double; it counts where the price crosses the spread.
    pub fn validate_post_only(
        &mut self,
        side: Side,
        price: i64,
        adjustment_pct: u64,
        now_ns: u64,
    ) -> (r: PostOnlyValidationResult)
        requires
            old(self).adjustable(side, price),
        ensures
            r == old(self).validation(side, price, adjustment_pct, now_ns),
            *final(self) == (PostOnlyManager { stats: old(self).stats_after(r), ..*old(self) }),
    {
        if self.circuit_breaker {
            return PostOnlyValidationResult::CircuitBreakerActive;
        }
        if !self.is_spread_data_fresh(now_ns) {
            return PostOnlyValidationResult::StaleSpreadData;
        }
        if let Some(bps) = self.current_spread_bps() {
            if bps < self.config.min_spread_bps {
                self.stats.spread_violations_prevented =
                self.stats.spread_violations_prevented.wrapping_add(1);
                return PostOnlyValidationResult::SpreadTooTight(bps);
            }
        }
        match self.adjusted_price(side, price) {
            Some(adjusted_price) => {
                if above(adjustment_pct, self.config.max_price_adjustment_pct) {
                    return PostOnlyValidationResult::AdjustmentExceedsLimit(adjustment_pct);
                }
                PostOnlyValidationResult::RequiresAdjustment {
                    original_price: price,
                    adjusted_price,
                    reason: ModificationReason::SpreadAvoidance,
                }
            },
            None => PostOnlyValidationResult::Valid,
        }
    }

    /// What becomes of an order once it is validated: its price and whether that was changed, or why
    /// it is refused.
    pub open spec fn outcome(v: PostOnlyValidationResult, price: i64) -> Result<
        (i64, bool),
        PostOnlyError,
    > {
        match v {
            PostOnlyValidationResult::Valid => Ok((price, false)),
            PostOnlyValidationResult::RequiresAdjustment { adjusted_price, .. } => Ok(
                (adjusted_price, true),
            ),
            PostOnlyValidationResult::CircuitBreakerActive => Err(
                PostOnlyError::CircuitBreakerActive,
            ),
            PostOnlyValidationResult::StaleSpreadData => Err(PostOnlyError::StaleMarketData),
            PostOnlyValidationResult::SpreadTooTight(bps) => Err(
                PostOnlyError::SpreadTooTight(bps),
            ),
            PostOnlyValidationResult::AdjustmentExceedsLimit(p) => Err(
                PostOnlyError::PriceAdjustmentTooLarge(p),
            ),
        }
    }

    /// True where an order is what was asked for, at a price that was found for it.
    pub open spec fn is_submitted(
        &self,
        order: PostOnlyOrder,
        order_id: Seq<char>,
        symbol: Seq<char>,
        side: Side,
        intended_price: i64,
        quantity: i64,
        found: (i64, bool),
        now_ns: u64,
    ) -> bool {
        &&& order.order_id@ == order_id
        &&& order.symbol@ == symbol
        &&& order.side == side
        &&& order.intended_price == intended_price
        &&& order.submitted_price == found.0
        &&& order.quantity == quantity
        &&& order.best_bid == self.best_bid
        &&& order.best_ask == self.best_ask
        &&& order.price_modified == found.1
        &&& order.modification_reason == if found.1 {
            Some(ModificationReason::SpreadAvoidance)
        } else {
            None
        }
        &&& order.submitted_at == now_ns
        &&& order.status == OrderStatus::Submitted
    }

    /// Submit a post-only order with automatic price adjustment
    ///
    /// An order that is let through is kept under its identifier and counted; one that is refused
    /// leaves the orders as they are.
    pub fn submit_post_only(
        &mut self,
        order_id: String,
        symbol: String,
        side: Side,
        intended_price: i64,
        quantity: i64,
        adjustment_pct: u64,
        now_ns: u64,
    ) -> (r: Result<PostOnlyOrder, PostOnlyError>)
        requires
            old(self).inv(),
            old(self).adjustable(side, intended_price),
        ensures
            final(self).inv(),
            final(self).same_market(old(self)),
            ({
                let v = old(self).validation(side, intended_price, adjustment_pct, now_ns);
                match PostOnlyManager::outcome(v, intended_price) {
                    Ok(found) => {
                        &&& r is Ok
                        &&& old(self).is_submitted(
                            r->Ok_0,
                            order_id@,
                            symbol@,
                            side,
                            intended_price,
                            quantity,
                            found,
                            now_ns,
                        )
                        &&& final(self).orders@ == old(self).orders@.insert(order_id@, r->Ok_0)
                        &&& final(self).stats == (PostOnlyStats {
                            total_orders_submitted:
                                old(self).stats.total_orders_submitted.wrapping_add(1),
                            orders_price_adjusted: if found.1 {
                                old(self).stats.orders_price_adjusted.wrapping_add(1)
                            } else {
                                old(self).stats.orders_price_adjusted
                            },
                            ..old(self).stats
                        })
                    },
                    Err(e) => {
                        &&& r == Err::<PostOnlyOrder, PostOnlyError>(e)
                        &&& final(self).orders == old(self).orders
                        &&& final(self).stats == old(self).stats_after(v)
                    },
                }
            }),
    {
        let validation = self.validate_post_only(
            side,
            intended_price,
            adjustment_pct,
            now_ns,
        );
        let (submitted_price, price_modified) = match validation {
            PostOnlyValidationResult::Valid => (intended_price, false),
            PostOnlyValidationResult::RequiresAdjustment { adjusted_price, .. } => (
                adjusted_price,
                true,
            ),
            PostOnlyValidationResult::CircuitBreakerActive => {
                return Err(PostOnlyError::CircuitBreakerActive);
            },
            PostOnlyValidationResult::StaleSpreadData => {
                return Err(PostOnlyError::StaleMarketData);
            },
            PostOnlyValidationResult::SpreadTooTight(bps) => {
                return Err(PostOnlyError::SpreadTooTight(bps));
            },
            PostOnlyValidationResult::AdjustmentExceedsLimit(p) => {
                return Err(PostOnlyError::PriceAdjustmentTooLarge(p));
            },
        };
        let order = PostOnlyOrder {
            order_id: order_id.clone(),
            symbol,
            side,
            intended_price,
            submitted_price,
            quantity,
            best_bid: self.best_bid,
            best_ask: self.best_ask,
            price_modified,
            modification_reason: if price_modified {
                Some(ModificationReason::SpreadAvoidance)
            } else {
                None
            },
            submitted_at: now_ns,
            status: OrderStatus::Submitted,
        };
        let kept = order.copy();
        self.orders.insert(order_id, kept);
        self.stats.total_orders_submitted = self.stats.total_orders_submitted.wrapping_add(1);
        if price_modified {
            self.stats.orders_price_adjusted = self.stats.orders_price_adjusted.wrapping_add(1);
        }
        Ok(order)
    }

    /// True where a resting order would be executed at once.
    pub open spec fn at_risk(&self, order: PostOnlyOrder) -> bool {
        crosses(order.side, order.submitted_price, self.best_bid, self.best_ask)
    }

    /// Immediate cancel if fill risk detected (e.g., spread crossed after submission)
    ///
    /// Nothing is decided on an order that is unknown or no longer open.
    pub fn check_fill_risk_and_cancel(&mut self, order_id: &str) -> (r: Option<CancelDecision>)
        ensures
            r == if old(self).orders@.contains_key(order_id@) {
                let order = old(self).orders@[order_id@];
                if order.status != OrderStatus::LiveOnBook && order.status
                    != OrderStatus::Submitted {
                    None
                } else if !old(self).at_risk(order) {
                    Some(CancelDecision::NoRisk)
                } else if old(self).config.auto_cancel_on_fill_risk {
                    Some(CancelDecision::CancelToAvoidTakerExecution)
                } else {
                    Some(CancelDecision::FillRiskDetectedButHold)
                }
            } else {
                None
            },
            *final(self) == if r == Some(CancelDecision::CancelToAvoidTakerExecution) {
                PostOnlyManager {
                    stats: PostOnlyStats {
                        orders_cancelled_pre_fill:
                            old(self).stats.orders_cancelled_pre_fill.wrapping_add(1),
                        ..old(self).stats
                    },
                    ..*old(self)
                }
            } else {
                *old(self)
            },
    {
        let fill_risk = match self.orders.get(order_id) {
            Some(order) => {
                if order.status != OrderStatus::LiveOnBook && order.status
                    != OrderStatus::Submitted {
                    return None;
                }
                match order.side {
                    Side::Buy => self.best_ask > 0 && self.best_ask <= order.submitted_price,
                    Side::Sell => self.best_bid > 0 && self.best_bid >= order.submitted_price,
                }
            },
            None => {
                return None;
            },
        };
        if fill_risk && self.config.auto_cancel_on_fill_risk {
            self.stats.orders_cancelled_pre_fill =
            self.stats.orders_cancelled_pre_fill.wrapping_add(1);
            Some(CancelDecision::CancelToAvoidTakerExecution)
        } else if fill_risk {
            Some(CancelDecision::FillRiskDetectedButHold)
        } else {
            Some(CancelDecision::NoRisk)
        }
    }

    /// Trip circuit breaker on extreme volatility, where it is enabled
    pub fn trip_circuit_breaker(&mut self)
        ensures
            *final(self) == if old(self).config.enable_circuit_breaker {
                PostOnlyManager {
                    circuit_breaker: true,
                    stats: PostOnlyStats {
                        circuit_breaker_trips: old(self).stats.circuit_breaker_trips.wrapping_add(
                            1,
                        ),
                        ..old(self).stats
                    },
                    ..*old(self)
                }
            } else {
                *old(self)
            },
    {
        if self.config.enable_circuit_breaker {
            self.circuit_breaker = true;
            self.stats.circuit_breaker_trips = self.stats.circuit_breaker_trips.wrapping_add(1);
        }
    }

    /// Reset circuit breaker
    pub fn reset_circuit_breaker(&mut self)
        ensures
            *final(self) == (PostOnlyManager { circuit_breaker: false, ..*old(self) }),
    {
        self.circuit_breaker = false;
    }

    /// Check if circuit breaker is active
    pub fn is_circuit_breaker_active(&self) -> (r: bool)
        ensures
            r == self.circuit_breaker,
    {
        self.circuit_breaker
    }

    /// Record maker rebate earned
    pub fn record_maker_rebate(&mut self, rebate_amount: u64)
        ensures
            *final(self) == (PostOnlyManager {
                stats: PostOnlyStats {
                    maker_rebates_earned: old(self).stats.maker_rebates_earned.wrapping_add(
                        rebate_amount,
                    ),
                    ..old(self).stats
                },
                ..*old(self)
            }),
    {
        self.stats.maker_rebates_earned =
        self.stats.maker_rebates_earned.wrapping_add(rebate_amount);
    }

    /// Record taker fee avoided
    pub fn record_taker_fee_avoided(&mut self, fee_amount: u64)
        ensures
            *final(self) == (PostOnlyManager {
                stats: PostOnlyStats {
                    taker_fees_avoided: old(self).stats.taker_fees_avoided.wrapping_add(
                        fee_amount,
                    ),
                    ..old(self).stats
                },
                ..*old(self)
            }),
    {
        self.stats.taker_fees_avoided = self.stats.taker_fees_avoided.wrapping_add(fee_amount);
    }

    /// Update order status
    ///
    /// An unknown order changes nothing; one that goes live on the book is counted.
    pub fn update_order_status(&mut self, order_id: &str, status: OrderStatus)
        requires
            old(self).inv(),
        ensures
            final(self).inv(),
            final(self).same_market(old(self)),
            final(self).orders@ == if old(self).orders@.contains_key(order_id@) {
                old(self).orders@.insert(
                    order_id@,
                    PostOnlyOrder { status, ..old(self).orders@[order_id@] },
                )
            } else {
                old(self).orders@
            },
            final(self).stats == if old(self).orders@.contains_key(order_id@) && status
                == OrderStatus::LiveOnBook {
                PostOnlyStats {
                    orders_live_on_book: old(self).stats.orders_live_on_book.wrapping_add(1),
                    ..old(self).stats
                }
            } else {
                old(self).stats
            },
    {
        if let Some(order) = self.orders.get_mut(order_id) {
            order.status = status;
            if status == OrderStatus::LiveOnBook {
                self.stats.orders_live_on_book = self.stats.orders_live_on_book.wrapping_add(1);
            }
        }
    }

    /// Get statistics
    pub fn stats(&self) -> (s: &PostOnlyStats)
        ensures
            *s == self.stats,
    {
        &self.stats
    }
}

/// Builder for post-only orders
#[derive(Debug)]
pub struct PostOnlyOrderBuilder {
    pub order_id: Option<String>,
    pub symbol: Option<String>,
    pub side: Option<Side>,
    pub price: Option<i64>,
    pub quantity: Option<i64>,
}

impl PostOnlyOrderBuilder {
    pub fn new() -> (b: Self)
        ensures
            b == (PostOnlyOrderBuilder {
                order_id: None,
                symbol: None,
                side: None,
                price: None,
                quantity: None,
            }),
    {
        Self { order_id: None, symbol: None, side: None, price: None, quantity: None }
    }

    pub fn order_id(self, id: String) -> (b: Self)
        ensures
            b == (PostOnlyOrderBuilder { order_id: Some(id), ..self }),
    {
        PostOnlyOrderBuilder { order_id: Some(id), ..self }
    }

    pub fn symbol(self, symbol: String) -> (b: Self)
        ensures
            b == (PostOnlyOrderBuilder { symbol: Some(symbol), ..self }),
    {
        PostOnlyOrderBuilder { symbol: Some(symbol), ..self }
    }

    pub fn side(self, side: Side) -> (b: Self)
        ensures
            b == (PostOnlyOrderBuilder { side: Some(side), ..self }),
    {
        PostOnlyOrderBuilder { side: Some(side), ..self }
    }

    pub fn price(self, price: i64) -> (b: Self)
        ensures
            b == (PostOnlyOrderBuilder { price: Some(price), ..self }),
    {
        PostOnlyOrderBuilder { price: Some(price), ..self }
    }

    pub fn quantity(self, qty: i64) -> (b: Self)
        ensures
            b == (PostOnlyOrderBuilder { quantity: Some(qty), ..self }),
    {
        PostOnlyOrderBuilder { quantity: Some(qty), ..self }
    }

    /// What is missing first, if anything.
    pub open spec fn missing(&self) -> Option<&'static str> {
        if self.order_id is None {
            Some("Missing order_id")
        } else if self.symbol is None {
            Some("Missing symbol")
        } else if self.side is None {
            Some("Missing side")
        } else if self.price is None {
            Some("Missing price")
        } else if self.quantity is None {
            Some("Missing quantity")
        } else {
            None
        }
    }

    /// Submits the order, where nothing of it is missing
    pub fn build(
        self,
        manager: &mut PostOnlyManager,
        adjustment_pct: u64,
        now_ns: u64,
    ) -> (r: Result<PostOnlyOrder, PostOnlyError>)
        requires
            old(manager).inv(),
            self.missing() is None ==> old(manager).adjustable(self.side->0, self.price->0),
        ensures
            final(manager).inv(),
            final(manager).same_market(old(manager)),
            match self.missing() {
                Some(what) => r == Err::<PostOnlyOrder, PostOnlyError>(
                    PostOnlyError::InvalidParameters(what),
                ) && *final(manager) == *old(manager),
                None => {
                    let v = old(manager).validation(
                        self.side->0,
                        self.price->0,
                        adjustment_pct,
                        now_ns,
                    );
                    match PostOnlyManager::outcome(v, self.price->0) {
                        Ok(found) => {
                            &&& r is Ok
                            &&& old(manager).is_submitted(
                                r->Ok_0,
                                self.order_id->0@,
                                self.symbol->0@,
                                self.side->0,
                                self.price->0,
                                self.quantity->0,
                                found,
                                now_ns,
                            )
                            &&& final(manager).orders@ == old(manager).orders@.insert(
                                self.order_id->0@,
                                r->Ok_0,
                            )
                            &&& final(manager).stats == (PostOnlyStats {
                                total_orders_submitted:
                                    old(manager).stats.total_orders_submitted.wrapping_add(1),
                                orders_price_adjusted: if found.1 {
                                    old(manager).stats.orders_price_adjusted.wrapping_add(1)
                                } else {
                                    old(manager).stats.orders_price_adjusted
                                },
                                ..old(manager).stats
                            })
                        },
                        Err(e) => {
                            &&& r == Err::<PostOnlyOrder, PostOnlyError>(e)
                            &&& final(manager).orders == old(manager).orders
                            &&& final(manager).stats == old(manager).stats_after(v)
                        },
                    }
                },
            },
    {
        let order_id = match self.order_id {
            Some(v) => v,
            None => {
                return Err(PostOnlyError::InvalidParameters("Missing order_id"));
            },
        };
        let symbol = match self.symbol {
            Some(v) => v,
            None => {
                return Err(PostOnlyError::InvalidParameters("Missing symbol"));
            },
        };
        let side = match self.side {
            Some(v) => v,
            None => {
                return Err(PostOnlyError::InvalidParameters("Missing side"));
            },
        };
        let price: i64 = match self.price {
            Some(v) => v,
            None => {
                return Err(PostOnlyError::InvalidParameters("Missing price"));
            },
        };
        let quantity: i64 = match self.quantity {
            Some(v) => v,
            None => {
                return Err(PostOnlyError::InvalidParameters("Missing quantity"));
            },
        };
        manager.submit_post_only(
            order_id,
            symbol,
            side,
            price,
            quantity,
            adjustment_pct,
            now_ns,
        )
    }
}

impl Default for PostOnlyOrderBuilder {
    fn default() -> (b: Self)
        ensures
            b == (PostOnlyOrderBuilder {
                order_id: None,
                symbol: None,
                side: None,
                price: None,
                quantity: None,
            }),
    {
        Self::new()
    }
}

/// An order that is let through never crosses the spread, where ticks are positive: a buy stays below
/// the best ask and a sell above the best bid. A best ask of one leaves no room for a buy.
pub proof fn law_submitted_price_never_crosses(
    m: PostOnlyManager,
    side: Side,
    price: i64,
    adjustment_pct: u64,
    now_ns: u64,
)
    requires
        m.config.tick_size > 0,
        side is Buy ==> m.best_ask != 1,
        m.adjustable(side, price),
    ensures
        match PostOnlyManager::outcome(
            m.validation(side, price, adjustment_pct, now_ns),
            price,
        ) {
            Ok(found) => !crosses(side, found.0, m.best_bid, m.best_ask),
            Err(_) => true,
        },
{
}

/// Nothing is submitted while the circuit breaker is active or the market data are stale.
pub proof fn law_breaker_and_stale_data_refuse(
    m: PostOnlyManager,
    side: Side,
    price: i64,
    adjustment_pct: u64,
    now_ns: u64,
)
    requires
        m.circuit_breaker || !m.fresh(now_ns),
    ensures
        PostOnlyManager::outcome(
            m.validation(side, price, adjustment_pct, now_ns),
            price,
        ) is Err,
{
}

/// The spread in basis points, times the mid price, is ten thousand times the spread, rounded down;
/// it is known exactly of a book with two prices that do not cross.
pub proof fn law_spread_is_relative_to_the_mid_price(bid: i64, ask: i64)
    ensures
        spread_bps(bid, ask) is Some <==> 0 < bid < ask,
        0 < bid < ask && (ask - bid) * 10_000 < 65_536 * ((bid + ask) / 2) ==> ({
            let mid = (bid + ask) / 2;
            let bps = spread_bps(bid, ask)->0;
            bps * mid <= (ask - bid) * 10_000 < (bps + 1) * mid
        }),
{
    if 0 < bid < ask {
        let mid = (bid + ask) / 2;
        let wide = (ask - bid) * 10_000;
        assert((wide / mid) * mid <= wide < (wide / mid + 1) * mid && wide / mid >= 0)
            by (nonlinear_arith)
            requires
                mid > 0,
                wide >= 0,
        ;
        if wide < 65_536 * mid {
            assert(wide / mid < 65_536) by (nonlinear_arith)
                requires
                    (wide / mid) * mid <= wide,
                    wide < 65_536 * mid,
                    mid > 0,
            ;
        }
    }
}

/// A buy is submitted below the best ask and a sell above the best bid, as it was meant wherever it
/// already is, and otherwise one tick away from the other side, but never below one for a buy.
pub proof fn law_price_is_moved_next_to_the_spread(
    m: PostOnlyManager,
    side: Side,
    price: i64,
    adjustment_pct: u64,
    now_ns: u64,
)
    requires
        m.best_bid > 0,
        m.best_ask > 0,
        m.adjustable(side, price),
    ensures
        match PostOnlyManager::outcome(m.validation(side, price, adjustment_pct, now_ns), price) {
            Ok(found) => {
                &&& side == Side::Buy && price < m.best_ask ==> found == (price, false)
                &&& side == Side::Sell && price > m.best_bid ==> found == (price, false)
                &&& side == Side::Buy && price >= m.best_ask ==> found.1 && (found.0
                    == m.best_ask - m.config.tick_size || (found.0 == 1 && m.best_ask
                    - m.config.tick_size < 1))
                &&& side == Side::Sell && price <= m.best_bid ==> found.1 && found.0 == m.best_bid
                    + m.config.tick_size
                &&& found.1 ==> !crate::doubles::greater(
                    adjustment_pct,
                    m.config.max_price_adjustment_pct,
                )
            },
            Err(_) => true,
        },
{
}

/// An order is refused for one reason at a time, in this order: the breaker, data that are as old
/// as the threshold or older, a spread below the least one, and an adjustment above the largest.
pub proof fn law_refusals_have_their_reason(
    m: PostOnlyManager,
    side: Side,
    price: i64,
    adjustment_pct: u64,
    now_ns: u64,
)
    requires
        now_ns >= m.spread_last_updated,
        0 < m.best_bid < m.best_ask,
        !crate::doubles::is_nan(adjustment_pct),
        !crate::doubles::is_nan(m.config.max_price_adjustment_pct),
    ensures
        ({
            let r = PostOnlyManager::outcome(
                m.validation(side, price, adjustment_pct, now_ns),
                price,
            );
            let stale = now_ns - m.spread_last_updated >= m.spread_staleness_ns;
            let bps = spread_bps(m.best_bid, m.best_ask)->0;
            let takes = match side {
                Side::Buy => price >= m.best_ask,
                Side::Sell => price <= m.best_bid,
            };
            let far = crate::doubles::rank(adjustment_pct) > crate::doubles::rank(
                m.config.max_price_adjustment_pct,
            );
            &&& m.circuit_breaker ==> r == Err::<(i64, bool), PostOnlyError>(
                PostOnlyError::CircuitBreakerActive,
            )
            &&& !m.circuit_breaker && stale ==> r == Err::<(i64, bool), PostOnlyError>(
                PostOnlyError::StaleMarketData,
            )
            &&& !m.circuit_breaker && !stale && bps < m.config.min_spread_bps ==> r == Err::<
                (i64, bool),
                PostOnlyError,
            >(PostOnlyError::SpreadTooTight(bps))
            &&& !m.circuit_breaker && !stale && bps >= m.config.min_spread_bps && takes && far
                ==> r == Err::<(i64, bool), PostOnlyError>(
                PostOnlyError::PriceAdjustmentTooLarge(adjustment_pct),
            )
            &&& !m.circuit_breaker && !stale && bps >= m.config.min_spread_bps && !(takes && far)
                ==> r is Ok
        }),
{
}

/// A resting order is at risk of taking where the other side's best price has come up to it.
pub proof fn law_order_is_at_risk_where_the_market_reaches_it(m: PostOnlyManager, order: PostOnlyOrder)
    requires
        m.best_bid > 0,
        m.best_ask > 0,
    ensures
        order.side == Side::Buy ==> (m.at_risk(order) <==> order.submitted_price >= m.best_ask),
        order.side == Side::Sell ==> (m.at_risk(order) <==> order.submitted_price <= m.best_bid),
{
}

/// The first part that an order lacks is told; one with all its parts lacks none.
pub proof fn law_missing_parts_are_told_in_turn(b: PostOnlyOrderBuilder)
    ensures
        b.missing() is None <==> b.order_id is Some && b.symbol is Some && b.side is Some
            && b.price is Some && b.quantity is Some,
        b.order_id is None ==> b.missing() == Some("Missing order_id"),
        b.order_id is Some && b.symbol is None ==> b.missing() == Some("Missing symbol"),
        b.order_id is Some && b.symbol is Some && b.side is None ==> b.missing() == Some(
            "Missing side",
        ),
        b.order_id is Some && b.symbol is Some && b.side is Some && b.price is None ==> b.missing()
            == Some("Missing price"),
        b.order_id is Some && b.symbol is Some && b.side is Some && b.price is Some && b.quantity
            is None ==> b.missing() == Some("Missing quantity"),
{
}

/// Only an order that is refused for a tight spread is counted, as one violation prevented.
pub proof fn law_tight_spreads_are_counted(m: PostOnlyManager, v: PostOnlyValidationResult)
    requires
        m.stats.spread_violations_prevented < u64::MAX,
    ensures
        m.stats_after(v).spread_violations_prevented == m.stats.spread_violations_prevented + (
        if v is SpreadTooTight {
            1int
        } else {
            0
        }),
        m.stats_after(v) == (PostOnlyStats {
            spread_violations_prevented: m.stats_after(v).spread_violations_prevented,
            ..m.stats
        }),
{
}

/// A submitted order is the one that was asked for, noted with the market at its time; where its price
/// was moved, that is noted with its reason.
pub proof fn law_submitted_order_is_the_one_asked_for(
    m: PostOnlyManager,
    order: PostOnlyOrder,
    order_id: Seq<char>,
    symbol: Seq<char>,
    side: Side,
    intended_price: i64,
    quantity: i64,
    found: (i64, bool),
    now_ns: u64,
)
    requires
        m.is_submitted(
            order,
            order_id,
            symbol,
            side,
            intended_price,
            quantity,
            found,
            now_ns,
        ),
    ensures
        order.order_id@ == order_id && order.symbol@ == symbol,
        order.side == side && order.quantity == quantity,
        order.intended_price == intended_price && order.submitted_price == found.0,
        order.best_bid == m.best_bid && order.best_ask == m.best_ask,
        order.price_modified <==> found.1,
        order.modification_reason is Some <==> found.1,
        found.1 ==> order.modification_reason == Some(ModificationReason::SpreadAvoidance),
        order.submitted_at == now_ns,
        order.status == OrderStatus::Submitted,
{
}

/// Managers are of the same market only where prices, their age and the settings agree.
pub proof fn law_same_market_agrees(a: PostOnlyManager, b: PostOnlyManager)
    requires
        a.same_market(&b),
    ensures
        a.best_bid == b.best_bid,
        a.best_ask == b.best_ask,
        a.spread_last_updated == b.spread_last_updated,
        a.spread_staleness_ns == b.spread_staleness_ns,
        a.config == b.config,
        a.circuit_breaker == b.circuit_breaker,
{
}

} // verus!
