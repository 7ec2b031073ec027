//! Pegged orders: prices that follow the mid price or a side of the book.
use vstd::prelude::*;

verus! {

/// Peg type for order placement
#[derive(Debug, Clone, Copy, PartialEq, Eq, Structural)]
pub enum PegType {
    /// Peg to mid-price (average of best bid/ask)
    Mid,
    /// Peg to primary side (bid for buys, ask for sells)
    Primary,
    /// Peg to secondary side (ask for buys, bid for sells)
    Secondary,
    /// Fixed offset from reference price
    FixedOffset,
}

/// Direction of the order
#[derive(Debug, Clone, Copy, PartialEq, Eq, Structural)]
pub enum OrderSide {
    Buy,
    Sell,
}

/// Pegged order configuration
#[derive(Debug, Clone, Copy, PartialEq, Eq, Structural)]
pub struct PeggedOrderConfig {
    pub peg_type: PegType,
    pub side: OrderSide,
    /// Offset in micro-units (positive = more aggressive, negative = more passive)
    pub offset_micros: i64,
    /// Maximum allowable offset (to prevent excessive pricing)
    pub max_offset_micros: u64,
    /// Minimum price increment (tick size)
    pub tick_size_micros: u64,
    /// Whether to maintain queue priority on price improvements
    pub maintain_queue_priority: bool,
}

/// The price that an order is pegged to.
pub open spec fn reference(config: PeggedOrderConfig, mid: u64, bid: u64, ask: u64) -> u64 {
    match (config.peg_type, config.side) {
        (PegType::Mid, _) => mid,
        (PegType::FixedOffset, _) => mid,
        (PegType::Primary, OrderSide::Buy) => bid,
        (PegType::Primary, OrderSide::Sell) => ask,
        (PegType::Secondary, OrderSide::Buy) => ask,
        (PegType::Secondary, OrderSide::Sell) => bid,
    }
}

/// A price moved by an offset, within the range of prices.
pub open spec fn moved(price: u64, offset: int) -> u64 {
    if price + offset < 0 {
        0
    } else if price + offset > u64::MAX {
        u64::MAX
    } else {
        (price + offset) as u64
    }
}

/// A price rounded down to the tick size, where there is one.
pub open spec fn ticked(price: u64, tick: u64) -> u64 {
    if tick > 0 {
        (price - price % tick) as u64
    } else {
        price
    }
}

/// By how much the reference price is moved: a positive offset makes a purchase dearer and a sale
/// cheaper.
pub open spec fn shift(config: PeggedOrderConfig) -> int {
    match config.side {
        OrderSide::Buy => config.offset_micros as int,
        OrderSide::Sell => -config.offset_micros,
    }
}

/// The peg price: the reference price moved by the offset and rounded down to the tick size.
pub open spec fn peg_of(config: PeggedOrderConfig, mid: u64, bid: u64, ask: u64) -> u64 {
    ticked(
        moved(reference(config, mid, bid, ask), shift(config)),
        config.tick_size_micros,
    )
}

/// A peg price that is not worse than the reference price by more than the largest offset.
pub open spec fn bounded(config: PeggedOrderConfig, peg: u64, reference: u64) -> u64 {
    match config.side {
        OrderSide::Buy => {
            let most = moved(reference, config.max_offset_micros as int);
            if peg <= most {
                peg
            } else {
                most
            }
        },
        OrderSide::Sell => {
            let least = moved(reference, -(config.max_offset_micros as int));
            if peg >= least {
                peg
            } else {
                least
            }
        },
    }
}

/// The mid price of a book, or the price of the only side that has one; none of a crossed or empty
/// book.
pub open spec fn mid_of(bid: u64, ask: u64) -> Option<u64> {
    if bid >= ask && ask > 0 {
        None
    } else if bid > 0 && ask > 0 {
        Some(((bid + ask) / 2) as u64)
    } else if bid > 0 {
        Some(bid)
    } else if ask > 0 {
        Some(ask)
    } else {
        None
    }
}

/// Pegged order
#[derive(Debug, Clone, Copy, PartialEq, Eq, Structural)]
pub struct PeggedOrderEngine {
    /// Current reference mid-price (in micro-units)
    pub mid_price: u64,
    /// Current best bid (in micro-units)
    pub best_bid: u64,
    /// Current best ask (in micro-units)
    pub best_ask: u64,
    /// Calculated peg price (in micro-units)
    pub peg_price: u64,
    /// Last quoted price, none before the first quote
    pub last_quoted_price: Option<u64>,
    /// Order quantity (in base units)
    pub quantity: u64,
    /// Number of re-quotes triggered
    pub requote_count: u64,
    /// Whether the order is currently active
    pub is_active: bool,
    /// Configuration
    pub config: PeggedOrderConfig,
    /// Price version counter
    pub price_version: u64,
}

impl PeggedOrderEngine {
    /// The peg price at a given book.
    pub open spec fn peg_at(&self, mid: u64, bid: u64, ask: u64) -> u64 {
        bounded(
            self.config,
            peg_of(self.config, mid, bid, ask),
            reference(self.config, mid, bid, ask),
        )
    }

    /// True where a peg price has to be quoted: it was not quoted last, and it is new or nothing
    /// was quoted yet.
    pub open spec fn must_quote(&self, peg: u64) -> bool {
        self.last_quoted_price != Some(peg) && (peg != self.peg_price || self.last_quoted_price is
            None)
    }

    /// The order after a change of the market.
    pub open spec fn at_market(&self, bid: u64, ask: u64) -> PeggedOrderEngine {
        match mid_of(bid, ask) {
            Some(mid) if self.is_active => {
                let peg = self.peg_at(mid, bid, ask);
                PeggedOrderEngine {
                    mid_price: mid,
                    best_bid: bid,
                    best_ask: ask,
                    peg_price: peg,
                    price_version: if peg != self.peg_price {
                        self.price_version.wrapping_add(1)
                    } else {
                        self.price_version
                    },
                    requote_count: if self.must_quote(peg) {
                        self.requote_count.wrapping_add(1)
                    } else {
                        self.requote_count
                    },
                    ..*self
                }
            },
            _ => *self,
        }
    }

    /// True where a change of the market asks for a new quote.
    pub open spec fn asks_quote(&self, bid: u64, ask: u64) -> bool {
        match mid_of(bid, ask) {
            Some(mid) => self.is_active && self.must_quote(self.peg_at(mid, bid, ask)),
            None => false,
        }
    }

    /// Create a new pegged order engine
    pub fn new(config: PeggedOrderConfig, initial_mid: u64, quantity: u64) -> (e: Self)
        ensures
            e == (PeggedOrderEngine {
                mid_price: initial_mid,
                best_bid: initial_mid,
                best_ask: initial_mid,
                peg_price: peg_of(config, initial_mid, initial_mid, initial_mid),
                last_quoted_price: None,
                quantity,
                requote_count: 0,
                is_active: true,
                config,
                price_version: 1,
            }),
    {
        let initial_price: u64 = Self::calculate_peg_price(
            initial_mid,
            initial_mid,
            initial_mid,
            &config,
        );
        Self {
            mid_price: initial_mid,
            best_bid: initial_mid,
            best_ask: initial_mid,
            peg_price: initial_price,
            last_quoted_price: None,
            quantity,
            requote_count: 0,
            is_active: true,
            config,
            price_version: 1,
        }
    }

    fn reference_price(mid: u64, bid: u64, ask: u64, config: &PeggedOrderConfig) -> (r: u64)
        ensures
            r == reference(*config, mid, bid, ask),
    {
        match config.peg_type {
            PegType::Mid => mid,
            PegType::Primary => match config.side {
                OrderSide::Buy => bid,
                OrderSide::Sell => ask,
            },
            PegType::Secondary => match config.side {
                OrderSide::Buy => ask,
                OrderSide::Sell => bid,
            },
            PegType::FixedOffset => mid,
        }
    }

    fn calculate_peg_price(mid: u64, bid: u64, ask: u64, config: &PeggedOrderConfig) -> (r: u64)
        ensures
            r == peg_of(*config, mid, bid, ask),
    {
        let reference: u64 = Self::reference_price(mid, bid, ask, config);
        let offset: i64 = config.offset_micros;
        let distance: u64 = if offset >= 0 {
            offset as u64
        } else {
            (-(offset + 1)) as u64 + 1
        };
        let upward = match config.side {
            OrderSide::Buy => offset >= 0,
            OrderSide::Sell => offset < 0,
        };
        let adjusted: u64 = if upward {
            reference.saturating_add(distance)
        } else {
            reference.saturating_sub(distance)
        };
        assert(adjusted == moved(reference, shift(*config)));
        let tick: u64 = config.tick_size_micros;
        if tick > 0 {
            assert(0 <= adjusted % tick <= adjusted) by (nonlinear_arith)
                requires
                    tick > 0,
            ;
            adjusted - adjusted % tick
        } else {
            adjusted
        }
    }

    /// Update market data and recalculate peg price
    /// Returns true if re-quote is required
    pub fn update_market(&mut self, bid: u64, ask: u64) -> (requote: bool)
        ensures
            requote == old(self).asks_quote(bid, ask),
            *final(self) == old(self).at_market(bid, ask),
    {
        if !self.is_active {
            return false;
        }
        if bid >= ask && ask > 0 {
            return false;
        }
        let mid: u64 = if bid > 0 && ask > 0 {
            ((bid as u128 + ask as u128) / 2) as u64
        } else if bid > 0 {
            bid
        } else if ask > 0 {
            ask
        } else {
            return false;
        };
        self.best_bid = bid;
        self.best_ask = ask;
        self.mid_price = mid;
        let new_peg: u64 = Self::calculate_peg_price(mid, bid, ask, &self.config);
        let current_ref: u64 = Self::reference_price(mid, bid, ask, &self.config);
        let peg: u64 = self.apply_max_offset_constraint(new_peg, current_ref);
        let changed = peg != self.peg_price;
        if changed {
            self.peg_price = peg;
            self.price_version = self.price_version.wrapping_add(1);
        }
        let requote = match self.last_quoted_price {
            Some(last) => changed && peg != last,
            None => true,
        };
        if requote {
            self.requote_count = self.requote_count.wrapping_add(1);
        }
        requote
    }

    fn apply_max_offset_constraint(&self, peg_price: u64, reference: u64) -> (r: u64)
        ensures
            r == bounded(self.config, peg_price, reference),
    {
        let max_offset: u64 = self.config.max_offset_micros;
        match self.config.side {
            OrderSide::Buy => {
                let max_allowed: u64 = reference.saturating_add(max_offset);
                if peg_price <= max_allowed {
                    peg_price
                } else {
                    max_allowed
                }
            },
            OrderSide::Sell => {
                let min_allowed: u64 = reference.saturating_sub(max_offset);
                if peg_price >= min_allowed {
                    peg_price
                } else {
                    min_allowed
                }
            },
        }
    }

    /// Confirm quote was sent (update last quoted price)
    pub fn confirm_quote(&mut self, quoted_price: u64)
        ensures
            *final(self) == (PeggedOrderEngine {
                last_quoted_price: Some(quoted_price),
                ..*old(self)
            }),
    {
        self.last_quoted_price = Some(quoted_price);
    }

    /// Get current peg price
    pub fn get_peg_price(&self) -> (r: u64)
        ensures
            r == self.peg_price,
    {
        self.peg_price
    }

    /// Get current mid price
    pub fn get_mid_price(&self) -> (r: u64)
        ensures
            r == self.mid_price,
    {
        self.mid_price
    }

    /// Get best bid
    pub fn get_best_bid(&self) -> (r: u64)
        ensures
            r == self.best_bid,
    {
        self.best_bid
    }

    /// Get best ask
    pub fn get_best_ask(&self) -> (r: u64)
        ensures
            r == self.best_ask,
    {
        self.best_ask
    }

    /// Get quantity
    pub fn get_quantity(&self) -> (r: u64)
        ensures
            r == self.quantity,
    {
        self.quantity
    }

    /// Check if order is active
    pub fn is_active(&self) -> (r: bool)
        ensures
            r == self.is_active,
    {
        self.is_active
    }

    /// Get re-quote count
    pub fn get_requote_count(&self) -> (r: u64)
        ensures
            r == self.requote_count,
    {
        self.requote_count
    }

    /// Get price version
    pub fn get_price_version(&self) -> (r: u64)
        ensures
            r == self.price_version,
    {
        self.price_version
    }

    /// Activate the order
    pub fn activate(&mut self)
        ensures
            *final(self) == (PeggedOrderEngine { is_active: true, ..*old(self) }),
    {
        self.is_active = true;
    }

    /// Deactivate the order
    pub fn deactivate(&mut self)
        ensures
            *final(self) == (PeggedOrderEngine { is_active: false, ..*old(self) }),
    {
        self.is_active = false;
    }

    /// Update offset dynamically, and the peg price with it
    pub fn update_offset(&mut self, new_offset_micros: i64)
        ensures
            *final(self) == (PeggedOrderEngine {
                config: PeggedOrderConfig { offset_micros: new_offset_micros, ..old(self).config },
                ..*old(self)
            }).at_market(old(self).best_bid, old(self).best_ask),
    {
        self.config.offset_micros = new_offset_micros;
        let bid: u64 = self.best_bid;
        let ask: u64 = self.best_ask;
        let _ = self.update_market(bid, ask);
    }

    /// How good the position in the queue is: a hundred at the own side of the book, nothing at
    /// the other, in between by the distance, and fifty where a side is missing.
    pub open spec fn queue_score(&self) -> u8 {
        let spread = self.best_ask - self.best_bid;
        if self.best_bid == 0 || self.best_ask == 0 {
            50
        } else {
            match self.config.side {
                OrderSide::Buy => if self.peg_price <= self.best_bid {
                    100
                } else if self.peg_price >= self.best_ask {
                    0
                } else {
                    (100 - ((self.peg_price - self.best_bid) * 100) / spread) as u8
                },
                OrderSide::Sell => if self.peg_price >= self.best_ask {
                    100
                } else if self.peg_price <= self.best_bid {
                    0
                } else {
                    (100 - ((self.best_ask - self.peg_price) * 100) / spread) as u8
                },
            }
        }
    }

    /// Calculate implied queue position quality
    /// Returns a score from 0-100 (higher = better position)
    pub fn calculate_queue_score(&self) -> (r: u8)
        ensures
            r == self.queue_score(),
            r <= 100,
    {
        let peg: u64 = self.peg_price;
        let bid: u64 = self.best_bid;
        let ask: u64 = self.best_ask;
        if bid == 0 || ask == 0 {
            return 50;
        }
        match self.config.side {
            OrderSide::Buy => {
                if peg <= bid {
                    100
                } else if peg >= ask {
                    0
                } else {
                    share_left(peg - bid, ask - bid)
                }
            },
            OrderSide::Sell => {
                if peg >= ask {
                    100
                } else if peg <= bid {
                    0
                } else {
                    share_left(ask - peg, ask - bid)
                }
            },
        }
    }

    /// Check if adverse fill risk is high
    /// Returns true if price movement suggests potential adverse selection: a price worse than the
    /// mid price by more than half a percent
    pub fn check_adverse_fill_risk(&self) -> (r: bool)
        ensures
            r == match self.config.side {
                OrderSide::Buy => self.peg_price - self.mid_price > self.mid_price / 200,
                OrderSide::Sell => self.mid_price - self.peg_price > self.mid_price / 200,
            },
    {
        let peg: u64 = self.peg_price;
        let mid: u64 = self.mid_price;
        match self.config.side {
            OrderSide::Buy => {
                let premium: u64 = peg.saturating_sub(mid);
                premium > mid / 200
            },
            OrderSide::Sell => {
                let discount: u64 = mid.saturating_sub(peg);
                discount > mid / 200
            },
        }
    }
}

/// What is left of a hundred percent after a distance within a spread.
fn share_left(distance: u64, spread: u64) -> (r: u8)
    requires
        distance < spread,
    ensures
        r == 100 - (distance * 100) / spread as int,
        r <= 100,
{
    assert(0 <= (distance * 100) / spread as int <= 100) by (nonlinear_arith)
        requires
            distance < spread,
            distance >= 0,
    ;
    let share: u128 = (distance as u128 * 100) / spread as u128;
    100 - share as u8
}

/// A peg price is never worse than the reference price by more than the largest offset.
pub proof fn law_peg_keeps_to_the_largest_offset(
    config: PeggedOrderConfig,
    peg: u64,
    reference: u64,
)
    ensures
        config.side == OrderSide::Buy ==> bounded(config, peg, reference) <= reference
            + config.max_offset_micros,
        config.side == OrderSide::Sell ==> bounded(config, peg, reference) >= reference
            - config.max_offset_micros,
{
}

/// A peg price before its bound is a multiple of the tick size, and less than a tick below the
/// moved reference price.
pub proof fn law_peg_is_a_multiple_of_the_tick(
    config: PeggedOrderConfig,
    mid: u64,
    bid: u64,
    ask: u64,
)
    requires
        config.tick_size_micros > 0,
    ensures
        peg_of(config, mid, bid, ask) % config.tick_size_micros == 0,
        ({
            let m = moved(reference(config, mid, bid, ask), shift(config));
            peg_of(config, mid, bid, ask) <= m < peg_of(config, mid, bid, ask)
                + config.tick_size_micros
        }),
{
    let t = config.tick_size_micros as int;
    let m = moved(reference(config, mid, bid, ask), shift(config)) as int;
    assert((m - m % t) % t == 0 && m - m % t >= 0 && 0 <= m % t < t) by (nonlinear_arith)
        requires
            t > 0,
            m >= 0,
    ;
}

/// A larger offset is no less aggressive: it pegs a purchase no lower and a sale no higher.
pub proof fn law_larger_offset_is_more_aggressive(
    config: PeggedOrderConfig,
    larger: i64,
    mid: u64,
    bid: u64,
    ask: u64,
)
    requires
        config.offset_micros <= larger,
    ensures
        ({
            let bold = PeggedOrderConfig { offset_micros: larger, ..config };
            match config.side {
                OrderSide::Buy => peg_of(bold, mid, bid, ask) >= peg_of(config, mid, bid, ask),
                OrderSide::Sell => peg_of(bold, mid, bid, ask) <= peg_of(config, mid, bid, ask),
            }
        }),
{
    let bold = PeggedOrderConfig { offset_micros: larger, ..config };
    let at = reference(config, mid, bid, ask);
    lemma_ticked_keeps_order(
        moved(at, shift(config)),
        moved(at, shift(bold)),
        config.tick_size_micros,
    );
    lemma_ticked_keeps_order(
        moved(at, shift(bold)),
        moved(at, shift(config)),
        config.tick_size_micros,
    );
}

/// Rounding down keeps the order of prices.
proof fn lemma_ticked_keeps_order(a: u64, b: u64, tick: u64)
    ensures
        a <= b ==> ticked(a, tick) <= ticked(b, tick),
{
    if tick > 0 && a <= b {
        let t = tick as int;
        vstd::arithmetic::div_mod::lemma_fundamental_div_mod(a as int, t);
        vstd::arithmetic::div_mod::lemma_fundamental_div_mod(b as int, t);
        vstd::arithmetic::div_mod::lemma_div_is_ordered(a as int, b as int, t);
        vstd::arithmetic::mul::lemma_mul_inequality(a as int / t, b as int / t, t);
        vstd::arithmetic::mul::lemma_mul_is_commutative(a as int / t, t);
        vstd::arithmetic::mul::lemma_mul_is_commutative(b as int / t, t);
        vstd::arithmetic::div_mod::lemma_mod_bound(a as int, t);
        vstd::arithmetic::div_mod::lemma_mod_bound(b as int, t);
        vstd::arithmetic::div_mod::lemma_mod_decreases(a as nat, t as nat);
        vstd::arithmetic::div_mod::lemma_mod_decreases(b as nat, t as nat);
    }
}

/// A confirmed quote is not asked for again while the book stays as it is.
pub proof fn law_confirmed_quote_is_not_repeated(e: PeggedOrderEngine, bid: u64, ask: u64)
    ensures
        ({
            let now = e.at_market(bid, ask);
            let confirmed = PeggedOrderEngine { last_quoted_price: Some(now.peg_price), ..now };
            !confirmed.asks_quote(bid, ask)
        }),
{
}

/// A crossed book changes nothing.
pub proof fn law_crossed_book_is_ignored(e: PeggedOrderEngine, bid: u64, ask: u64)
    requires
        bid >= ask,
        ask > 0,
    ensures
        e.at_market(bid, ask) == e,
        !e.asks_quote(bid, ask),
{
}

/// A mid peg and one with a fixed offset follow the mid price; a primary peg follows the best price
/// of its own side, a secondary one that of the other.
pub proof fn law_peg_follows_its_reference(config: PeggedOrderConfig, mid: u64, bid: u64, ask: u64)
    requires
        config.offset_micros == 0,
        config.tick_size_micros == 0,
    ensures
        config.peg_type == PegType::Mid ==> peg_of(config, mid, bid, ask) == mid,
        config.peg_type == PegType::FixedOffset ==> peg_of(config, mid, bid, ask) == mid,
        config.peg_type == PegType::Primary && config.side == OrderSide::Buy ==> peg_of(
            config,
            mid,
            bid,
            ask,
        ) == bid,
        config.peg_type == PegType::Primary && config.side == OrderSide::Sell ==> peg_of(
            config,
            mid,
            bid,
            ask,
        ) == ask,
        config.peg_type == PegType::Secondary && config.side == OrderSide::Buy ==> peg_of(
            config,
            mid,
            bid,
            ask,
        ) == ask,
        config.peg_type == PegType::Secondary && config.side == OrderSide::Sell ==> peg_of(
            config,
            mid,
            bid,
            ask,
        ) == bid,
{
}

/// Without ticks the peg of a purchase lies above the peg without an offset by the offset, that of a
/// sale below it, within the range of prices.
pub proof fn law_offset_moves_the_peg(config: PeggedOrderConfig, mid: u64, bid: u64, ask: u64)
    requires
        config.tick_size_micros == 0,
    ensures
        ({
            let flat = PeggedOrderConfig { offset_micros: 0, ..config };
            let from = peg_of(flat, mid, bid, ask);
            let peg = peg_of(config, mid, bid, ask);
            let moved = if config.side == OrderSide::Buy {
                from + config.offset_micros
            } else {
                from - config.offset_micros
            };
            &&& 0 <= moved <= u64::MAX ==> peg == moved
            &&& moved < 0 ==> peg == 0
            &&& moved > u64::MAX ==> peg == u64::MAX
        }),
{
}

/// The peg that a book leads to is the unbounded one wherever that keeps to the largest offset from
/// the reference, and is cut off there otherwise; only what costs the order more is cut off.
pub proof fn law_peg_is_cut_off_at_the_largest_offset(
    e: PeggedOrderEngine,
    mid: u64,
    bid: u64,
    ask: u64,
)
    requires
        e.config.max_offset_micros <= reference(e.config, mid, bid, ask),
        reference(e.config, mid, bid, ask) + e.config.max_offset_micros <= u64::MAX,
    ensures
        ({
            let most = reference(e.config, mid, bid, ask) + e.config.max_offset_micros;
            let least = reference(e.config, mid, bid, ask) - e.config.max_offset_micros;
            let free = peg_of(e.config, mid, bid, ask);
            let peg = e.peg_at(mid, bid, ask);
            &&& e.config.side == OrderSide::Buy && free <= most ==> peg == free
            &&& e.config.side == OrderSide::Buy && free > most ==> peg == most
            &&& e.config.side == OrderSide::Sell && free >= least ==> peg == free
            &&& e.config.side == OrderSide::Sell && free < least ==> peg == least
        }),
{
}

/// The mid price lies half way between the best prices, rounded down; with one price it is that
/// price, and there is none of a crossed or empty book.
pub proof fn law_mid_price_is_half_way(bid: u64, ask: u64)
    ensures
        match mid_of(bid, ask) {
            Some(mid) => {
                &&& bid > 0 && ask > 0 ==> bid < ask && bid <= mid < ask && 2 * mid <= bid + ask <= 2
                    * mid + 1
                &&& ask == 0 ==> mid == bid && bid > 0
                &&& bid == 0 ==> mid == ask && ask > 0
            },
            None => (bid == 0 && ask == 0) || (ask > 0 && bid >= ask),
        },
{
}

/// A book leads to a new quote exactly where the order is active, the peg is not the one that was
/// quoted last, and it changed or nothing was quoted yet; the quote is counted, and so is a change.
pub proof fn law_market_asks_for_a_quote(e: PeggedOrderEngine, bid: u64, ask: u64)
    requires
        mid_of(bid, ask) is Some,
    ensures
        ({
            let now = e.at_market(bid, ask);
            let counted = now.requote_count != e.requote_count;
            &&& e.asks_quote(bid, ask) == counted
            &&& !e.is_active ==> now == e && !counted
            &&& e.is_active ==> now.best_bid == bid && now.best_ask == ask && now.mid_price
                == mid_of(bid, ask)->0
            &&& e.is_active && e.last_quoted_price is None ==> counted
            &&& e.is_active ==> match e.last_quoted_price {
                Some(last) => counted <==> (now.peg_price != last && now.peg_price != e.peg_price),
                None => counted,
            }
            &&& (now.price_version != e.price_version) <==> (now.peg_price != e.peg_price)
            &&& now.last_quoted_price == e.last_quoted_price
        }),
{
}

/// The queue score falls from a hundred at the own side of the book to nothing at the other: it is
/// never better for a more aggressive peg, and both sides are scored alike.
pub proof fn law_queue_score_falls_towards_the_other_side(e: PeggedOrderEngine, more: u64)
    requires
        0 < e.best_bid < e.best_ask,
        e.config.side == OrderSide::Buy ==> more >= e.peg_price,
        e.config.side == OrderSide::Sell ==> more <= e.peg_price,
    ensures
        (PeggedOrderEngine { peg_price: more, ..e }).queue_score() <= e.queue_score() <= 100,
        e.config.side == OrderSide::Buy ==> (PeggedOrderEngine {
            peg_price: e.best_bid,
            ..e
        }).queue_score() == 100 && (PeggedOrderEngine { peg_price: e.best_ask, ..e }).queue_score() == 0,
        e.config.side == OrderSide::Sell ==> (PeggedOrderEngine {
            peg_price: e.best_ask,
            ..e
        }).queue_score() == 100 && (PeggedOrderEngine { peg_price: e.best_bid, ..e }).queue_score() == 0,
        e.best_bid < e.peg_price < e.best_ask ==> ({
            let spread = e.best_ask - e.best_bid;
            let lost = 100 - e.queue_score();
            let inside = if e.config.side == OrderSide::Buy {
                e.peg_price - e.best_bid
            } else {
                e.best_ask - e.peg_price
            };
            lost * spread <= inside * 100 < (lost + 1) * spread
        }),
{
    let spread = e.best_ask - e.best_bid;
    let inside = |p: u64|
        if e.config.side == OrderSide::Buy {
            p - e.best_bid
        } else {
            e.best_ask - p
        };
    let (a, b) = (inside(e.peg_price) as int, inside(more) as int);
    if 0 < a < spread {
        lemma_part(a, spread);
    }
    if 0 < b < spread {
        lemma_part(b, spread);
    }
    if 0 < a <= b && b < spread {
        assert(a * 100 / spread <= b * 100 / spread) by (nonlinear_arith)
            requires
                0 < a <= b,
                spread > 0,
        ;
    }
}

proof fn lemma_part(a: int, spread: int)
    requires
        0 < a < spread,
    ensures
        0 <= a * 100 / spread < 100,
        (a * 100 / spread) * spread <= a * 100 < (a * 100 / spread + 1) * spread,
{
    let v = a * 100;
    assert((v / spread) * spread <= v < (v / spread + 1) * spread && 0 <= v / spread < 100)
        by (nonlinear_arith)
        requires
            0 < v < 100 * spread,
            spread > 0,
    ;
}

/// A price is rounded down to a tick: it loses less than one tick and becomes a multiple of it.
pub proof fn law_prices_are_rounded_down(price: u64, tick: u64)
    ensures
        tick == 0 ==> ticked(price, tick) == price,
        tick > 0 ==> ticked(price, tick) <= price < ticked(price, tick) + tick,
        tick > 0 ==> ticked(price, tick) as int % tick as int == 0,
{
    if tick > 0 {
        let (p, t) = (price as int, tick as int);
        vstd::arithmetic::div_mod::lemma_fundamental_div_mod(p, t);
        vstd::arithmetic::div_mod::lemma_mod_bound(p, t);
        vstd::arithmetic::div_mod::lemma_mod_multiples_basic(p / t, t);
        assert(t * (p / t) == (p / t) * t) by (nonlinear_arith);
    }
}

/// A quote is due where the peg has moved from the one quoted, or where nothing was quoted yet.
pub proof fn law_quote_is_due(e: PeggedOrderEngine, peg: u64)
    ensures
        e.last_quoted_price is None ==> e.must_quote(peg),
        e.last_quoted_price == Some(peg) ==> !e.must_quote(peg),
        e.last_quoted_price is Some && e.last_quoted_price != Some(peg) ==> (e.must_quote(peg)
            <==> peg != e.peg_price),
{
}

} // verus!
