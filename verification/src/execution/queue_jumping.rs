//! Minimum price improvement (tick-jumping) to gain priority in the order book. Costs, benefits and
//! positions come as the bits of doubles.
use crate::doubles::{above, larger, smaller, HALF_BITS, LARGEST, ONE_BITS, ZERO};
use crate::execution::maker_taker::Side;
use vstd::prelude::*;

verus! {

/// The bits of 0.3, the least edge that justifies a jump.
pub const MIN_EDGE: u64 = 0x3fd3_3333_3333_3333;

/// The bits of 0.1, the least improvement of a position that is worth a jump.
pub const MIN_PRIORITY_GAIN: u64 = 0x3fb9_9999_9999_999a;

/// What a jump by one tick comes to
#[derive(Debug, Clone, Copy, PartialEq, Eq, Structural)]
pub struct JumpFigures {
    /// Edge gained from the improved position, in bps
    pub edge_gained_bps: u64,
    /// Cost of jumping in bps
    pub jump_cost_bps: u64,
    /// The edge, raised by urgency, less the cost
    pub net_benefit_bps: u64,
    /// The position in the queue before the jump less that after it
    pub position_change: u64,
    /// The net benefit over the least edge
    pub gain_share: u64,
    /// The distance of cost and benefit over the largest cost
    pub cost_share: u64,
}

/// Result of queue jumping analysis
#[derive(Debug, Clone, Copy, PartialEq, Eq, Structural)]
pub struct QueueJumpDecision {
    /// Whether to jump the queue
    pub should_jump: bool,
    /// New price level (in ticks from current best)
    pub new_price_ticks: i32,
    /// Expected edge gained from jumping (bps)
    pub edge_gained_bps: u64,
    /// Cost of jumping (rebate loss + worse price) in bps
    pub jump_cost_bps: u64,
    /// Net benefit of jumping (edge - cost) in bps
    pub net_benefit_bps: u64,
    /// Priority gain estimate (0-1, higher = more position improvement)
    pub priority_gain: u64,
    /// Confidence in decision (0-1)
    pub confidence: u64,
}

impl Default for QueueJumpDecision {
    fn default() -> (d: Self)
        ensures
            d == no_jump(),
    {
        QueueJumpDecision {
            should_jump: false,
            new_price_ticks: 0,
            edge_gained_bps: ZERO,
            jump_cost_bps: ZERO,
            net_benefit_bps: ZERO,
            priority_gain: ZERO,
            confidence: ZERO,
        }
    }
}

/// The decision not to jump that a jumper gives that is off.
pub open spec fn no_jump() -> QueueJumpDecision {
    QueueJumpDecision {
        should_jump: false,
        new_price_ticks: 0,
        edge_gained_bps: ZERO,
        jump_cost_bps: ZERO,
        net_benefit_bps: ZERO,
        priority_gain: ZERO,
        confidence: ZERO,
    }
}

/// State of the queue jumper.
#[derive(Debug, Clone, Copy, PartialEq, Eq, Structural)]
pub struct QueueJumper {
    /// Tick size in price units
    pub tick_size: u64,
    /// Minimum edge threshold to justify jumping (bps)
    pub min_edge_threshold_bps: u64,
    /// Maximum acceptable cost for jumping (bps)
    pub max_jump_cost_bps: u64,
    /// Current best bid price
    pub best_bid: u64,
    /// Current best ask price
    pub best_ask: u64,
    /// Our current queue position (estimated orders ahead)
    pub orders_ahead: u64,
    /// Enabled flag
    pub enabled: bool,
}

/// The price of an order that jumps the queue: one step inside the spread where it is at least two
/// steps wide, otherwise the other side's best price.
pub open spec fn jump_price(side: Side, best_bid: u64, best_ask: u64, step: u64) -> u64 {
    let wide = (best_ask - best_bid) / step as int >= 2;
    match side {
        Side::Buy => if wide {
            (best_bid + step) as u64
        } else {
            best_ask
        },
        Side::Sell => if wide {
            (best_ask - step) as u64
        } else {
            best_bid
        },
    }
}

/// The best price on the order's own side.
pub open spec fn own_best(side: Side, best_bid: u64, best_ask: u64) -> u64 {
    match side {
        Side::Buy => best_bid,
        Side::Sell => best_ask,
    }
}

/// The best price on the other side.
pub open spec fn other_best(side: Side, best_bid: u64, best_ask: u64) -> u64 {
    match side {
        Side::Buy => best_ask,
        Side::Sell => best_bid,
    }
}

/// Where the spread is at least two steps wide, a step fits into it twice.
proof fn lemma_step_fits(spread: int, step: int)
    requires
        spread >= 0,
        step > 0,
        spread / step >= 2,
    ensures
        2 * step <= spread,
{
    assert(2 * step <= spread) by (nonlinear_arith)
        requires
            spread >= 0,
            step > 0,
            spread / step >= 2,
    ;
}

/// Price of an order that jumps the queue.
pub(crate) fn price_of_jump(side: Side, best_bid: u64, best_ask: u64, step: u64) -> (r: u64)
    requires
        step > 0,
        best_bid <= best_ask,
    ensures
        r == jump_price(side, best_bid, best_ask, step),
{
    let wide = (best_ask - best_bid) / step >= 2;
    proof {
        if wide {
            lemma_step_fits(best_ask - best_bid, step as int);
        }
    }
    match side {
        Side::Buy => if wide {
            best_bid + step
        } else {
            best_ask
        },
        Side::Sell => if wide {
            best_ask - step
        } else {
            best_bid
        },
    }
}

impl QueueJumper {
    /// True where both best prices and the tick size are known.
    pub open spec fn quoted(&self) -> bool {
        self.best_bid > 0 && self.best_ask > 0 && self.tick_size > 0
    }

    /// The spread in tenths of a tick, at most the largest number; zero where it is not known.
    pub open spec fn spread(&self) -> u64 {
        if self.quoted() {
            let tenths = (self.best_ask - self.best_bid) * 10 / self.tick_size as int;
            if tenths <= u64::MAX {
                tenths as u64
            } else {
                u64::MAX
            }
        } else {
            0
        }
    }

    /// The spread in whole ticks; zero where it is not known.
    pub open spec fn whole_ticks(&self) -> u64 {
        if self.quoted() {
            ((self.best_ask - self.best_bid) / self.tick_size as int) as u64
        } else {
            0
        }
    }

    /// True where a jump pays: its benefit clears the least edge at an acceptable cost, and it gains
    /// more than a tenth of the queue.
    pub open spec fn pays(&self, f: JumpFigures) -> bool {
        &&& crate::doubles::greater(f.net_benefit_bps, self.min_edge_threshold_bps)
        &&& crate::doubles::greater(self.max_jump_cost_bps, f.jump_cost_bps)
        &&& crate::doubles::greater(
            crate::doubles::max_of(f.position_change, ZERO),
            MIN_PRIORITY_GAIN,
        )
    }

    /// What is decided on a jump by one tick.
    pub open spec fn decision(&self, f: JumpFigures) -> QueueJumpDecision {
        if self.enabled {
            QueueJumpDecision {
                should_jump: self.pays(f),
                new_price_ticks: if self.pays(f) {
                    1
                } else {
                    0
                },
                edge_gained_bps: f.edge_gained_bps,
                jump_cost_bps: f.jump_cost_bps,
                net_benefit_bps: f.net_benefit_bps,
                priority_gain: crate::doubles::max_of(f.position_change, ZERO),
                confidence: crate::doubles::min_of(
                    if self.pays(f) {
                        f.gain_share
                    } else {
                        f.cost_share
                    },
                    ONE_BITS,
                ),
            }
        } else {
            no_jump()
        }
    }

    /// A jumper without prices, for the least edge and the largest cost that are usual.
    pub open spec fn fresh(tick_size: u64) -> Self {
        QueueJumper {
            tick_size,
            min_edge_threshold_bps: MIN_EDGE,
            max_jump_cost_bps: HALF_BITS,
            best_bid: 0,
            best_ask: 0,
            orders_ahead: 0,
            enabled: true,
        }
    }

    /// Create new queue jumper
    pub fn new(tick_size: u64) -> (j: Self)
        ensures
            j == Self::fresh(tick_size),
    {
        Self {
            tick_size,
            min_edge_threshold_bps: MIN_EDGE,
            max_jump_cost_bps: HALF_BITS,
            best_bid: 0,
            best_ask: 0,
            orders_ahead: 0,
            enabled: true,
        }
    }

    /// Set minimum edge threshold
    pub fn set_min_edge_threshold(&mut self, threshold_bps: u64)
        ensures
            *final(self) == (QueueJumper { min_edge_threshold_bps: threshold_bps, ..*old(self) }),
    {
        self.min_edge_threshold_bps = threshold_bps;
    }

    /// Set maximum jump cost
    pub fn set_max_jump_cost(&mut self, max_cost_bps: u64)
        ensures
            *final(self) == (QueueJumper { max_jump_cost_bps: max_cost_bps, ..*old(self) }),
    {
        self.max_jump_cost_bps = max_cost_bps;
    }

    /// Update best bid/ask prices
    pub fn update_prices(&mut self, best_bid: u64, best_ask: u64)
        ensures
            *final(self) == (QueueJumper { best_bid, best_ask, ..*old(self) }),
    {
        self.best_bid = best_bid;
        self.best_ask = best_ask;
    }

    /// Update estimated orders ahead in queue
    pub fn update_orders_ahead(&mut self, orders: u64)
        ensures
            *final(self) == (QueueJumper { orders_ahead: orders, ..*old(self) }),
    {
        self.orders_ahead = orders;
    }

    /// Enable/disable queue jumping
    pub fn set_enabled(&mut self, enabled: bool)
        ensures
            *final(self) == (QueueJumper { enabled, ..*old(self) }),
    {
        self.enabled = enabled;
    }

    /// Check if enabled
    pub fn is_enabled(&self) -> (r: bool)
        ensures
            r == self.enabled,
    {
        self.enabled
    }

    /// The price that the cost of a jump is measured against; none where it is not known.
    pub fn reference_price(&self, side: Side) -> (r: Option<u64>)
        ensures
            r == if other_best(side, self.best_bid, self.best_ask) == 0 {
                None
            } else {
                Some(other_best(side, self.best_bid, self.best_ask))
            },
    {
        let price = match side {
            Side::Buy => self.best_ask,
            Side::Sell => self.best_bid,
        };
        if price == 0 {
            None
        } else {
            Some(price)
        }
    }

    /// Cost of jumping one tick, for what it comes to against the price; the largest there is where
    /// that is not known
    pub fn calculate_jump_cost(&self, side: Side, cost_bps: u64) -> (cost: u64)
        ensures
            cost == if other_best(side, self.best_bid, self.best_ask) == 0 {
                LARGEST
            } else {
                cost_bps
            },
    {
        match self.reference_price(side) {
            Some(_) => cost_bps,
            None => LARGEST,
        }
    }

    /// Queue position after a jump, for the orders ahead and the part of them that a new level holds,
    /// both in thousands: in the front half of a level that is jumped to, otherwise anywhere
    pub fn estimate_new_position(jump_ticks: i32, ahead: u64, at_new_level: u64) -> (position: u64)
        ensures
            position == if jump_ticks <= 0 {
                crate::doubles::min_of(ahead, ONE_BITS)
            } else {
                crate::doubles::min_of(at_new_level, HALF_BITS)
            },
    {
        if jump_ticks <= 0 {
            return smaller(ahead, ONE_BITS);
        }
        smaller(at_new_level, HALF_BITS)
    }

    /// Determine if queue jumping is beneficial
    pub fn analyze_jump(&self, f: JumpFigures) -> (d: QueueJumpDecision)
        ensures
            d == self.decision(f),
    {
        if !self.enabled {
            return QueueJumpDecision::default();
        }
        let priority_gain: u64 = larger(f.position_change, ZERO);
        let should_jump = above(f.net_benefit_bps, self.min_edge_threshold_bps) && above(
            self.max_jump_cost_bps,
            f.jump_cost_bps,
        ) && above(priority_gain, MIN_PRIORITY_GAIN);
        let share: u64 = if should_jump {
            f.gain_share
        } else {
            f.cost_share
        };
        QueueJumpDecision {
            should_jump,
            new_price_ticks: if should_jump {
                1
            } else {
                0
            },
            edge_gained_bps: f.edge_gained_bps,
            jump_cost_bps: f.jump_cost_bps,
            net_benefit_bps: f.net_benefit_bps,
            priority_gain,
            confidence: smaller(share, ONE_BITS),
        }
    }

    /// Calculate optimal price for order placement
    pub fn optimal_price(&self, side: Side, f: JumpFigures) -> (price: u64)
        requires
            self.quoted() && self.decision(f).should_jump ==> self.best_bid <= self.best_ask,
        ensures
            price == if !self.quoted() {
                other_best(side, self.best_bid, self.best_ask)
            } else if self.decision(f).should_jump {
                jump_price(side, self.best_bid, self.best_ask, self.tick_size)
            } else {
                own_best(side, self.best_bid, self.best_ask)
            },
    {
        if self.best_bid == 0 || self.best_ask == 0 || self.tick_size == 0 {
            return match side {
                Side::Buy => self.best_ask,
                Side::Sell => self.best_bid,
            };
        }
        if self.analyze_jump(f).should_jump {
            return price_of_jump(side, self.best_bid, self.best_ask, self.tick_size);
        }
        match side {
            Side::Buy => self.best_bid,
            Side::Sell => self.best_ask,
        }
    }

    /// Get current spread in ticks, with one decimal place: ten stands for one tick
    pub fn spread_ticks(&self) -> (r: u64)
        requires
            self.quoted() ==> self.best_bid <= self.best_ask,
        ensures
            r == self.spread(),
    {
        if self.best_bid > 0 && self.best_ask > 0 && self.tick_size > 0 {
            let width: u128 = (self.best_ask - self.best_bid) as u128 * 10;
            proof {
                lemma_spread_bound(width as int, self.tick_size as int);
            }
            let tenths: u128 = width / self.tick_size as u128;
            if tenths <= u64::MAX as u128 {
                tenths as u64
            } else {
                u64::MAX
            }
        } else {
            0
        }
    }

    /// The current spread in whole ticks.
    pub(crate) fn spread_in_whole_ticks(&self) -> (r: u64)
        requires
            self.quoted() ==> self.best_bid <= self.best_ask,
        ensures
            r == self.whole_ticks(),
    {
        if self.best_bid > 0 && self.best_ask > 0 && self.tick_size > 0 {
            proof {
                lemma_spread_bound(self.best_ask - self.best_bid, self.tick_size as int);
            }
            (self.best_ask - self.best_bid) / self.tick_size
        } else {
            0
        }
    }
}

/// Builder for queue jumper configuration
#[derive(Debug, Clone, Copy, PartialEq, Eq, Structural)]
pub struct QueueJumperBuilder {
    pub tick_size: u64,
    pub min_edge_bps: u64,
    pub max_cost_bps: u64,
}

impl QueueJumperBuilder {
    pub fn new(tick_size: u64) -> (b: Self)
        ensures
            b == (QueueJumperBuilder { tick_size, min_edge_bps: MIN_EDGE, max_cost_bps: HALF_BITS }),
    {
        Self { tick_size, min_edge_bps: MIN_EDGE, max_cost_bps: HALF_BITS }
    }

    pub fn min_edge(self, min_edge_bps: u64) -> (b: Self)
        ensures
            b == (QueueJumperBuilder { min_edge_bps, ..self }),
    {
        QueueJumperBuilder { min_edge_bps, ..self }
    }

    pub fn max_cost(self, max_cost_bps: u64) -> (b: Self)
        ensures
            b == (QueueJumperBuilder { max_cost_bps, ..self }),
    {
        QueueJumperBuilder { max_cost_bps, ..self }
    }

    pub fn build(self) -> (j: QueueJumper)
        ensures
            j == (QueueJumper {
                min_edge_threshold_bps: self.min_edge_bps,
                max_jump_cost_bps: self.max_cost_bps,
                ..QueueJumper::fresh(self.tick_size)
            }),
    {
        let mut jumper = QueueJumper::new(self.tick_size);
        jumper.set_min_edge_threshold(self.min_edge_bps);
        jumper.set_max_jump_cost(self.max_cost_bps);
        jumper
    }
}

/// A spread counts at most as many steps as price units.
proof fn lemma_spread_bound(spread: int, step: int)
    requires
        spread >= 0,
        step > 0,
    ensures
        0 <= spread / step <= spread,
{
    assert(0 <= spread / step <= spread) by (nonlinear_arith)
        requires
            spread >= 0,
            step > 0,
    ;
}

/// The whole ticks of a spread are those of its tenths of a tick, wherever these fit.
pub proof fn law_tenths_make_whole_ticks(j: QueueJumper)
    requires
        j.quoted() ==> j.best_bid <= j.best_ask,
        j.spread() < u64::MAX,
    ensures
        j.whole_ticks() == j.spread() / 10,
{
    if j.quoted() {
        let width = j.best_ask - j.best_bid;
        let tick = j.tick_size as int;
        vstd::arithmetic::div_mod::lemma_div_denominator(width * 10, tick, 10);
        vstd::arithmetic::div_mod::lemma_div_denominator(width * 10, 10, tick);
        assert(tick * 10 == 10 * tick);
        assert((width * 10) / 10 == width);
        lemma_spread_bound(width, tick);
    }
}

/// The queue is only jumped for a benefit above the least edge, at a cost below the largest one and
/// for a better place.
pub proof fn law_jump_pays(j: QueueJumper, f: JumpFigures)
    requires
        j.decision(f).should_jump,
    ensures
        crate::doubles::greater(j.decision(f).net_benefit_bps, j.min_edge_threshold_bps),
        crate::doubles::greater(j.max_jump_cost_bps, j.decision(f).jump_cost_bps),
        crate::doubles::greater(j.decision(f).priority_gain, ZERO),
        j.decision(f).new_price_ticks == 1,
{
}

/// A jump never leaves the spread, and where the spread is wide enough it does not cross it.
pub proof fn law_jump_stays_inside_the_spread(side: Side, best_bid: u64, best_ask: u64, step: u64)
    requires
        step > 0,
        best_bid <= best_ask,
    ensures
        best_bid <= jump_price(side, best_bid, best_ask, step) <= best_ask,
        (best_ask - best_bid) / step as int >= 2 ==> best_bid < jump_price(
            side,
            best_bid,
            best_ask,
            step,
        ) < best_ask,
{
    if (best_ask - best_bid) / step as int >= 2 {
        lemma_step_fits(best_ask - best_bid, step as int);
    }
}

/// A buyer who jumps bids one step more than the best bid, a seller asks one step less than the best
/// ask; where the spread is less than two steps they take the other side's best price.
pub proof fn law_jump_goes_one_step(best_bid: u64, best_ask: u64, step: u64)
    requires
        step > 0,
        best_bid <= best_ask,
    ensures
        best_ask - best_bid >= 2 * step ==> jump_price(Side::Buy, best_bid, best_ask, step)
            == best_bid + step,
        best_ask - best_bid >= 2 * step ==> jump_price(Side::Sell, best_bid, best_ask, step)
            == best_ask - step,
        best_ask - best_bid < 2 * step ==> jump_price(Side::Buy, best_bid, best_ask, step)
            == best_ask,
        best_ask - best_bid < 2 * step ==> jump_price(Side::Sell, best_bid, best_ask, step)
            == best_bid,
{
    let (width, tick) = (best_ask - best_bid, step as int);
    if width >= 2 * tick {
        assert(width / tick >= 2) by (nonlinear_arith)
            requires
                tick > 0,
                width >= 2 * tick,
        ;
    } else if width / tick >= 2 {
        lemma_step_fits(width, tick);
    }
}

/// A buyer stands with the bids and takes the asks, a seller the other way round.
pub proof fn law_sides_have_their_prices(best_bid: u64, best_ask: u64)
    ensures
        own_best(Side::Buy, best_bid, best_ask) == best_bid,
        own_best(Side::Sell, best_bid, best_ask) == best_ask,
        other_best(Side::Buy, best_bid, best_ask) == best_ask,
        other_best(Side::Sell, best_bid, best_ask) == best_bid,
{
}

/// The spread counts the tenths of a tick, and the ticks, that lie between the best prices, rounded
/// down; without prices on both sides it is zero.
pub proof fn law_spread_is_measured_in_ticks(j: QueueJumper)
    requires
        j.best_bid <= j.best_ask,
    ensures
        j.best_bid > 0 && j.tick_size > 0 && j.spread() < u64::MAX ==> j.spread() * j.tick_size
            <= 10 * (j.best_ask - j.best_bid) < j.spread() * j.tick_size + j.tick_size,
        j.best_bid > 0 && j.tick_size > 0 ==> j.whole_ticks() * j.tick_size <= j.best_ask
            - j.best_bid < j.whole_ticks() * j.tick_size + j.tick_size,
        j.best_bid == 0 || j.tick_size == 0 ==> j.spread() == 0 && j.whole_ticks() == 0,
{
    if j.quoted() {
        let (width, tick) = (j.best_ask - j.best_bid, j.tick_size as int);
        vstd::arithmetic::div_mod::lemma_fundamental_div_mod(width * 10, tick);
        vstd::arithmetic::div_mod::lemma_fundamental_div_mod(width, tick);
        vstd::arithmetic::div_mod::lemma_mod_bound(width * 10, tick);
        vstd::arithmetic::div_mod::lemma_mod_bound(width, tick);
        lemma_spread_bound(width, tick);
        lemma_spread_bound(width * 10, tick);
        assert(((width * 10) / tick) * tick == tick * ((width * 10) / tick)) by (nonlinear_arith);
        assert((width / tick) * tick == tick * (width / tick)) by (nonlinear_arith);
    }
}

/// The queue is jumped exactly where that brings more than the least edge, costs less than the largest
/// cost and gains more than the least number of places.
pub proof fn law_queue_is_jumped_where_it_pays(j: QueueJumper, f: JumpFigures)
    requires
        j.enabled,
        crate::doubles::is_finite(f.net_benefit_bps),
        crate::doubles::is_finite(f.jump_cost_bps),
        crate::doubles::is_finite(f.position_change),
        crate::doubles::is_finite(j.min_edge_threshold_bps),
        crate::doubles::is_finite(j.max_jump_cost_bps),
    ensures
        j.decision(f).should_jump <==> {
            &&& crate::doubles::units(f.net_benefit_bps) > crate::doubles::units(
                j.min_edge_threshold_bps,
            )
            &&& crate::doubles::units(f.jump_cost_bps) < crate::doubles::units(j.max_jump_cost_bps)
            &&& crate::doubles::units(f.position_change) > crate::doubles::units(MIN_PRIORITY_GAIN)
        },
        j.decision(f).new_price_ticks == (if j.decision(f).should_jump {
            1int
        } else {
            0
        }),
        crate::doubles::units(f.position_change) >= 0 ==> crate::doubles::units(
            j.decision(f).priority_gain,
        ) == crate::doubles::units(f.position_change),
        crate::doubles::units(f.position_change) < 0 ==> crate::doubles::units(
            j.decision(f).priority_gain,
        ) == 0,
        j.decision(f).edge_gained_bps == f.edge_gained_bps,
        j.decision(f).jump_cost_bps == f.jump_cost_bps,
        j.decision(f).net_benefit_bps == f.net_benefit_bps,
{
    law_named_thresholds();
    crate::doubles::law_values_are_ordered(f.net_benefit_bps, j.min_edge_threshold_bps);
    crate::doubles::law_values_are_ordered(j.max_jump_cost_bps, f.jump_cost_bps);
    crate::doubles::law_values_are_ordered(f.position_change, ZERO);
    crate::doubles::law_values_are_ordered(ZERO, f.position_change);
    crate::doubles::law_values_are_ordered(f.position_change, MIN_PRIORITY_GAIN);
    crate::doubles::law_values_are_ordered(ZERO, MIN_PRIORITY_GAIN);
}

/// The confidence is one of the two shares, that of the gain where the queue is jumped and that of the
/// cost where it is not, and at most one.
pub proof fn law_confidence_of_a_jump(j: QueueJumper, f: JumpFigures)
    requires
        j.enabled,
        crate::doubles::is_finite(f.gain_share),
        crate::doubles::is_finite(f.cost_share),
    ensures
        ({
            let share = if j.decision(f).should_jump { f.gain_share } else { f.cost_share };
            &&& crate::doubles::units(share) <= crate::doubles::units(ONE_BITS)
                ==> crate::doubles::units(j.decision(f).confidence) == crate::doubles::units(share)
            &&& crate::doubles::units(share) > crate::doubles::units(ONE_BITS)
                ==> j.decision(f).confidence == ONE_BITS
        }),
{
    let share = if j.decision(f).should_jump { f.gain_share } else { f.cost_share };
    crate::doubles::law_values_are_ordered(share, ONE_BITS);
    crate::doubles::law_values_are_ordered(ONE_BITS, share);
}

/// A jumper that is switched off never jumps and tells nothing.
pub proof fn law_jumper_that_is_off_stays(j: QueueJumper, f: JumpFigures)
    requires
        !j.enabled,
    ensures
        !j.decision(f).should_jump,
        j.decision(f).new_price_ticks == 0,
        j.decision(f).edge_gained_bps == 0 && j.decision(f).jump_cost_bps == 0 && j.decision(
            f,
        ).net_benefit_bps == 0 && j.decision(f).priority_gain == 0 && j.decision(f).confidence == 0,
{
}

/// The least edge is three tenths and the least gain of places one tenth, each up to rounding; the
/// largest cost that a jumper starts with is a half.
pub proof fn law_named_thresholds()
    ensures
        -2 * vstd::arithmetic::power2::pow2(1020) <= 10 * crate::doubles::units(MIN_EDGE) - 3
            * crate::doubles::units(ONE_BITS) <= 0,
        0 <= 10 * crate::doubles::units(MIN_PRIORITY_GAIN) - crate::doubles::units(ONE_BITS) <= 4
            * vstd::arithmetic::power2::pow2(1018),
        crate::doubles::units(ONE_BITS) == 0x10_0000_0000_0000 * vstd::arithmetic::power2::pow2(
            1022,
        ),
        crate::doubles::units(MIN_PRIORITY_GAIN) > 0,
        QueueJumper::fresh(1).min_edge_threshold_bps == MIN_EDGE,
        2 * crate::doubles::units(QueueJumper::fresh(1).max_jump_cost_bps)
            == crate::doubles::units(ONE_BITS),
        QueueJumper::fresh(1).enabled,
{
    crate::doubles::lemma_units_at(MIN_EDGE, 1021, 0x3_3333_3333_3333);
    crate::doubles::lemma_units_at(MIN_PRIORITY_GAIN, 1019, 0x9_9999_9999_999a);
    crate::doubles::law_named_numbers_have_their_values();
    vstd::arithmetic::power2::lemma_pow2_unfold(1022);
    vstd::arithmetic::power2::lemma_pow2_unfold(1021);
    vstd::arithmetic::power2::lemma_pow2_unfold(1020);
    vstd::arithmetic::power2::lemma_pow2_unfold(1019);
    vstd::arithmetic::power2::lemma_pow2_pos(1018);
}

} // verus!
