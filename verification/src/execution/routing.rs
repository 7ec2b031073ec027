//! Execution plans: maker-taker routing combined with queue jumping.
use crate::doubles::{above, larger, negated, smaller, HALF_BITS, ONE_BITS, ZERO};
use crate::execution::maker_taker::{
    ExecutionMode, MakerTakerRouter, RoutingDecision, RoutingFigures, Side,
};
use crate::execution::queue_jumping::{
    price_of_jump, JumpFigures, QueueJumpDecision, QueueJumper,
};
use vstd::prelude::*;

verus! {

/// Combined execution decision
#[derive(Debug, Clone, Copy, PartialEq, Eq, Structural)]
pub struct ExecutionPlan {
    /// Final execution mode
    pub mode: ExecutionMode,
    /// Limit price (0 for market orders)
    pub limit_price: u64,
    /// Order size in base units
    pub size: u64,
    /// Side of order
    pub side: Side,
    /// Expected cost/rebate in bps (negative = cost, positive = rebate)
    pub expected_cost_bps: u64,
    /// Confidence in execution plan (0-1)
    pub confidence: u64,
    /// Whether to use queue jumping
    pub use_queue_jump: bool,
    /// Timestamp
    pub timestamp_ns: u64,
}

/// The plan to do nothing.
pub open spec fn idle_plan() -> ExecutionPlan {
    ExecutionPlan {
        mode: ExecutionMode::Wait,
        limit_price: 0,
        size: 0,
        side: Side::Buy,
        expected_cost_bps: ZERO,
        confidence: ZERO,
        use_queue_jump: false,
        timestamp_ns: 0,
    }
}

impl Default for ExecutionPlan {
    fn default() -> (p: Self)
        ensures
            p == idle_plan(),
    {
        ExecutionPlan {
            mode: ExecutionMode::Wait,
            limit_price: 0,
            size: 0,
            side: Side::Buy,
            expected_cost_bps: ZERO,
            confidence: ZERO,
            use_queue_jump: false,
            timestamp_ns: 0,
        }
    }
}

/// Order as it is asked for.
#[derive(Debug, Clone, Copy, PartialEq, Eq, Structural)]
pub struct PlanRequest {
    pub side: Side,
    /// Order size in base units
    pub size: u64,
    /// What is expected of both modes
    pub routing: RoutingFigures,
    /// What a jump by one tick comes to
    pub jump: JumpFigures,
    /// Taker fee and slippage in bps
    pub taker_cost_bps: u64,
    pub best_bid: u64,
    pub best_ask: u64,
    pub timestamp_ns: u64,
}

/// Execution router
#[derive(Debug, Clone, Copy, PartialEq, Eq, Structural)]
pub struct ExecutionRouter {
    pub maker_taker_router: MakerTakerRouter,
    pub queue_jumper: QueueJumper,
    /// Maker rebate in bps
    pub maker_rebate_bps: u64,
    /// Taker fee in bps
    pub taker_fee_bps: u64,
    /// Fill probability slope for queue calculations
    pub fill_prob_slope: u64,
    /// Enabled flag
    pub enabled: bool,
    /// Sequence counter
    pub sequence: u64,
}

/// The step by which an order jumps: one tick, which is at least one price unit.
pub open spec fn jump_step(jumper: QueueJumper) -> u64 {
    if jumper.tick_size > 0 {
        jumper.tick_size
    } else {
        1
    }
}

/// True where the queue is jumped: a maker's order, on a jump that pays.
pub open spec fn jumps(mode: ExecutionMode, jump: QueueJumpDecision) -> bool {
    mode == ExecutionMode::Maker && jump.should_jump && crate::doubles::greater(
        jump.net_benefit_bps,
        ZERO,
    )
}

/// The limit price of an order in a given mode.
pub open spec fn limit_price(
    mode: ExecutionMode,
    jump: QueueJumpDecision,
    side: Side,
    best_bid: u64,
    best_ask: u64,
    step: u64,
) -> u64 {
    match mode {
        ExecutionMode::Maker => if jumps(mode, jump) {
            crate::execution::queue_jumping::jump_price(side, best_bid, best_ask, step)
        } else {
            crate::execution::queue_jumping::own_best(side, best_bid, best_ask)
        },
        ExecutionMode::Taker => crate::execution::queue_jumping::other_best(
            side,
            best_bid,
            best_ask,
        ),
        ExecutionMode::Wait => 0,
    }
}

/// What an order in a given mode is expected to bring: a maker is paid the rebate, a taker pays the
/// fee and the slippage.
pub open spec fn cost_of(mode: ExecutionMode, maker_rebate_bps: u64, taker_cost_bps: u64) -> u64 {
    match mode {
        ExecutionMode::Maker => maker_rebate_bps,
        ExecutionMode::Taker => crate::doubles::negative(taker_cost_bps),
        ExecutionMode::Wait => ZERO,
    }
}

/// A confidence as a share: no less than zero and at most one.
pub open spec fn as_share(confidence: u64) -> u64 {
    crate::doubles::min_of(crate::doubles::max_of(confidence, ZERO), ONE_BITS)
}

impl ExecutionRouter {
    /// The queue jumper with the prices of a request.
    pub open spec fn jumper_at(&self, q: PlanRequest) -> QueueJumper {
        QueueJumper { best_bid: q.best_bid, best_ask: q.best_ask, ..self.queue_jumper }
    }

    /// The spread in whole ticks that the maker-taker decision goes by: two where it is not known.
    pub open spec fn routing_spread(&self, q: PlanRequest) -> u64 {
        if self.jumper_at(q).quoted() {
            self.jumper_at(q).whole_ticks()
        } else {
            2
        }
    }

    /// What is decided between making and taking.
    pub open spec fn routing(&self, q: PlanRequest) -> RoutingDecision {
        self.maker_taker_router.decision(q.side, q.routing, self.routing_spread(q))
    }

    /// What is decided on jumping the queue.
    pub open spec fn jumping(&self, q: PlanRequest) -> QueueJumpDecision {
        self.jumper_at(q).decision(q.jump)
    }

    /// True where the spread is known wherever a request needs it.
    pub open spec fn has_spread(&self, q: PlanRequest) -> bool {
        &&& self.jumper_at(q).quoted() ==> q.best_bid <= q.best_ask
        &&& jumps(self.routing(q).mode, self.jumping(q)) ==> q.best_bid <= q.best_ask
    }

    /// The plan for a request.
    pub open spec fn plan(&self, q: PlanRequest, confidence: u64) -> ExecutionPlan {
        if !self.enabled {
            idle_plan()
        } else {
            let jumper = self.jumper_at(q);
            let jump = self.jumping(q);
            let mode = self.routing(q).mode;
            ExecutionPlan {
                mode,
                limit_price: limit_price(
                    mode,
                    jump,
                    q.side,
                    q.best_bid,
                    q.best_ask,
                    jump_step(jumper),
                ),
                size: q.size,
                side: q.side,
                expected_cost_bps: cost_of(mode, self.maker_rebate_bps, q.taker_cost_bps),
                confidence: as_share(confidence),
                use_queue_jump: jumps(mode, jump),
                timestamp_ns: q.timestamp_ns,
            }
        }
    }

    /// A router with fees that has planned nothing yet.
    pub open spec fn fresh(tick_size: u64, maker_rebate_bps: u64, taker_fee_bps: u64) -> Self {
        ExecutionRouter {
            maker_taker_router: MakerTakerRouter::fresh(maker_rebate_bps, taker_fee_bps, tick_size),
            queue_jumper: QueueJumper::fresh(tick_size),
            maker_rebate_bps,
            taker_fee_bps,
            fill_prob_slope: HALF_BITS,
            enabled: true,
            sequence: 0,
        }
    }

    /// Create new execution router
    pub fn new(tick_size: u64, maker_rebate_bps: u64, taker_fee_bps: u64) -> (r: Self)
        ensures
            r == Self::fresh(tick_size, maker_rebate_bps, taker_fee_bps),
    {
        Self {
            maker_taker_router: MakerTakerRouter::new(maker_rebate_bps, taker_fee_bps, tick_size),
            queue_jumper: QueueJumper::new(tick_size),
            maker_rebate_bps,
            taker_fee_bps,
            fill_prob_slope: HALF_BITS,
            enabled: true,
            sequence: 0,
        }
    }

    /// Set fill probability slope
    pub fn set_fill_prob_slope(&mut self, slope: u64)
        ensures
            *final(self) == (ExecutionRouter { fill_prob_slope: slope, ..*old(self) }),
    {
        self.fill_prob_slope = slope;
    }

    /// Enable/disable router
    pub fn set_enabled(&mut self, enabled: bool)
        ensures
            *final(self) == (ExecutionRouter {
                maker_taker_router: MakerTakerRouter { enabled, ..old(self).maker_taker_router },
                queue_jumper: QueueJumper { enabled, ..old(self).queue_jumper },
                enabled,
                ..*old(self)
            }),
    {
        self.enabled = enabled;
        self.maker_taker_router.set_enabled(enabled);
        self.queue_jumper.set_enabled(enabled);
    }

    /// Check if enabled
    pub fn is_enabled(&self) -> (r: bool)
        ensures
            r == self.enabled,
    {
        self.enabled
    }

    /// Update order book prices
    pub fn update_prices(&mut self, best_bid: u64, best_ask: u64)
        ensures
            *final(self) == (ExecutionRouter {
                queue_jumper: QueueJumper { best_bid, best_ask, ..old(self).queue_jumper },
                ..*old(self)
            }),
    {
        self.queue_jumper.update_prices(best_bid, best_ask);
    }

    /// Update queue state
    pub fn update_queue_state(&mut self, orders_ahead: u64)
        ensures
            *final(self) == (ExecutionRouter {
                queue_jumper: QueueJumper { orders_ahead, ..old(self).queue_jumper },
                ..*old(self)
            }),
    {
        self.queue_jumper.update_orders_ahead(orders_ahead);
    }

    /// What is decided between making and taking, and on jumping the queue
    pub fn decide(&self, q: PlanRequest) -> (r: (RoutingDecision, QueueJumpDecision))
        requires
            self.jumper_at(q).quoted() ==> q.best_bid <= q.best_ask,
        ensures
            r.0 == self.routing(q),
            r.1 == self.jumping(q),
    {
        let mut jumper = self.queue_jumper;
        jumper.update_prices(q.best_bid, q.best_ask);
        let spread_ticks: u64 = if jumper.best_bid > 0 && jumper.best_ask > 0 && jumper.tick_size > 0 {
            jumper.spread_in_whole_ticks()
        } else {
            2
        };
        (self.maker_taker_router.decide(q.side, q.routing, spread_ticks), jumper.analyze_jump(q.jump))
    }

    /// Generate execution plan for an order
    ///
    /// A router that is off plans nothing and stays as it is; otherwise the prices are taken over
    /// and the plan is counted. `confidence` is the confidence in both decisions, by their weights.
    pub fn create_execution_plan(&mut self, q: PlanRequest, confidence: u64) -> (p: ExecutionPlan)
        requires
            old(self).enabled ==> old(self).has_spread(q),
        ensures
            p == old(self).plan(q, confidence),
            *final(self) == if old(self).enabled {
                ExecutionRouter {
                    queue_jumper: old(self).jumper_at(q),
                    sequence: old(self).sequence.wrapping_add(1),
                    ..*old(self)
                }
            } else {
                *old(self)
            },
    {
        if !self.enabled {
            return ExecutionPlan::default();
        }
        self.update_prices(q.best_bid, q.best_ask);
        assert(self.jumper_at(q) == old(self).jumper_at(q));
        let (routed, jump) = self.decide(q);
        let (mode, limit_price, use_queue_jump) = self.combine_decisions(
            &routed,
            &jump,
            q.side,
            q.best_bid,
            q.best_ask,
        );
        let expected_cost_bps: u64 = match mode {
            ExecutionMode::Maker => self.maker_rebate_bps,
            ExecutionMode::Taker => negated(q.taker_cost_bps),
            ExecutionMode::Wait => ZERO,
        };
        self.sequence = self.sequence.wrapping_add(1);
        ExecutionPlan {
            mode,
            limit_price,
            size: q.size,
            side: q.side,
            expected_cost_bps,
            confidence: smaller(larger(confidence, ZERO), ONE_BITS),
            use_queue_jump,
            timestamp_ns: q.timestamp_ns,
        }
    }

    /// Combine maker-taker and queue jump decisions
    fn combine_decisions(
        &self,
        routed: &RoutingDecision,
        jump: &QueueJumpDecision,
        side: Side,
        best_bid: u64,
        best_ask: u64,
    ) -> (r: (ExecutionMode, u64, bool))
        requires
            jumps(routed.mode, *jump) ==> best_bid <= best_ask,
        ensures
            r.0 == routed.mode,
            r.1 == limit_price(
                routed.mode,
                *jump,
                side,
                best_bid,
                best_ask,
                jump_step(self.queue_jumper),
            ),
            r.2 == jumps(routed.mode, *jump),
    {
        let tick_size: u64 = self.queue_jumper.tick_size;
        let step: u64 = if tick_size > 0 {
            tick_size
        } else {
            1
        };
        match routed.mode {
            ExecutionMode::Maker => {
                if jump.should_jump && above(jump.net_benefit_bps, ZERO) {
                    (ExecutionMode::Maker, price_of_jump(side, best_bid, best_ask, step), true)
                } else {
                    let price: u64 = match side {
                        Side::Buy => best_bid,
                        Side::Sell => best_ask,
                    };
                    (ExecutionMode::Maker, price, false)
                }
            },
            ExecutionMode::Taker => {
                let price: u64 = match side {
                    Side::Buy => best_ask,
                    Side::Sell => best_bid,
                };
                (ExecutionMode::Taker, price, false)
            },
            ExecutionMode::Wait => (ExecutionMode::Wait, 0, false),
        }
    }

    /// Slippage in bps, for a tenth of the size in millions: at most one, and one where the price to
    /// trade against is not known
    pub fn estimate_slippage(&self, side: Side, tenth: u64, best_bid: u64, best_ask: u64) -> (r: u64)
        ensures
            r == if crate::execution::queue_jumping::other_best(side, best_bid, best_ask) == 0 {
                ONE_BITS
            } else {
                crate::doubles::min_of(tenth, ONE_BITS)
            },
    {
        let reference: u64 = match side {
            Side::Buy => best_ask,
            Side::Sell => best_bid,
        };
        if reference == 0 {
            return ONE_BITS;
        }
        smaller(tenth, ONE_BITS)
    }

    /// Get sequence number
    pub fn sequence(&self) -> (r: u64)
        ensures
            r == self.sequence,
    {
        self.sequence
    }

    /// Reset router state
    pub fn reset(&mut self)
        ensures
            *final(self) == (ExecutionRouter { sequence: 0, ..*old(self) }),
    {
        self.sequence = 0;
    }
}

/// Builder for execution router
#[derive(Debug, Clone, Copy, PartialEq, Eq, Structural)]
pub struct RouterBuilder {
    pub tick_size: u64,
    pub maker_rebate_bps: u64,
    pub taker_fee_bps: u64,
    pub min_edge_bps: u64,
    pub time_horizon_ms: u64,
}

impl RouterBuilder {
    pub fn new(tick_size: u64) -> (b: Self)
        ensures
            b == (RouterBuilder {
                tick_size,
                maker_rebate_bps: ZERO,
                taker_fee_bps: ZERO,
                min_edge_bps: HALF_BITS,
                time_horizon_ms: 100,
            }),
    {
        Self {
            tick_size,
            maker_rebate_bps: ZERO,
            taker_fee_bps: ZERO,
            min_edge_bps: HALF_BITS,
            time_horizon_ms: 100,
        }
    }

    pub fn maker_rebate(self, rebate_bps: u64) -> (b: Self)
        ensures
            b == (RouterBuilder { maker_rebate_bps: rebate_bps, ..self }),
    {
        RouterBuilder { maker_rebate_bps: rebate_bps, ..self }
    }

    pub fn taker_fee(self, fee_bps: u64) -> (b: Self)
        ensures
            b == (RouterBuilder { taker_fee_bps: fee_bps, ..self }),
    {
        RouterBuilder { taker_fee_bps: fee_bps, ..self }
    }

    pub fn min_edge(self, min_edge_bps: u64) -> (b: Self)
        ensures
            b == (RouterBuilder { min_edge_bps, ..self }),
    {
        RouterBuilder { min_edge_bps, ..self }
    }

    pub fn time_horizon(self, horizon_ms: u64) -> (b: Self)
        ensures
            b == (RouterBuilder { time_horizon_ms: horizon_ms, ..self }),
    {
        RouterBuilder { time_horizon_ms: horizon_ms, ..self }
    }

    /// The router; its edge and horizon are the usual ones
    pub fn build(self) -> (r: ExecutionRouter)
        ensures
            r == ExecutionRouter::fresh(
                self.tick_size,
                self.maker_rebate_bps,
                self.taker_fee_bps,
            ),
    {
        ExecutionRouter::new(self.tick_size, self.maker_rebate_bps, self.taker_fee_bps)
    }
}

/// A plan to make or take prices the order between the best bid and the best ask; only a plan that
/// does not wait has a price, and only a maker's plan jumps the queue.
pub proof fn law_planned_price_is_inside_the_spread(
    r: ExecutionRouter,
    q: PlanRequest,
    confidence: u64,
)
    requires
        q.best_bid <= q.best_ask,
    ensures
        r.plan(q, confidence).mode != ExecutionMode::Wait ==> q.best_bid <= r.plan(q, confidence).limit_price
            <= q.best_ask,
        r.plan(q, confidence).mode == ExecutionMode::Wait ==> r.plan(q, confidence).limit_price == 0,
        r.plan(q, confidence).use_queue_jump ==> r.plan(q, confidence).mode == ExecutionMode::Maker,
{
    if r.enabled {
        crate::execution::queue_jumping::law_jump_stays_inside_the_spread(
            q.side,
            q.best_bid,
            q.best_ask,
            jump_step(r.jumper_at(q)),
        );
    }
}

/// A maker's plan that jumps the queue betters the best price of its side by one tick wherever the
/// spread has room for one, and every plan of a taker or a maker that does not jump stands at a
/// best price.
pub proof fn law_jump_is_one_tick(r: ExecutionRouter, q: PlanRequest, confidence: u64)
    requires
        r.enabled,
        r.queue_jumper.tick_size > 0,
        q.best_ask - q.best_bid >= 2 * r.queue_jumper.tick_size,
    ensures
        r.plan(q, confidence).use_queue_jump ==> r.plan(q, confidence).limit_price == match q.side {
            Side::Buy => q.best_bid + r.queue_jumper.tick_size,
            Side::Sell => q.best_ask - r.queue_jumper.tick_size,
        },
        r.plan(q, confidence).mode == ExecutionMode::Maker && !r.plan(q, confidence).use_queue_jump
            ==> r.plan(q, confidence).limit_price == crate::execution::queue_jumping::own_best(
            q.side,
            q.best_bid,
            q.best_ask,
        ),
        r.plan(q, confidence).mode == ExecutionMode::Taker ==> r.plan(q, confidence).limit_price
            == crate::execution::queue_jumping::other_best(q.side, q.best_bid, q.best_ask),
{
    let spread = q.best_ask - q.best_bid;
    let tick = r.queue_jumper.tick_size as int;
    assert(spread / tick >= 2) by (nonlinear_arith)
        requires
            tick > 0,
            spread >= 2 * tick,
    ;
}

/// The confidence of a plan is a share; a maker's plan brings the rebate, a taker's plan costs the
/// fee and the slippage, and a plan to wait costs nothing.
pub proof fn law_plan_is_priced(r: ExecutionRouter, q: PlanRequest, confidence: u64)
    ensures
        crate::doubles::no_less(r.plan(q, confidence).confidence, ZERO),
        crate::doubles::no_less(ONE_BITS, r.plan(q, confidence).confidence),
        r.plan(q, confidence).mode == ExecutionMode::Wait ==> r.plan(q, confidence).expected_cost_bps == ZERO,
        r.plan(q, confidence).mode == ExecutionMode::Maker ==> r.plan(q, confidence).expected_cost_bps
            == r.maker_rebate_bps,
        r.plan(q, confidence).mode == ExecutionMode::Taker ==> r.plan(q, confidence).expected_cost_bps
            == crate::doubles::negative(q.taker_cost_bps),
{
}

/// A plan is for the size, the side and the time of its request; a router that is switched off waits.
pub proof fn law_plan_is_for_its_request(r: ExecutionRouter, q: PlanRequest, confidence: u64)
    ensures
        r.enabled ==> r.plan(q, confidence).size == q.size && r.plan(q, confidence).side == q.side
            && r.plan(q, confidence).timestamp_ns == q.timestamp_ns,
        !r.enabled ==> r.plan(q, confidence).mode == ExecutionMode::Wait && r.plan(
            q,
            confidence,
        ).size == 0 && r.plan(q, confidence).limit_price == 0 && !r.plan(
            q,
            confidence,
        ).use_queue_jump,
{
}

/// A plan makes where the best price of its side is its own, takes where it is the other one: a buyer
/// who makes without a jump bids the best bid, one who takes pays the best ask.
pub proof fn law_plans_have_the_price_of_their_side(
    r: ExecutionRouter,
    q: PlanRequest,
    confidence: u64,
)
    requires
        r.enabled,
        !r.plan(q, confidence).use_queue_jump,
    ensures
        r.plan(q, confidence).mode == ExecutionMode::Maker && q.side == Side::Buy ==> r.plan(
            q,
            confidence,
        ).limit_price == q.best_bid,
        r.plan(q, confidence).mode == ExecutionMode::Maker && q.side == Side::Sell ==> r.plan(
            q,
            confidence,
        ).limit_price == q.best_ask,
        r.plan(q, confidence).mode == ExecutionMode::Taker && q.side == Side::Buy ==> r.plan(
            q,
            confidence,
        ).limit_price == q.best_ask,
        r.plan(q, confidence).mode == ExecutionMode::Taker && q.side == Side::Sell ==> r.plan(
            q,
            confidence,
        ).limit_price == q.best_bid,
{
}

/// The queue is jumped exactly by a maker whose jump pays and brings something.
pub proof fn law_makers_jump_where_it_pays(mode: ExecutionMode, jump: QueueJumpDecision)
    requires
        crate::doubles::is_finite(jump.net_benefit_bps),
    ensures
        jumps(mode, jump) <==> mode == ExecutionMode::Maker && jump.should_jump
            && crate::doubles::units(jump.net_benefit_bps) > 0,
{
    crate::doubles::law_values_are_ordered(jump.net_benefit_bps, ZERO);
}

/// A confidence below zero counts as none, one above one as one, and any other as itself.
pub proof fn law_confidence_is_cut_to_a_share(confidence: u64)
    requires
        crate::doubles::is_finite(confidence),
    ensures
        ({
            let c = crate::doubles::units(confidence);
            let one = crate::doubles::units(ONE_BITS);
            let r = crate::doubles::units(as_share(confidence));
            &&& c < 0 ==> r == 0
            &&& c > one ==> r == one
            &&& 0 <= c <= one ==> r == c
        }),
{
    crate::doubles::law_values_are_ordered(confidence, ZERO);
    crate::doubles::law_values_are_ordered(ZERO, confidence);
    crate::doubles::law_values_are_ordered(confidence, ONE_BITS);
    crate::doubles::law_values_are_ordered(ONE_BITS, confidence);
    crate::doubles::law_values_are_ordered(ONE_BITS, ZERO);
    crate::doubles::law_named_numbers_have_their_values();
    vstd::arithmetic::power2::lemma_pow2_pos(1022);
}

/// A taker's cost counts against the plan; the spread that routing goes by counts as two ticks where
/// there are no quotes, and a jump without a tick size goes by one unit.
pub proof fn law_costs_and_steps(r: ExecutionRouter, q: PlanRequest, cost: u64, jumper: QueueJumper)
    requires
        crate::doubles::is_finite(cost),
    ensures
        crate::doubles::units(cost_of(ExecutionMode::Taker, 0, cost)) == -crate::doubles::units(
            cost,
        ),
        cost_of(ExecutionMode::Maker, cost, 0) == cost,
        cost_of(ExecutionMode::Wait, cost, cost) == 0,
        jumper.tick_size > 0 ==> jump_step(jumper) == jumper.tick_size,
        jumper.tick_size == 0 ==> jump_step(jumper) == 1,
        q.best_bid == 0 || q.best_ask == 0 || r.queue_jumper.tick_size == 0 ==> r.routing_spread(q)
            == 2,
        q.best_bid > 0 && q.best_ask >= q.best_bid && r.queue_jumper.tick_size > 0 ==> ({
            let t = r.queue_jumper.tick_size;
            r.routing_spread(q) * t <= q.best_ask - q.best_bid < r.routing_spread(q) * t + t
        }),
{
    crate::doubles::law_signs_turn_values_round(cost);
    if q.best_bid > 0 && q.best_ask >= q.best_bid {
        crate::execution::queue_jumping::law_spread_is_measured_in_ticks(r.jumper_at(q));
    }
}

/// A plan to do nothing has no price, no size, no cost, no confidence and no time.
pub proof fn law_idle_plan_is_empty()
    ensures
        idle_plan().mode == ExecutionMode::Wait && !idle_plan().use_queue_jump,
        idle_plan().limit_price == 0 && idle_plan().size == 0,
        idle_plan().side == Side::Buy,
        idle_plan().expected_cost_bps == 0 && idle_plan().confidence == 0,
        idle_plan().timestamp_ns == 0,
{
}

/// A router starts switched on, with the fees and the tick size that it is given for both of its parts.
pub proof fn law_fresh_execution_router(tick_size: u64, maker_rebate_bps: u64, taker_fee_bps: u64)
    ensures
        ({
            let r = ExecutionRouter::fresh(tick_size, maker_rebate_bps, taker_fee_bps);
            &&& r.enabled && r.sequence == 0
            &&& r.maker_rebate_bps == maker_rebate_bps && r.taker_fee_bps == taker_fee_bps
            &&& r.queue_jumper.tick_size == tick_size && r.queue_jumper.enabled
            &&& r.maker_taker_router.tick_size == tick_size && r.maker_taker_router.enabled
            &&& r.maker_taker_router.maker_rebate_bps == maker_rebate_bps
            &&& r.maker_taker_router.taker_fee_bps == taker_fee_bps
            &&& 2 * crate::doubles::units(r.fill_prob_slope) == crate::doubles::units(ONE_BITS)
        }),
{
    crate::doubles::law_named_numbers_have_their_values();
}

} // verus!
