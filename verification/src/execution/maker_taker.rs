//! Whether to join the queue as a maker or to cross the spread as a taker. Expected values and drifts
//! come as the bits of doubles.
use crate::doubles::{above, clamped, larger, smaller, HALF_BITS, MINUS_INFINITY, ONE_BITS, ZERO};
use vstd::prelude::*;

verus! {

/// Order side
#[derive(Debug, Clone, Copy, PartialEq, Eq, Structural)]
pub enum Side {
    Buy,
    Sell,
}

/// Execution mode
#[derive(Debug, Clone, Copy, PartialEq, Eq, Structural)]
pub enum ExecutionMode {
    /// Join the queue as maker (passive)
    Maker,
    /// Cross the spread as taker (aggressive)
    Taker,
    /// Cancel and wait for better conditions
    Wait,
}

/// The bits of 0.3, the confidence of a marginal edge.
pub const MARGINAL_CONFIDENCE: u64 = 0x3fd3_3333_3333_3333;

/// What is expected of an order in both modes
#[derive(Debug, Clone, Copy, PartialEq, Eq, Structural)]
pub struct RoutingFigures {
    /// Expected value of maker execution (in basis points)
    pub maker_ev_bps: u64,
    /// Expected value of taker execution (in basis points)
    pub taker_ev_bps: u64,
    /// Predicted microprice drift (bps per millisecond)
    pub drift_bps_per_ms: u64,
    /// Queue position estimate (0 = front, 1 = back)
    pub queue_position: u64,
    /// Probability of fill as maker within time horizon
    pub maker_fill_prob: u64,
    /// The maker's value over the difference of both values, which counts as one at least
    pub maker_share: u64,
    /// The taker's value over that difference
    pub taker_share: u64,
}

/// Order routing decision
#[derive(Debug, Clone, Copy, PartialEq, Eq, Structural)]
pub struct RoutingDecision {
    /// Chosen execution mode
    pub mode: ExecutionMode,
    /// Expected value of maker execution (in basis points)
    pub maker_ev_bps: u64,
    /// Expected value of taker execution (in basis points)
    pub taker_ev_bps: u64,
    /// Predicted microprice drift (bps per millisecond)
    pub drift_bps_per_ms: u64,
    /// Queue position estimate (0 = front, 1 = back)
    pub queue_position: u64,
    /// Probability of fill as maker within time horizon
    pub maker_fill_prob: u64,
    /// Recommended limit price offset from best (in ticks)
    pub limit_offset_ticks: i32,
    /// Confidence in decision (0.0 to 1.0)
    pub confidence: u64,
}

/// The decision to wait that a router gives that is off.
pub open spec fn no_decision() -> RoutingDecision {
    RoutingDecision {
        mode: ExecutionMode::Wait,
        maker_ev_bps: ZERO,
        taker_ev_bps: ZERO,
        drift_bps_per_ms: ZERO,
        queue_position: HALF_BITS,
        maker_fill_prob: ZERO,
        limit_offset_ticks: 0,
        confidence: ZERO,
    }
}

impl Default for RoutingDecision {
    fn default() -> (d: Self)
        ensures
            d == no_decision(),
    {
        RoutingDecision {
            mode: ExecutionMode::Wait,
            maker_ev_bps: ZERO,
            taker_ev_bps: ZERO,
            drift_bps_per_ms: ZERO,
            queue_position: HALF_BITS,
            maker_fill_prob: ZERO,
            limit_offset_ticks: 0,
            confidence: ZERO,
        }
    }
}

/// True where the first of two values is better than the second and clears the least edge.
pub open spec fn wins(value: u64, other: u64, min_edge: u64) -> bool {
    crate::doubles::greater(value, other) && crate::doubles::greater(value, min_edge)
}

/// The mode with the better expected value where it clears the least edge; the maker's where neither
/// is better, to capture the rebate; otherwise waiting.
pub open spec fn mode_for(maker_ev: u64, taker_ev: u64, min_edge: u64) -> ExecutionMode {
    if wins(maker_ev, taker_ev, min_edge) {
        ExecutionMode::Maker
    } else if wins(taker_ev, maker_ev, min_edge) {
        ExecutionMode::Taker
    } else if crate::doubles::greater(crate::doubles::max_of(maker_ev, taker_ev), min_edge) {
        ExecutionMode::Maker
    } else {
        ExecutionMode::Wait
    }
}

/// The confidence in what is decided: the share of the mode that wins, at most one.
pub open spec fn confidence_for(f: RoutingFigures, min_edge: u64) -> u64 {
    if wins(f.maker_ev_bps, f.taker_ev_bps, min_edge) {
        crate::doubles::min_of(f.maker_share, ONE_BITS)
    } else if wins(f.taker_ev_bps, f.maker_ev_bps, min_edge) {
        crate::doubles::min_of(f.taker_share, ONE_BITS)
    } else if mode_for(f.maker_ev_bps, f.taker_ev_bps, min_edge) == ExecutionMode::Maker {
        MARGINAL_CONFIDENCE
    } else {
        ZERO
    }
}

/// A drift in favour of the order lets it sit one tick inside a spread of at least three ticks: a
/// price that falls favours a buyer, one that rises a seller.
pub open spec fn offset_for(drift: u64, side: Side, spread_ticks: u64) -> i32 {
    let favorable = match side {
        Side::Buy => crate::doubles::greater(ZERO, drift),
        Side::Sell => crate::doubles::greater(drift, ZERO),
    };
    if favorable && spread_ticks >= 3 {
        1
    } else {
        0
    }
}

/// State of the router between making and taking.
#[derive(Debug, Clone, Copy, PartialEq, Eq, Structural)]
pub struct MakerTakerRouter {
    /// Maker rebate in basis points (positive for rebates, negative for fees)
    pub maker_rebate_bps: u64,
    /// Taker fee in basis points
    pub taker_fee_bps: u64,
    /// Tick size in price units
    pub tick_size: u64,
    /// Minimum edge threshold to execute (bps)
    pub min_edge_bps: u64,
    /// Time horizon for fill probability (milliseconds)
    pub time_horizon_ms: u64,
    /// Whether router is enabled
    pub enabled: bool,
}

impl MakerTakerRouter {
    /// A router with fees, the least edge of half a basis point and a horizon of a tenth of a second.
    pub open spec fn fresh(maker_rebate_bps: u64, taker_fee_bps: u64, tick_size: u64) -> Self {
        MakerTakerRouter {
            maker_rebate_bps,
            taker_fee_bps,
            tick_size,
            min_edge_bps: HALF_BITS,
            time_horizon_ms: 100,
            enabled: true,
        }
    }

    /// Create new router with given fee structure
    pub fn new(maker_rebate_bps: u64, taker_fee_bps: u64, tick_size: u64) -> (r: Self)
        ensures
            r == Self::fresh(maker_rebate_bps, taker_fee_bps, tick_size),
    {
        Self {
            maker_rebate_bps,
            taker_fee_bps,
            tick_size,
            min_edge_bps: HALF_BITS,
            time_horizon_ms: 100,
            enabled: true,
        }
    }

    /// Set minimum edge threshold
    pub fn set_min_edge(&mut self, min_edge_bps: u64)
        ensures
            *final(self) == (MakerTakerRouter { min_edge_bps, ..*old(self) }),
    {
        self.min_edge_bps = min_edge_bps;
    }

    /// Set time horizon for probability calculations
    pub fn set_time_horizon(&mut self, time_horizon_ms: u64)
        ensures
            *final(self) == (MakerTakerRouter { time_horizon_ms, ..*old(self) }),
    {
        self.time_horizon_ms = time_horizon_ms;
    }

    /// Enable/disable router
    pub fn set_enabled(&mut self, enabled: bool)
        ensures
            *final(self) == (MakerTakerRouter { enabled, ..*old(self) }),
    {
        self.enabled = enabled;
    }

    /// Check if enabled
    pub fn is_enabled(&self) -> (r: bool)
        ensures
            r == self.enabled,
    {
        self.enabled
    }

    /// Expected value for maker execution, for what it comes to where the router is on
    pub fn calculate_maker_ev(&self, value: u64) -> (ev: u64)
        ensures
            ev == if self.enabled {
                value
            } else {
                MINUS_INFINITY
            },
    {
        if !self.enabled {
            return MINUS_INFINITY;
        }
        value
    }

    /// Expected value for taker execution, for what it comes to where the router is on
    pub fn calculate_taker_ev(&self, value: u64) -> (ev: u64)
        ensures
            ev == if self.enabled {
                value
            } else {
                MINUS_INFINITY
            },
    {
        if !self.enabled {
            return MINUS_INFINITY;
        }
        value
    }

    /// The alpha of an order, for the alpha less the drift over the horizon and the alpha with it: a
    /// price that rises hurts a buyer and helps a seller
    pub fn adjusted_alpha(side: Side, less_drift: u64, with_drift: u64) -> (alpha: u64)
        ensures
            alpha == match side {
                Side::Buy => less_drift,
                Side::Sell => with_drift,
            },
    {
        match side {
            Side::Buy => less_drift,
            Side::Sell => with_drift,
        }
    }

    /// The factor of a queue imbalance: what it is raised to where it leans to our side, otherwise
    /// one half
    pub fn imbalance_factor(queue_imbalance: u64, raised: u64) -> (f: u64)
        ensures
            f == if crate::doubles::greater(queue_imbalance, ZERO) {
                raised
            } else {
                HALF_BITS
            },
    {
        if above(queue_imbalance, ZERO) {
            raised
        } else {
            HALF_BITS
        }
    }

    /// The factor of a depletion over the horizon, at most one
    pub fn depletion_factor(depleted: u64) -> (f: u64)
        ensures
            f == crate::doubles::min_of(depleted, ONE_BITS),
    {
        smaller(depleted, ONE_BITS)
    }

    /// Fill probability, for the weighted sum of its factors
    pub fn estimate_fill_probability(weighted: u64) -> (p: u64)
        ensures
            p == crate::doubles::between(weighted, ZERO, ONE_BITS),
    {
        clamped(weighted, ZERO, ONE_BITS)
    }

    /// Determine optimal limit price offset
    fn determine_limit_offset(&self, drift: u64, side: Side, current_spread_ticks: u64) -> (r: i32)
        ensures
            r == offset_for(drift, side, current_spread_ticks),
    {
        let favorable_drift = match side {
            Side::Buy => above(ZERO, drift),
            Side::Sell => above(drift, ZERO),
        };
        if favorable_drift && current_spread_ticks >= 3 {
            1
        } else {
            0
        }
    }

    /// What is decided on an order; to wait where the router is off.
    pub open spec fn decision(
        &self,
        side: Side,
        f: RoutingFigures,
        spread_ticks: u64,
    ) -> RoutingDecision {
        if self.enabled {
            RoutingDecision {
                mode: mode_for(f.maker_ev_bps, f.taker_ev_bps, self.min_edge_bps),
                maker_ev_bps: f.maker_ev_bps,
                taker_ev_bps: f.taker_ev_bps,
                drift_bps_per_ms: f.drift_bps_per_ms,
                queue_position: f.queue_position,
                maker_fill_prob: f.maker_fill_prob,
                limit_offset_ticks: offset_for(f.drift_bps_per_ms, side, spread_ticks),
                confidence: confidence_for(f, self.min_edge_bps),
            }
        } else {
            no_decision()
        }
    }

    /// Main routing decision function
    pub fn decide(&self, side: Side, f: RoutingFigures, current_spread_ticks: u64) -> (d:
        RoutingDecision)
        ensures
            d == self.decision(side, f, current_spread_ticks),
    {
        if !self.enabled {
            return RoutingDecision::default();
        }
        let limit_offset_ticks: i32 = self.determine_limit_offset(
            f.drift_bps_per_ms,
            side,
            current_spread_ticks,
        );
        let maker_ev: u64 = f.maker_ev_bps;
        let taker_ev: u64 = f.taker_ev_bps;
        let (mode, confidence): (ExecutionMode, u64) = if above(maker_ev, taker_ev) && above(
            maker_ev,
            self.min_edge_bps,
        ) {
            (ExecutionMode::Maker, smaller(f.maker_share, ONE_BITS))
        } else if above(taker_ev, maker_ev) && above(taker_ev, self.min_edge_bps) {
            (ExecutionMode::Taker, smaller(f.taker_share, ONE_BITS))
        } else if above(larger(maker_ev, taker_ev), self.min_edge_bps) {
            (ExecutionMode::Maker, MARGINAL_CONFIDENCE)
        } else {
            (ExecutionMode::Wait, ZERO)
        };
        RoutingDecision {
            mode,
            maker_ev_bps: maker_ev,
            taker_ev_bps: taker_ev,
            drift_bps_per_ms: f.drift_bps_per_ms,
            queue_position: f.queue_position,
            maker_fill_prob: f.maker_fill_prob,
            limit_offset_ticks,
            confidence,
        }
    }

    /// The mode that is decided on quickly; to wait where the router is off.
    pub open spec fn quick_mode(&self, maker_ev: u64, taker_ev: u64) -> ExecutionMode {
        if self.enabled {
            mode_for(maker_ev, taker_ev, self.min_edge_bps)
        } else {
            ExecutionMode::Wait
        }
    }

    /// Quick decision for high-frequency path (simplified)
    pub fn quick_decide(&self, maker_ev: u64, taker_ev: u64) -> (mode: ExecutionMode)
        ensures
            mode == self.quick_mode(maker_ev, taker_ev),
    {
        if !self.enabled {
            return ExecutionMode::Wait;
        }
        if above(maker_ev, taker_ev) && above(maker_ev, self.min_edge_bps) {
            ExecutionMode::Maker
        } else if above(taker_ev, maker_ev) && above(taker_ev, self.min_edge_bps) {
            ExecutionMode::Taker
        } else if above(larger(maker_ev, taker_ev), self.min_edge_bps) {
            ExecutionMode::Maker
        } else {
            ExecutionMode::Wait
        }
    }
}

/// Builder for configuring router
#[derive(Debug, Clone, Copy, PartialEq, Eq, Structural)]
pub struct RouterBuilder {
    pub maker_rebate_bps: u64,
    pub taker_fee_bps: u64,
    pub tick_size: u64,
    pub min_edge_bps: u64,
    pub time_horizon_ms: u64,
}

impl RouterBuilder {
    pub fn new(tick_size: u64) -> (b: Self)
        ensures
            b == (RouterBuilder {
                maker_rebate_bps: ZERO,
                taker_fee_bps: ZERO,
                tick_size,
                min_edge_bps: HALF_BITS,
                time_horizon_ms: 100,
            }),
    {
        Self {
            maker_rebate_bps: ZERO,
            taker_fee_bps: ZERO,
            tick_size,
            min_edge_bps: HALF_BITS,
            time_horizon_ms: 100,
        }
    }

    pub fn maker_rebate(self, rebate_bps: u64) -> (b: Self)
        ensures
            b == (RouterBuilder { maker_rebate_bps: rebate_bps, ..self }),
    {
        RouterBuilder { maker_rebate_bps: rebate_bps, ..self }
    }

    pub fn taker_fee(self, fee_bps: u64) -> (b: Self)
        ensures
            b == (RouterBuilder { taker_fee_bps: fee_bps, ..self }),
    {
        RouterBuilder { taker_fee_bps: fee_bps, ..self }
    }

    pub fn min_edge(self, min_edge_bps: u64) -> (b: Self)
        ensures
            b == (RouterBuilder { min_edge_bps, ..self }),
    {
        RouterBuilder { min_edge_bps, ..self }
    }

    pub fn time_horizon(self, time_horizon_ms: u64) -> (b: Self)
        ensures
            b == (RouterBuilder { time_horizon_ms, ..self }),
    {
        RouterBuilder { time_horizon_ms, ..self }
    }

    pub fn build(self) -> (r: MakerTakerRouter)
        ensures
            r == (MakerTakerRouter {
                maker_rebate_bps: self.maker_rebate_bps,
                taker_fee_bps: self.taker_fee_bps,
                tick_size: self.tick_size,
                min_edge_bps: self.min_edge_bps,
                time_horizon_ms: self.time_horizon_ms,
                enabled: true,
            }),
    {
        let mut router = MakerTakerRouter::new(
            self.maker_rebate_bps,
            self.taker_fee_bps,
            self.tick_size,
        );
        router.set_min_edge(self.min_edge_bps);
        router.set_time_horizon(self.time_horizon_ms);
        router
    }
}

/// A mode is only chosen where its expected value is above the least edge, and where the other's is
/// no better.
pub proof fn law_chosen_mode_clears_the_edge(maker_ev: u64, taker_ev: u64, min_edge: u64)
    requires
        !crate::doubles::is_nan(maker_ev),
        !crate::doubles::is_nan(taker_ev),
    ensures
        match mode_for(maker_ev, taker_ev, min_edge) {
            ExecutionMode::Maker => crate::doubles::greater(maker_ev, min_edge)
                && crate::doubles::no_less(maker_ev, taker_ev),
            ExecutionMode::Taker => crate::doubles::greater(taker_ev, min_edge)
                && crate::doubles::greater(taker_ev, maker_ev),
            ExecutionMode::Wait => !crate::doubles::greater(maker_ev, min_edge)
                && !crate::doubles::greater(taker_ev, min_edge),
        },
{
}

/// The quick decision is the mode of the full one.
pub proof fn law_quick_decision_agrees(
    r: MakerTakerRouter,
    side: Side,
    f: RoutingFigures,
    spread_ticks: u64,
)
    ensures
        r.decision(side, f, spread_ticks).mode == r.quick_mode(f.maker_ev_bps, f.taker_ev_bps),
{
}

/// Confidence is at most one, and there is none in waiting.
pub proof fn law_confidence_is_bounded(
    r: MakerTakerRouter,
    side: Side,
    f: RoutingFigures,
    spread_ticks: u64,
)
    ensures
        crate::doubles::no_less(ONE_BITS, r.decision(side, f, spread_ticks).confidence),
        r.decision(side, f, spread_ticks).mode == ExecutionMode::Wait ==> r.decision(
            side,
            f,
            spread_ticks,
        ).confidence == ZERO,
{
}

/// The mode with the higher expected value is chosen where it clears the least edge, the maker's
/// where both are equal; whether something is done at all depends on the edge alone.
pub proof fn law_better_mode_is_chosen(maker_ev: u64, taker_ev: u64, min_edge: u64)
    requires
        !crate::doubles::is_nan(maker_ev),
        !crate::doubles::is_nan(taker_ev),
        !crate::doubles::is_nan(min_edge),
    ensures
        ({
            let m = crate::doubles::rank(maker_ev);
            let t = crate::doubles::rank(taker_ev);
            let e = crate::doubles::rank(min_edge);
            let mode = mode_for(maker_ev, taker_ev, min_edge);
            &&& mode == ExecutionMode::Wait <==> m <= e && t <= e
            &&& mode == ExecutionMode::Maker <==> m > e && m >= t
            &&& mode == ExecutionMode::Taker <==> t > e && t > m
        }),
{
}

/// An order sits one tick inside a spread of three ticks or more where the price moves its way: a
/// buy where it falls, a sell where it rises; otherwise it sits at the best price.
pub proof fn law_drift_in_favour_moves_the_limit(drift: u64, side: Side, spread_ticks: u64)
    requires
        !crate::doubles::is_nan(drift),
    ensures
        offset_for(drift, side, spread_ticks) == 1 || offset_for(drift, side, spread_ticks) == 0,
        side == Side::Buy ==> (offset_for(drift, side, spread_ticks) == 1 <==> spread_ticks > 2
            && crate::doubles::rank(drift) < 0),
        side == Side::Sell ==> (offset_for(drift, side, spread_ticks) == 1 <==> spread_ticks > 2
            && crate::doubles::rank(drift) > 0),
        offset_for(drift, Side::Buy, spread_ticks) == offset_for(
            crate::doubles::negative(drift),
            Side::Sell,
            spread_ticks,
        ),
{
}

/// The confidence in a decision is the share of the mode that is chosen, at most one; it is that of
/// a marginal edge where neither mode is better, and nothing where the order waits.
pub proof fn law_confidence_is_that_of_the_mode(
    r: MakerTakerRouter,
    side: Side,
    f: RoutingFigures,
    spread_ticks: u64,
)
    requires
        r.enabled,
        !crate::doubles::is_nan(f.maker_ev_bps),
        !crate::doubles::is_nan(f.taker_ev_bps),
        !crate::doubles::is_nan(r.min_edge_bps),
        !crate::doubles::is_nan(f.maker_share),
        !crate::doubles::is_nan(f.taker_share),
    ensures
        ({
            let d = r.decision(side, f, spread_ticks);
            let m = crate::doubles::rank(f.maker_ev_bps);
            let t = crate::doubles::rank(f.taker_ev_bps);
            let one = crate::doubles::rank(ONE_BITS);
            &&& d.mode == ExecutionMode::Maker && m > t && crate::doubles::rank(f.maker_share) <= one
                ==> d.confidence == f.maker_share
            &&& d.mode == ExecutionMode::Taker && crate::doubles::rank(f.taker_share) <= one
                ==> d.confidence == f.taker_share
            &&& d.mode == ExecutionMode::Maker && m > t && crate::doubles::rank(f.maker_share) > one
                ==> d.confidence == ONE_BITS
            &&& d.mode == ExecutionMode::Taker && crate::doubles::rank(f.taker_share) > one
                ==> d.confidence == ONE_BITS
            &&& d.mode == ExecutionMode::Maker && m == t ==> d.confidence == MARGINAL_CONFIDENCE
            &&& d.mode == ExecutionMode::Wait ==> d.confidence == ZERO
            &&& d.maker_ev_bps == f.maker_ev_bps
            &&& d.taker_ev_bps == f.taker_ev_bps
            &&& d.drift_bps_per_ms == f.drift_bps_per_ms
            &&& d.queue_position == f.queue_position
            &&& d.maker_fill_prob == f.maker_fill_prob
        }),
{
}

/// A router that is off decides to wait, whatever is expected.
pub proof fn law_router_that_is_off_waits(
    r: MakerTakerRouter,
    side: Side,
    f: RoutingFigures,
    spread_ticks: u64,
)
    requires
        !r.enabled,
    ensures
        r.decision(side, f, spread_ticks).mode == ExecutionMode::Wait,
        r.decision(side, f, spread_ticks).confidence == ZERO,
        r.decision(side, f, spread_ticks).limit_offset_ticks == 0,
{
}

/// A router starts switched on, with the fees that it is given, a least edge of a half and a horizon of
/// a hundred milliseconds; a decision to wait expects nothing and stands in the middle of the queue.
pub proof fn law_fresh_router(maker_rebate_bps: u64, taker_fee_bps: u64, tick_size: u64)
    ensures
        ({
            let r = MakerTakerRouter::fresh(maker_rebate_bps, taker_fee_bps, tick_size);
            &&& r.enabled
            &&& r.maker_rebate_bps == maker_rebate_bps
            &&& r.taker_fee_bps == taker_fee_bps
            &&& r.tick_size == tick_size
            &&& 2 * crate::doubles::units(r.min_edge_bps) == crate::doubles::units(ONE_BITS)
            &&& r.time_horizon_ms == 100
        }),
        no_decision().mode == ExecutionMode::Wait,
        no_decision().maker_ev_bps == 0 && no_decision().taker_ev_bps == 0,
        no_decision().drift_bps_per_ms == 0 && no_decision().maker_fill_prob == 0,
        no_decision().confidence == 0 && no_decision().limit_offset_ticks == 0,
        2 * crate::doubles::units(no_decision().queue_position) == crate::doubles::units(ONE_BITS),
{
    crate::doubles::law_named_numbers_have_their_values();
}

} // verus!
