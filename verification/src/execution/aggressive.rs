//! Aggressive execution: iceberg sniping, liquidity sweeps and their risk limits.
use crate::doubles::above;
use crate::execution::sniper::{
    IcebergCandidate, IcebergSniper, L3TradeTick, SnipeOrder, SnipeTarget, Urgency, UNIT_FRACTION,
};
use crate::execution::sweeper::{
    CascadeDetection, FillOutcome, LiquiditySweeper, SlippageBounds, SweepResult, ONE_PERCENT_BPS,
};
use vstd::prelude::*;

verus! {

/// Combined aggressive execution engine
pub struct AggressiveExecution {
    pub sniper: IcebergSniper,
    pub sweeper: LiquiditySweeper,
}

/// Execution action types
#[derive(Debug, Clone, Copy, PartialEq, Eq, Structural)]
pub enum ExecutionAction {
    Snipe(SnipeOrder),
    Sweep(SweepResult),
    Wait,
}

/// Aggressive opportunity types
#[derive(Debug, Clone, Copy, PartialEq, Eq, Structural)]
pub enum AggressiveOpportunity {
    Iceberg(IcebergCandidate),
    Cascade(CascadeDetection),
}

impl AggressiveExecution {
    pub fn new() -> (e: Self)
        ensures
            e.sniper.inv(),
            e.sniper.candidates@.len() == 0,
            e.sniper.trades().len() == 0,
            e.sniper.trade_head == 0,
            e.sniper.enabled,
            e.sniper.min_confidence == UNIT_FRACTION * 7 / 10,
            e.sniper.sweep_multiplier == UNIT_FRACTION + UNIT_FRACTION / 2,
            e.sweeper.book.blank(),
            e.sweeper.slippage_tolerance == UNIT_FRACTION * 50 / 10_000,
            e.sweeper.max_sweep_size == 1000,
            e.sweeper.min_liquidity == 100,
            e.sweeper.cascade_enabled,
    {
        Self { sniper: IcebergSniper::new(), sweeper: LiquiditySweeper::new() }
    }

    /// Process trade tick and check for opportunities: the trade is recorded, and the iceberg to
    /// be sniped is returned, if there is one
    pub fn process_tick(&mut self, tick: L3TradeTick) -> (r: Option<SnipeTarget>)
        requires
            old(self).sniper.inv(),
            old(self).sniper.trade_head < u64::MAX,
            crate::execution::sniper::detection_fits(
                old(self).sniper.candidates@,
                old(self).sniper.trades_with(tick),
                tick,
            ),
            forall|i: int|
                0 <= i < old(self).detected(tick).len() ==> (
                #[trigger] old(self).detected(tick)[i]).initial_size - old(self).detected(
                    tick,
                )[i].executed_size <= i64::MAX,
        ensures
            final(self).sniper.inv(),
            final(self).sniper.candidates@ == old(self).detected(tick),
            final(self).sniper.trades() == old(self).sniper.trades_with(tick),
            final(self).sniper.trade_head == old(self).sniper.trade_head + 1,
            final(self).sniper.enabled == old(self).sniper.enabled,
            final(self).sniper.min_confidence == old(self).sniper.min_confidence,
            final(self).sniper.sweep_multiplier == old(self).sniper.sweep_multiplier,
            final(self).sweeper == old(self).sweeper,
            r == final(self).sniper.target(),
    {
        self.sniper.record_trade(tick);
        assert(self.sniper.remainders_fit()) by {
            assert forall|i: int| 0 <= i < self.sniper.candidates@.len() implies (
            #[trigger] self.sniper.candidates@[i]).initial_size
                - self.sniper.candidates@[i].executed_size <= i64::MAX by {
                assert(self.sniper.candidates@[i] == old(self).detected(tick)[i]);
            }
        }
        self.sniper.snipe_target()
    }

    /// The iceberg candidates after a trade.
    pub open spec fn detected(&self, tick: L3TradeTick) -> Seq<IcebergCandidate> {
        crate::execution::sniper::detected(
            self.sniper.candidates@,
            self.sniper.trades_with(tick),
            tick,
        )
    }

    /// The order on the iceberg to be sniped next, for a given sweep size
    pub fn snipe(&self, sweep_size: i64) -> (r: Option<ExecutionAction>)
        requires
            self.sniper.inv(),
            self.sniper.remainders_fit(),
        ensures
            r == match self.sniper.target() {
                Some(t) => Some(
                    ExecutionAction::Snipe(
                        SnipeOrder {
                            price: t.price,
                            side: t.side,
                            size: if sweep_size >= t.remaining {
                                sweep_size
                            } else {
                                t.remaining
                            },
                            urgency: Urgency::High,
                            candidate_idx: t.candidate_idx,
                            confidence_tenths: t.confidence_tenths,
                        },
                    ),
                ),
                None => None,
            },
    {
        match self.sniper.generate_snipe_order(sweep_size) {
            Some(order) => Some(ExecutionAction::Snipe(order)),
            None => None,
        }
    }

    /// Execute sweep based on current book state: one that takes something, with less than one
    /// percent of slippage
    pub fn execute_sweep(
        &self,
        side: u8,
        target_size: i64,
        outcomes: &Vec<FillOutcome>,
        bounds: SlippageBounds,
    ) -> (r: Option<SweepResult>)
        requires
            outcomes@.len() == self.sweeper.book.levels(side).len(),
            forall|k: int|
                0 <= k < outcomes@.len() ==> (#[trigger] outcomes@[k]).cost
                    <= crate::execution::sweeper::MAX_FILL_COST,
        ensures
            ({
                let s = crate::execution::sweeper::sweep(
                    self.sweeper.book.levels(side),
                    self.sweeper.aim(target_size),
                    outcomes@,
                    bounds,
                );
                r == if s.total_size > 0 && crate::doubles::greater(ONE_PERCENT_BPS, s.slippage_bps) {
                    Some(s)
                } else {
                    None
                }
            }),
    {
        let result = self.sweeper.calculate_sweep(side, target_size, outcomes, bounds);
        if result.total_size > 0 && above(ONE_PERCENT_BPS, result.slippage_bps) {
            Some(result)
        } else {
            None
        }
    }

    /// Get best aggressive opportunity: an iceberg before a cascade among the asks
    pub fn get_best_opportunity(&self) -> (r: Option<AggressiveOpportunity>)
        requires
            self.sweeper.cascade_enabled ==> crate::execution::sweeper::thin_volumes_fit(
                self.sweeper.book.ask_levels(),
                self.sweeper.min_liquidity,
            ),
        ensures
            r == match crate::execution::sniper::best_index(
                self.sniper.candidates@,
                self.sniper.min_confidence,
                self.sniper.candidates@.len(),
            ) {
                Some(i) => Some(AggressiveOpportunity::Iceberg(self.sniper.candidates@[i as int])),
                None => if self.sweeper.cascade_enabled {
                    match crate::execution::sweeper::cascade(
                        self.sweeper.book.ask_levels(),
                        self.sweeper.min_liquidity,
                        self.sweeper.book.ask_count,
                    ) {
                        Some(c) => Some(AggressiveOpportunity::Cascade(c)),
                        None => None,
                    }
                } else {
                    None
                },
            },
    {
        if let Some(c) = self.sniper.get_best_opportunity() {
            return Some(AggressiveOpportunity::Iceberg(*c));
        }
        if let Some(c) = self.sweeper.detect_cascade(1) {
            return Some(AggressiveOpportunity::Cascade(c));
        }
        None
    }
}

/// Pre-trade risk checks for aggressive execution
#[derive(Debug, Clone, Copy, PartialEq, Eq, Structural)]
pub struct PreTradeRisk {
    pub max_single_order_size: i64,
    pub max_daily_volume: i64,
    pub executed_today: i64,
    pub enabled: bool,
}

impl PreTradeRisk {
    /// True where an order keeps within the limits, or none are enforced.
    pub open spec fn allows(&self, size: i64) -> bool {
        self.enabled ==> size <= self.max_single_order_size && self.executed_today + size
            <= self.max_daily_volume
    }

    pub fn new() -> (r: Self)
        ensures
            r == (PreTradeRisk {
                max_single_order_size: 10000,
                max_daily_volume: 1000000,
                executed_today: 0,
                enabled: true,
            }),
    {
        Self {
            max_single_order_size: 10000,
            max_daily_volume: 1000000,
            executed_today: 0,
            enabled: true,
        }
    }

    pub fn check_order(&self, size: i64) -> (r: bool)
        ensures
            r == self.allows(size),
    {
        if !self.enabled {
            return true;
        }
        if size > self.max_single_order_size {
            return false;
        }
        self.executed_today as i128 + size as i128 <= self.max_daily_volume as i128
    }

    pub fn record_execution(&mut self, size: i64)
        requires
            i64::MIN <= old(self).executed_today + size <= i64::MAX,
        ensures
            *final(self) == (PreTradeRisk {
                executed_today: (old(self).executed_today + size) as i64,
                ..*old(self)
            }),
    {
        self.executed_today = self.executed_today + size;
    }

    pub fn reset_daily(&mut self)
        ensures
            *final(self) == (PreTradeRisk { executed_today: 0, ..*old(self) }),
    {
        self.executed_today = 0;
    }
}

/// Orders that were let through keep the volume of the day within its limit.
pub proof fn law_daily_limit_holds(r: PreTradeRisk, size: i64)
    requires
        r.enabled,
        r.allows(size),
    ensures
        r.executed_today + size <= r.max_daily_volume,
        size <= r.max_single_order_size,
{
}

/// An order is let through exactly where it is within the limit of one order and leaves the volume of
/// the day within its limit, or where nothing is checked.
pub proof fn law_orders_within_both_limits_pass(r: PreTradeRisk, size: i64, smaller: i64)
    requires
        smaller <= size,
    ensures
        !r.enabled ==> r.allows(size),
        r.enabled && size > r.max_single_order_size ==> !r.allows(size),
        r.enabled && size > r.max_daily_volume - r.executed_today ==> !r.allows(size),
        size <= r.max_single_order_size && size <= r.max_daily_volume - r.executed_today
            ==> r.allows(size),
        r.allows(size) ==> r.allows(smaller),
{
}

} // verus!
