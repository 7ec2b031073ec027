//! The bus that joins betas and margin, and the rules of hedge recommendations.
use crate::doubles::{above, magnitude, negated, ONE_BITS, ZERO};
use crate::hedging::beta_tracker::{BetaTrackerStats, MultiAssetBetaTracker, RollingBetaCalculator};
use crate::hedging::cross_margin::{
    CrossMarginEngine, CrossMarginStats, MarginFigures, MarginResult, Position, RiskParameters,
};
use vstd::prelude::*;

verus! {

/// What to do about a hedge; sizes are the bits of doubles
#[derive(Debug, Clone, Copy, PartialEq, Eq, Structural)]
pub enum HedgeAction {
    Hold,
    IncreaseLong(u64),
    IncreaseShort(u64),
    ClosePosition,
}

/// Hedge recommendation
#[derive(Debug, Clone, Copy, PartialEq, Eq, Structural)]
pub struct HedgeRecommendation {
    pub action: HedgeAction,
    pub target_beta: u64,
    /// None where it is no number
    pub current_beta: Option<u64>,
    /// Confidence, in per cent
    pub confidence: u8,
}

/// The action that a hedge asks for: none where its size is under what is negligible.
pub open spec fn hedge_action(hedge_required: u64, negligible: u64) -> HedgeAction {
    let size = crate::doubles::size_of(hedge_required);
    if crate::doubles::greater(negligible, size) {
        HedgeAction::Hold
    } else if crate::doubles::greater(hedge_required, ZERO) {
        HedgeAction::IncreaseLong(hedge_required)
    } else {
        HedgeAction::IncreaseShort(size)
    }
}

/// The confidence that so many updates give, in per cent.
pub open spec fn confidence_after(updates: usize) -> u8 {
    if updates < 10 {
        30
    } else if updates < 50 {
        60
    } else if updates < 200 {
        80
    } else {
        95
    }
}

/// Global risk bus integration point
pub struct RiskBusIntegration {
    /// Beta tracker
    pub beta_tracker: MultiAssetBetaTracker,
    /// Cross-margin engine
    pub margin_engine: CrossMarginEngine,
    /// Last update timestamp
    pub last_update_ns: u64,
    /// Integration enabled flag
    pub enabled: bool,
}

impl RiskBusIntegration {
    pub open spec fn inv(&self) -> bool {
        self.beta_tracker.inv() && self.margin_engine.inv()
    }

    /// A bus over an empty tracker and an account with no positions, which takes updates
    pub fn new(beta_window_size: usize, initial_equity: u64) -> (b: Self)
        ensures
            b.inv(),
            b.beta_tracker.calculators@ == Map::<Seq<char>, RollingBetaCalculator>::empty(),
            b.beta_tracker.default_window == beta_window_size,
            b.beta_tracker.stats == (BetaTrackerStats { total_updates: 0, benchmarks_tracked: 0 }),
            b.margin_engine.positions@ == Map::<Seq<char>, Position>::empty(),
            b.margin_engine.risk_params@ == Map::<Seq<char>, RiskParameters>::empty(),
            b.margin_engine.account_equity == initial_equity,
            b.margin_engine.total_margin_used == 0,
            b.margin_engine.stats == (CrossMarginStats {
                total_positions: 0,
                total_notional: 0,
                margin_efficiency_updates: 0,
                liquidation_warnings: 0,
            }),
            b.last_update_ns == 0,
            b.enabled,
    {
        Self {
            beta_tracker: MultiAssetBetaTracker::new(beta_window_size),
            margin_engine: CrossMarginEngine::new(initial_equity),
            last_update_ns: 0,
            enabled: true,
        }
    }

    /// Update beta for a benchmark
    ///
    /// Hands back nothing where the bus is disabled, and otherwise the pair that leaves the window,
    /// if one does.
    pub fn update_beta(
        &mut self,
        benchmark: &str,
        asset_return: u64,
        benchmark_return: u64,
        now_ns: u64,
    ) -> (r: Option<Option<(u64, u64)>>)
        requires
            old(self).inv(),
            old(self).beta_tracker.default_window > 0,
        ensures
            final(self).inv(),
            !old(self).enabled ==> r is None && *final(self) == *old(self),
            old(self).enabled ==> {
                &&& final(self).enabled
                &&& final(self).last_update_ns == now_ns
                &&& final(self).margin_engine == old(self).margin_engine
                &&& final(self).beta_tracker.default_window == old(self).beta_tracker.default_window
                &&& final(self).beta_tracker.stats == (BetaTrackerStats {
                    total_updates: old(self).beta_tracker.stats.total_updates.wrapping_add(1),
                    ..old(self).beta_tracker.stats
                })
                &&& final(self).beta_tracker.calculators@.contains_key(benchmark@)
                &&& final(self).beta_tracker.calculators@ == old(self).beta_tracker.calculators@.insert(
                    benchmark@,
                    final(self).beta_tracker.calculators@[benchmark@],
                )
                &&& exists|before: RollingBetaCalculator|
                    {
                        let now = final(self).beta_tracker.calculators@[benchmark@];
                        &&& #[trigger] old(self).beta_tracker.starts_from(benchmark@, before)
                        &&& now@ == before@.pushed((asset_return, benchmark_return))
                        &&& now.last_beta == before.last_beta
                        &&& r == Some(before@.leaving())
                    }
            },
    {
        if !self.enabled {
            return None;
        }
        let leaving = self.beta_tracker.update_beta(benchmark, asset_return, benchmark_return);
        self.last_update_ns = now_ns;
        Some(leaving)
    }

    /// Update position in margin engine; a disabled bus ignores it
    pub fn update_position(&mut self, position: Position, now_ns: u64)
        requires
            old(self).inv(),
        ensures
            final(self).inv(),
            !old(self).enabled ==> *final(self) == *old(self),
            old(self).enabled ==> {
                &&& final(self).enabled
                &&& final(self).last_update_ns == now_ns
                &&& final(self).beta_tracker == old(self).beta_tracker
                &&& final(self).margin_engine.positions@ == if crate::doubles::no_less(
                    ZERO,
                    position.quantity,
                ) {
                    old(self).margin_engine.positions@.remove(position.symbol@)
                } else {
                    old(self).margin_engine.positions@.insert(position.symbol@, position)
                }
                &&& final(self).margin_engine.risk_params == old(self).margin_engine.risk_params
                &&& final(self).margin_engine.account_equity == old(self).margin_engine.account_equity
                &&& final(self).margin_engine.total_margin_used == old(self).margin_engine.total_margin_used
                &&& final(self).margin_engine.stats == (CrossMarginStats {
                    total_positions: final(self).margin_engine.stats.total_positions,
                    ..old(self).margin_engine.stats
                })
            },
    {
        if !self.enabled {
            return ;
        }
        self.margin_engine.update_position(position);
        self.last_update_ns = now_ns;
    }

    /// Get current portfolio margin status, none where the bus is disabled
    pub fn get_margin_status(&mut self, figures: MarginFigures, net_margin: u64, equity: u64) -> (r:
        Option<MarginResult>)
        requires
            old(self).inv(),
        ensures
            final(self).inv(),
            final(self).enabled == old(self).enabled,
            final(self).last_update_ns == old(self).last_update_ns,
            final(self).beta_tracker == old(self).beta_tracker,
            final(self).margin_engine.positions == old(self).margin_engine.positions,
            final(self).margin_engine.risk_params == old(self).margin_engine.risk_params,
            final(self).margin_engine.account_equity == old(self).margin_engine.account_equity,
            !old(self).enabled ==> r is None && *final(self) == *old(self),
            old(self).enabled && old(self).margin_engine.positions@.dom().len() == 0 ==> r == Some(
                crate::hedging::cross_margin::free_margin(equity),
            ) && *final(self) == *old(self),
            old(self).enabled && old(self).margin_engine.positions@.dom().len() > 0 ==> {
                &&& r == Some(crate::hedging::cross_margin::margin_of(figures, equity))
                &&& final(self).margin_engine.total_margin_used == net_margin
                &&& final(self).margin_engine.stats == (CrossMarginStats {
                    margin_efficiency_updates: old(self).margin_engine.stats.margin_efficiency_updates.wrapping_add(1),
                    ..old(self).margin_engine.stats
                })
            },
    {
        if !self.enabled {
            return None;
        }
        Some(self.margin_engine.calculate_portfolio_margin(figures, net_margin, equity))
    }

    /// Get beta against a benchmark; none inside where it is no number
    pub fn get_beta(&self, benchmark: &str) -> (r: Option<Option<u64>>)
        ensures
            r == if self.beta_tracker.calculators@.contains_key(benchmark@) {
                Some(self.beta_tracker.calculators@[benchmark@].last_beta)
            } else {
                None
            },
    {
        self.beta_tracker.get_beta(benchmark)
    }

    /// The beta against a benchmark, one where it is not followed.
    pub open spec fn beta_or_one(&self, benchmark: Seq<char>) -> Option<u64> {
        if self.beta_tracker.calculators@.contains_key(benchmark) {
            self.beta_tracker.calculators@[benchmark].last_beta
        } else {
            Some(ONE_BITS)
        }
    }

    /// The beta against a benchmark, one where it is not followed
    pub fn beta_against(&self, benchmark: &str) -> (r: Option<u64>)
        ensures
            r == self.beta_or_one(benchmark@),
    {
        match self.get_beta(benchmark) {
            Some(beta) => beta,
            None => Some(ONE_BITS),
        }
    }

    /// Check if we can add more positions: the equity is above a tenth of their notional
    pub fn can_add_exposure(&self, equity: u64, tenth_of_notional: u64) -> (r: bool)
        ensures
            r == crate::doubles::greater(equity, tenth_of_notional),
    {
        above(equity, tenth_of_notional)
    }

    /// Get hedging recommendations, for the hedge that the beta against BTC asks for and the size
    /// under which a hedge is negligible
    pub fn get_hedge_recommendation(
        &self,
        target_beta: u64,
        hedge_required: u64,
        negligible: u64,
    ) -> (r: HedgeRecommendation)
        ensures
            r == (HedgeRecommendation {
                action: hedge_action(hedge_required, negligible),
                target_beta,
                current_beta: self.beta_or_one("BTC"@),
                confidence: confidence_after(self.beta_tracker.stats.total_updates),
            }),
    {
        HedgeRecommendation {
            action: if above(negligible, magnitude(hedge_required)) {
                HedgeAction::Hold
            } else if above(hedge_required, ZERO) {
                HedgeAction::IncreaseLong(hedge_required)
            } else {
                HedgeAction::IncreaseShort(magnitude(hedge_required))
            },
            target_beta,
            current_beta: self.beta_against("BTC"),
            confidence: self.calculate_hedge_confidence(),
        }
    }

    /// Enable/disable risk bus integration
    pub fn set_enabled(&mut self, enabled: bool)
        ensures
            *final(self) == (RiskBusIntegration { enabled, ..*old(self) }),
    {
        self.enabled = enabled;
    }

    pub fn is_enabled(&self) -> (r: bool)
        ensures
            r == self.enabled,
    {
        self.enabled
    }

    /// Confidence score for hedge recommendations, in per cent, by the count of observations
    pub fn calculate_hedge_confidence(&self) -> (pct: u8)
        ensures
            pct == confidence_after(self.beta_tracker.stats.total_updates),
    {
        let updates: usize = self.beta_tracker.stats().total_updates;
        if updates < 10 {
            30
        } else if updates < 50 {
            60
        } else if updates < 200 {
            80
        } else {
            95
        }
    }
}

/// Hedging strategy
#[derive(Debug, Clone, Copy, PartialEq, Eq, Structural)]
pub struct HedgingStrategy {
    /// Target beta (0 = market neutral)
    pub target_beta: u64,
    /// Rebalance threshold (beta drift)
    pub rebalance_threshold: u64,
    /// Minimum trade size
    pub min_trade_size: u64,
}

impl HedgingStrategy {
    pub fn new(target_beta: u64, rebalance_threshold: u64, min_trade_size: u64) -> (s: Self)
        ensures
            s == (HedgingStrategy { target_beta, rebalance_threshold, min_trade_size }),
    {
        Self { target_beta, rebalance_threshold, min_trade_size }
    }

    /// Check if rebalancing is needed, for a drift of the beta from its target
    pub fn needs_rebalance(&self, drift: u64) -> (r: bool)
        ensures
            r == crate::doubles::greater(crate::doubles::size_of(drift), self.rebalance_threshold),
    {
        above(magnitude(drift), self.rebalance_threshold)
    }

    /// The trade that so many units of drift ask for: as many against the drift, or none where they
    /// are fewer than the smallest trade.
    pub open spec fn rebalance_of(&self, drift_units: u64) -> u64 {
        if crate::doubles::greater(self.min_trade_size, crate::doubles::size_of(drift_units)) {
            ZERO
        } else {
            crate::doubles::negative(drift_units)
        }
    }

    /// Calculate rebalance trade size, in units of the hedge instrument, for the units that the
    /// drift is worth
    pub fn calculate_rebalance_size(&self, drift_units: u64) -> (units: u64)
        ensures
            units == self.rebalance_of(drift_units),
    {
        if above(self.min_trade_size, magnitude(drift_units)) {
            ZERO
        } else {
            negated(drift_units)
        }
    }
}

/// A trade is made against the drift and in its size, and is never smaller than the smallest trade.
pub proof fn law_rebalancing_opposes_the_drift(s: HedgingStrategy, drift_units: u64)
    requires
        !crate::doubles::is_nan(drift_units),
        !crate::doubles::is_nan(s.min_trade_size),
        s.rebalance_of(drift_units) != ZERO,
    ensures
        crate::doubles::size_of(s.rebalance_of(drift_units)) == crate::doubles::size_of(
            drift_units,
        ),
        crate::doubles::greater(drift_units, ZERO) ==> crate::doubles::greater(
            ZERO,
            s.rebalance_of(drift_units),
        ),
        crate::doubles::greater(ZERO, drift_units) ==> crate::doubles::greater(
            s.rebalance_of(drift_units),
            ZERO,
        ),
        crate::doubles::no_less(
            crate::doubles::size_of(s.rebalance_of(drift_units)),
            s.min_trade_size,
        ),
{
}

/// More updates never lower the confidence.
pub proof fn law_confidence_grows(a: usize, b: usize)
    requires
        a <= b,
    ensures
        30 <= confidence_after(a) <= confidence_after(b) <= 95,
{
}

/// A hedge that is not negligible is bought where it is positive and sold where it is not, in its
/// size.
pub proof fn law_hedge_goes_the_way_it_is_required(hedge_required: u64, negligible: u64)
    requires
        crate::doubles::is_finite(hedge_required),
        crate::doubles::is_finite(negligible),
    ensures
        ({
            let h = crate::doubles::units(hedge_required);
            let least = crate::doubles::units(negligible);
            let size = if h >= 0 {
                h
            } else {
                -h
            };
            match hedge_action(hedge_required, negligible) {
                HedgeAction::Hold => size < least,
                HedgeAction::IncreaseLong(q) => size >= least && h > 0 && crate::doubles::units(q)
                    == h,
                HedgeAction::IncreaseShort(q) => size >= least && h <= 0 && crate::doubles::units(q)
                    == -h,
                HedgeAction::ClosePosition => false,
            }
        }),
{
    crate::doubles::law_signs_turn_values_round(hedge_required);
    crate::doubles::law_values_are_ordered(
        negligible,
        crate::doubles::size_of(hedge_required),
    );
    crate::doubles::law_values_are_ordered(hedge_required, ZERO);
}

/// Confidence starts at thirty per cent and steps up to sixty with ten updates, to eighty with fifty
/// and to ninety-five with two hundred.
pub proof fn law_confidence_steps_up(updates: usize)
    ensures
        confidence_after(updates) == 30 <==> updates < 10,
        confidence_after(updates) == 60 <==> 10 <= updates < 50,
        confidence_after(updates) == 80 <==> 50 <= updates < 200,
        confidence_after(updates) == 95 <==> updates >= 200,
{
}

/// Drift of at least the smallest trade is traded away in full, and a smaller one not at all.
pub proof fn law_rebalancing_takes_the_drift_away(s: HedgingStrategy, drift_units: u64)
    requires
        crate::doubles::is_finite(drift_units),
        crate::doubles::is_finite(s.min_trade_size),
    ensures
        ({
            let d = crate::doubles::units(drift_units);
            let least = crate::doubles::units(s.min_trade_size);
            let size = if d >= 0 {
                d
            } else {
                -d
            };
            crate::doubles::units(s.rebalance_of(drift_units)) == if size >= least {
                -d
            } else {
                0
            }
        }),
{
    crate::doubles::law_signs_turn_values_round(drift_units);
    crate::doubles::law_values_are_ordered(
        s.min_trade_size,
        crate::doubles::size_of(drift_units),
    );
}

/// A benchmark that is not followed counts with a beta of one.
pub proof fn law_unknown_benchmarks_have_beta_one(b: RiskBusIntegration, benchmark: Seq<char>)
    ensures
        !b.beta_tracker.calculators@.contains_key(benchmark) ==> b.beta_or_one(benchmark) == Some(
            0x3ff0_0000_0000_0000u64,
        ),
        b.beta_tracker.calculators@.contains_key(benchmark) ==> b.beta_or_one(benchmark)
            == b.beta_tracker.calculators@[benchmark].last_beta,
{
}

} // verus!
