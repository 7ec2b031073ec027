//! The impact engine: its two models, its signal and the slippage that executions show. Signals and
//! slippage stand as the bits of doubles.
use crate::doubles::{above, clamped, magnitude, HALF_BITS, ONE_BITS, ZERO};
use crate::impact::almgren::{AlmgrenChrissParams, AlmgrenChrissSolver, ExecutionTrajectory, FixedPoint};
use crate::impact::square_root::{Observed, SquareRootConfig, SquareRootImpactModel, TradeObservation};
use vstd::prelude::*;

verus! {

/// The bits of 0.1, the least urgency.
pub const LEAST_URGENCY: u64 = 0x3fb9_9999_9999_999a;

/// The bits of 0.9, the greatest urgency.
pub const GREATEST_URGENCY: u64 = 0x3fec_cccc_cccc_cccd;

/// Configuration for the impact module
#[derive(Debug, Clone, Copy)]
pub struct ImpactConfig {
    pub almgren_params: AlmgrenChrissParams,
    pub square_root_config: SquareRootConfig,
    /// Blend weight between Almgren-Chriss and square-root model (0 to 1)
    pub model_blend_weight: u64,
}

/// Combined market impact signal
#[derive(Debug, Clone, Copy, PartialEq, Eq, Structural)]
pub struct ImpactSignal {
    /// Predicted impact from Almgren-Chriss model (decimal)
    pub ac_impact: u64,
    /// Predicted impact from square-root model (decimal)
    pub sr_impact: u64,
    /// Blended impact prediction
    pub blended_impact: u64,
    /// Recommended execution urgency (0 to 1)
    pub urgency: u64,
    /// Dynamic multiplier for TWAP/VWAP
    pub twap_multiplier: u64,
}

/// What arithmetic makes of the two models
#[derive(Debug, Clone, Copy, PartialEq, Eq, Structural)]
pub struct SignalFigures {
    pub ac_impact: u64,
    pub sr_impact: u64,
    /// Both impacts by their weights
    pub blended_impact: u64,
    /// Ten times the blended impact
    pub raw_urgency: u64,
    /// One over one and five times the blended impact
    pub twap_multiplier: u64,
}

/// The signal of figures: the urgency is kept between its bounds.
pub open spec fn signal_of(f: SignalFigures) -> ImpactSignal {
    ImpactSignal {
        ac_impact: f.ac_impact,
        sr_impact: f.sr_impact,
        blended_impact: f.blended_impact,
        urgency: crate::doubles::between(f.raw_urgency, LEAST_URGENCY, GREATEST_URGENCY),
        twap_multiplier: f.twap_multiplier,
    }
}

/// The signal before anything was seen.
pub open spec fn first_signal() -> ImpactSignal {
    ImpactSignal {
        ac_impact: 0,
        sr_impact: 0,
        blended_impact: 0,
        urgency: HALF_BITS,
        twap_multiplier: ONE_BITS,
    }
}

impl Default for ImpactSignal {
    fn default() -> (s: Self)
        ensures
            s == first_signal(),
    {
        Self {
            ac_impact: 0,
            sr_impact: 0,
            blended_impact: 0,
            urgency: HALF_BITS,
            twap_multiplier: ONE_BITS,
        }
    }
}

/// Main market impact engine combining multiple models
pub struct ImpactEngine {
    pub config: ImpactConfig,
    pub ac_solver: AlmgrenChrissSolver,
    pub sr_model: SquareRootImpactModel,
    pub current_signal: ImpactSignal,
    pub last_trajectory: Option<ExecutionTrajectory>,
}

impl ImpactEngine {
    pub fn new(config: ImpactConfig) -> (e: Self)
        requires
            config.almgren_params.fits(),
        ensures
            e.config == config,
            e.ac_solver.params == config.almgren_params,
            e.ac_solver.dt.0 == config.almgren_params.dt(),
            e.ac_solver.kappa.0 == config.almgren_params.kappa(),
            e.ac_solver.sinh_coeff.0 == config.almgren_params.sinh(),
            e.ac_solver.cosh_coeff.0 == config.almgren_params.cosh(),
            e.sr_model.config == config.square_root_config,
            e.sr_model.observations@ == Seq::<TradeObservation>::empty(),
            e.sr_model.current_alpha == config.square_root_config.default_alpha,
            e.sr_model.avg_daily_volume == crate::impact::square_root::DAILY_VOLUME_BITS,
            e.current_signal == first_signal(),
            e.last_trajectory is None,
    {
        Self {
            config,
            ac_solver: AlmgrenChrissSolver::new(config.almgren_params),
            sr_model: SquareRootImpactModel::new(config.square_root_config),
            current_signal: ImpactSignal::default(),
            last_trajectory: None,
        }
    }

    /// Add a trade observation to the square-root model
    pub fn add_trade_observation(&mut self, obs: TradeObservation) -> (r: Observed)
        ensures
            final(self).sr_model.observations@ == crate::impact::square_root::observed(
                old(self).sr_model.config,
                old(self).sr_model.observations@,
                obs,
            ),
            r == crate::impact::square_root::outcome(
                old(self).sr_model.config,
                old(self).sr_model.observations@,
                obs,
            ),
            final(self).sr_model.config == old(self).sr_model.config,
            final(self).sr_model.current_alpha == old(self).sr_model.current_alpha,
            final(self).sr_model.avg_daily_volume == old(self).sr_model.avg_daily_volume,
            final(self).config == old(self).config,
            final(self).ac_solver == old(self).ac_solver,
            final(self).current_signal == old(self).current_signal,
            final(self).last_trajectory == old(self).last_trajectory,
    {
        self.sr_model.add_observation(obs)
    }

    /// Calculate optimal trajectory using Almgren-Chriss, and keep it
    ///
    /// Nothing comes back, and nothing changes, where a value on the way exceeds what a fixed-point
    /// number holds.
    pub fn calculate_optimal_trajectory(&mut self, params: AlmgrenChrissParams) -> (r: Option<
        &ExecutionTrajectory,
    >)
        requires
            params.num_intervals < u32::MAX,
        ensures
            final(self).config == old(self).config,
            final(self).ac_solver == old(self).ac_solver,
            final(self).sr_model == old(self).sr_model,
            final(self).current_signal == old(self).current_signal,
            !params.fits() ==> r is None,
            r is None ==> *final(self) == *old(self),
            r is Some ==> {
                &&& final(self).last_trajectory == Some(*(r->0))
                &&& exists|s: AlmgrenChrissSolver|
                    is_solver(s, params) && s.trajectory_fits() && #[trigger] s.is_trajectory(
                        *(r->0),
                    )
            },
            r is None && params.fits() ==> exists|s: AlmgrenChrissSolver| #[trigger]
                is_solver(s, params) && !s.trajectory_fits(),
    {
        let solver = match AlmgrenChrissSolver::checked_new(params) {
            Some(s) => s,
            None => {
                return None;
            },
        };
        assert(is_solver(solver, params));
        match solver.checked_trajectory() {
            Some(t) => {
                assert(solver.is_trajectory(t));
                self.last_trajectory = Some(t);
                self.last_trajectory.as_ref()
            },
            None => None,
        }
    }

    /// Updates the signal by what the models give
    pub fn update_signal(&mut self, figures: SignalFigures)
        ensures
            *final(self) == (ImpactEngine { current_signal: signal_of(figures), ..*old(self) }),
    {
        self.current_signal = ImpactSignal {
            ac_impact: figures.ac_impact,
            sr_impact: figures.sr_impact,
            blended_impact: figures.blended_impact,
            urgency: clamped(figures.raw_urgency, LEAST_URGENCY, GREATEST_URGENCY),
            twap_multiplier: figures.twap_multiplier,
        };
    }

    /// The cost of the last trajectory, which predictions start from; zero before the first
    pub fn baseline_cost(&self) -> (c: FixedPoint)
        ensures
            c == match self.last_trajectory {
                Some(t) => t.expected_impact_cost,
                None => FixedPoint(0),
            },
    {
        match &self.last_trajectory {
            Some(t) => t.expected_impact_cost,
            None => FixedPoint::zero(),
        }
    }

    /// Get current impact signal
    pub fn get_signal(&self) -> (s: ImpactSignal)
        ensures
            s == self.current_signal,
    {
        self.current_signal
    }

    /// Get recommended TWAP interval adjustment
    pub fn twap_interval_multiplier(&self) -> (m: u64)
        ensures
            m == self.current_signal.twap_multiplier,
    {
        self.current_signal.twap_multiplier
    }

    /// Get the square-root model for direct access
    pub fn square_root_model(&self) -> (m: &SquareRootImpactModel)
        ensures
            *m == self.sr_model,
    {
        &self.sr_model
    }

    /// Get the Almgren-Chriss solver
    pub fn almgren_chriss_solver(&self) -> (s: &AlmgrenChrissSolver)
        ensures
            *s == self.ac_solver,
    {
        &self.ac_solver
    }

    /// Update model parameters dynamically
    pub fn update_almgren_params(&mut self, params: AlmgrenChrissParams)
        requires
            params.fits(),
        ensures
            is_solver(final(self).ac_solver, params),
            *final(self) == (ImpactEngine { ac_solver: final(self).ac_solver, ..*old(self) }),
    {
        self.ac_solver = AlmgrenChrissSolver::new(params);
    }

    /// Reset all models
    pub fn reset(&mut self)
        ensures
            final(self).config == old(self).config,
            final(self).ac_solver == old(self).ac_solver,
            final(self).sr_model.config == old(self).sr_model.config,
            final(self).sr_model.observations@ == Seq::<TradeObservation>::empty(),
            final(self).sr_model.current_alpha == old(self).sr_model.config.default_alpha,
            final(self).sr_model.avg_daily_volume == old(self).sr_model.avg_daily_volume,
            final(self).current_signal == first_signal(),
            final(self).last_trajectory is None,
    {
        self.sr_model.reset();
        self.current_signal = ImpactSignal::default();
        self.last_trajectory = None;
    }
}

/// True of the solver of some parameters.
pub open spec fn is_solver(s: AlmgrenChrissSolver, params: AlmgrenChrissParams) -> bool {
    &&& s.params == params
    &&& s.dt.0 == params.dt()
    &&& s.kappa.0 == params.kappa()
    &&& s.sinh_coeff.0 == params.sinh()
    &&& s.cosh_coeff.0 == params.cosh()
}

/// Execution quality monitor
#[derive(Debug)]
pub struct ExecutionMonitor {
    pub expected_impact: u64,
    pub actual_slippage: Vec<u64>,
    pub window_size: usize,
}

impl ExecutionMonitor {
    pub fn new(window_size: usize) -> (m: Self)
        ensures
            m.expected_impact == 0,
            m.actual_slippage@ == Seq::<u64>::empty(),
            m.window_size == window_size,
    {
        Self { expected_impact: 0, actual_slippage: Vec::new(), window_size }
    }

    /// The slippage of a trade, for what it comes to of a purchase and of a sale.
    pub open spec fn slippage_of(is_buy: bool, bought: u64, sold: u64) -> u64 {
        crate::doubles::size_of(
            if is_buy {
                bought
            } else {
                sold
            },
        )
    }

    /// Record an executed trade's slippage, for the rise and the fall of its price as shares of what
    /// was expected; the oldest leaves a full window
    pub fn record_execution(&mut self, is_buy: bool, bought: u64, sold: u64)
        requires
            old(self).window_size > 0,
        ensures
            final(self).actual_slippage@ == if old(self).actual_slippage@.len() >= old(self).window_size {
                old(self).actual_slippage@.skip(1).push(Self::slippage_of(is_buy, bought, sold))
            } else {
                old(self).actual_slippage@.push(Self::slippage_of(is_buy, bought, sold))
            },
            final(self).expected_impact == old(self).expected_impact,
            final(self).window_size == old(self).window_size,
    {
        let slippage: u64 = if is_buy {
            bought
        } else {
            sold
        };
        if self.actual_slippage.len() >= self.window_size {
            self.actual_slippage.remove(0);
            assert(self.actual_slippage@ =~= old(self).actual_slippage@.skip(1));
        }
        self.actual_slippage.push(magnitude(slippage));
    }

    /// Get average realized slippage, for its sum over the count: zero where there is none
    pub fn avg_slippage(&self, quotient: u64) -> (r: u64)
        ensures
            r == if self.actual_slippage@.len() == 0 {
                ZERO
            } else {
                quotient
            },
    {
        if self.actual_slippage.len() == 0 {
            return ZERO;
        }
        quotient
    }

    /// Get slippage variance, for the sum of squares over the count less one: zero where there are
    /// fewer than two
    pub fn slippage_variance(&self, quotient: u64) -> (r: u64)
        ensures
            r == if self.actual_slippage@.len() < 2 {
                ZERO
            } else {
                quotient
            },
    {
        if self.actual_slippage.len() < 2 {
            return ZERO;
        }
        quotient
    }

    /// Set expected impact for comparison
    pub fn set_expected_impact(&mut self, impact: u64)
        ensures
            final(self).expected_impact == impact,
            final(self).actual_slippage == old(self).actual_slippage,
            final(self).window_size == old(self).window_size,
    {
        self.expected_impact = impact;
    }

    /// Check if the average slippage exceeds a limit, which is a multiple of what is expected
    pub fn is_underperforming(&self, average: u64, limit: u64) -> (r: bool)
        ensures
            r == crate::doubles::greater(average, limit),
    {
        above(average, limit)
    }

    /// The slippage that was recorded, the oldest first
    pub fn slippage(&self) -> (r: &Vec<u64>)
        ensures
            *r == self.actual_slippage,
    {
        &self.actual_slippage
    }
}

/// An urgency that is a number lies between its bounds.
pub proof fn law_urgency_is_bounded(f: SignalFigures)
    requires
        !crate::doubles::is_nan(f.raw_urgency),
    ensures
        crate::doubles::no_less(signal_of(f).urgency, LEAST_URGENCY),
        crate::doubles::no_less(GREATEST_URGENCY, signal_of(f).urgency),
{
}

/// A signal carries its figures on, with the urgency held between a tenth and nine tenths.
pub proof fn law_signal_carries_its_figures(f: SignalFigures)
    requires
        crate::doubles::is_finite(f.raw_urgency),
    ensures
        ({
            let s = signal_of(f);
            let (u, least, most) = (
                crate::doubles::units(f.raw_urgency),
                crate::doubles::units(LEAST_URGENCY),
                crate::doubles::units(GREATEST_URGENCY),
            );
            &&& s.ac_impact == f.ac_impact
            &&& s.sr_impact == f.sr_impact
            &&& s.blended_impact == f.blended_impact
            &&& s.twap_multiplier == f.twap_multiplier
            &&& least <= u <= most ==> s.urgency == f.raw_urgency
            &&& u < least ==> s.urgency == LEAST_URGENCY
            &&& u > most && most >= least ==> s.urgency == GREATEST_URGENCY
        }),
{
    crate::doubles::law_values_are_ordered(LEAST_URGENCY, f.raw_urgency);
    crate::doubles::law_values_are_ordered(f.raw_urgency, GREATEST_URGENCY);
}

/// Slippage is the size of the change that counts for the side of the order.
pub proof fn law_slippage_is_that_of_the_side(bought: u64, sold: u64)
    requires
        crate::doubles::is_finite(bought),
        crate::doubles::is_finite(sold),
    ensures
        ({
            let (b, s) = (crate::doubles::units(bought), crate::doubles::units(sold));
            let buy = crate::doubles::units(ExecutionMonitor::slippage_of(true, bought, sold));
            let sell = crate::doubles::units(ExecutionMonitor::slippage_of(false, bought, sold));
            &&& buy >= 0 && (buy == b || buy == -b)
            &&& sell >= 0 && (sell == s || sell == -s)
        }),
{
    crate::doubles::law_signs_turn_values_round(bought);
    crate::doubles::law_signs_turn_values_round(sold);
}

/// Before anything was seen there is no impact, the urgency is a half and the pace is as planned.
pub proof fn law_first_signal_is_neutral()
    ensures
        crate::doubles::units(first_signal().ac_impact) == 0,
        crate::doubles::units(first_signal().sr_impact) == 0,
        crate::doubles::units(first_signal().blended_impact) == 0,
        2 * crate::doubles::units(first_signal().urgency) == crate::doubles::units(
            first_signal().twap_multiplier,
        ),
        crate::doubles::units(first_signal().twap_multiplier)
            == crate::doubles::units(crate::doubles::ONE_BITS),
{
    crate::doubles::law_named_numbers_have_their_values();
}

} // verus!
