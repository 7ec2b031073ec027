//! The window of trades that the square-root impact model is calibrated from, and the choice of a
//! number of slices. Prices and coefficients stand as the bits of doubles.
use crate::doubles::{above, at_least, clamped, negated, smaller, ONE_BITS, TEN_BITS, ZERO};
use std::collections::VecDeque;
use vstd::prelude::*;

verus! {

/// The bits of 0.95, in double precision.
pub const DECAY_BITS: u64 = 0x3fee_6666_6666_6666;

/// The bits of 0.1, in double precision.
pub const ALPHA_BITS: u64 = 0x3fb9_9999_9999_999a;

/// The bits of 1e-12, under which a sum of squares is too small to divide by.
pub const TINY_BITS: u64 = 0x3d71_9799_812d_ea11;

/// The bits of 0.01, the least alpha.
pub const MIN_ALPHA_BITS: u64 = 0x3f84_7ae1_47ae_147b;

/// The bits of 5, the least weight of a reliable calibration.
pub const FIVE_BITS: u64 = 0x4014_0000_0000_0000;

/// The bits of a million, the volume of a day before it is known.
pub const DAILY_VOLUME_BITS: u64 = 0x412e_8480_0000_0000;

/// The bits of 1e-9, under which a price is too small to divide by.
pub const SMALL_PRICE_BITS: u64 = 0x3e11_2e0b_e826_d695;

/// Observations that a calibration needs.
pub const MIN_OBSERVATIONS: usize = 10;

/// Configuration for the square-root impact model
#[derive(Debug, Clone, Copy, PartialEq, Eq, Structural)]
pub struct SquareRootConfig {
    /// Number of recent trades to use for calibration
    pub calibration_window: usize,
    /// Minimum volume threshold for considering a trade
    pub min_trade_volume: u64,
    /// Decay factor for exponential weighting
    pub decay_factor: u64,
    /// Default alpha when insufficient data
    pub default_alpha: u64,
}

impl Default for SquareRootConfig {
    fn default() -> (c: Self)
        ensures
            c == (SquareRootConfig {
                calibration_window: 100,
                min_trade_volume: 1000,
                decay_factor: DECAY_BITS,
                default_alpha: ALPHA_BITS,
            }),
    {
        Self {
            calibration_window: 100,
            min_trade_volume: 1000,
            decay_factor: DECAY_BITS,
            default_alpha: ALPHA_BITS,
        }
    }
}

/// Represents an observed trade for calibration
#[derive(Debug, Clone, Copy, PartialEq, Eq, Structural)]
pub struct TradeObservation {
    /// Trade volume (absolute value)
    pub volume: u64,
    /// Price before trade
    pub price_before: u64,
    /// Price after trade
    pub price_after: u64,
    /// Direction: 1 for buy, -1 for sell
    pub direction: i8,
    /// Timestamp (nanoseconds)
    pub timestamp_ns: u64,
}

impl TradeObservation {
    pub fn new(
        volume: u64,
        price_before: u64,
        price_after: u64,
        is_buy: bool,
        timestamp_ns: u64,
    ) -> (o: Self)
        ensures
            o == (TradeObservation {
                volume,
                price_before,
                price_after,
                direction: if is_buy {
                    1i8
                } else {
                    -1i8
                },
                timestamp_ns,
            }),
    {
        Self {
            volume,
            price_before,
            price_after,
            direction: if is_buy {
                1
            } else {
                -1
            },
            timestamp_ns,
        }
    }

    /// Observed impact in basis points, as a share of the mid price; none where that is too small
    pub fn observed_impact_bps(mid_price: u64, impact_bps: u64) -> (r: u64)
        ensures
            r == if crate::doubles::greater(SMALL_PRICE_BITS, mid_price) {
                ZERO
            } else {
                impact_bps
            },
    {
        if above(SMALL_PRICE_BITS, mid_price) {
            ZERO
        } else {
            impact_bps
        }
    }
}

/// What becomes of an observation
#[derive(Debug, Clone, Copy, PartialEq, Eq, Structural)]
pub enum Observed {
    /// Its volume is too small
    Ignored,
    /// It is taken, and nothing leaves
    Taken,
    /// It is taken, and the oldest leaves
    Replaced(TradeObservation),
}

/// The observations after one more.
pub open spec fn observed(
    config: SquareRootConfig,
    window: Seq<TradeObservation>,
    obs: TradeObservation,
) -> Seq<TradeObservation> {
    if obs.volume < config.min_trade_volume {
        window
    } else if window.len() >= config.calibration_window && window.len() > 0 {
        window.skip(1).push(obs)
    } else {
        window.push(obs)
    }
}

/// What becomes of an observation.
pub open spec fn outcome(
    config: SquareRootConfig,
    window: Seq<TradeObservation>,
    obs: TradeObservation,
) -> Observed {
    if obs.volume < config.min_trade_volume {
        Observed::Ignored
    } else if window.len() >= config.calibration_window && window.len() > 0 {
        Observed::Replaced(window[0])
    } else {
        Observed::Taken
    }
}

/// Square-root market impact model with real-time calibration
#[derive(Debug)]
pub struct SquareRootImpactModel {
    pub config: SquareRootConfig,
    pub observations: VecDeque<TradeObservation>,
    /// Current calibrated alpha coefficient
    pub current_alpha: u64,
    /// Volume of a day, that volumes are normalized by
    pub avg_daily_volume: u64,
}

/// The impact of an order of so much volume: none of an empty one, against the price for a buy.
pub open spec fn signed_impact(order_volume: u64, is_buy: bool, size: u64) -> u64 {
    if order_volume == 0 {
        ZERO
    } else if is_buy {
        size
    } else {
        crate::doubles::negative(size)
    }
}

impl SquareRootImpactModel {
    pub fn new(config: SquareRootConfig) -> (m: Self)
        ensures
            m.config == config,
            m.observations@ == Seq::<TradeObservation>::empty(),
            m.current_alpha == config.default_alpha,
            m.avg_daily_volume == DAILY_VOLUME_BITS,
    {
        Self {
            config,
            observations: VecDeque::new(),
            current_alpha: config.default_alpha,
            avg_daily_volume: DAILY_VOLUME_BITS,
        }
    }

    /// Add a new trade observation
    ///
    /// Says what becomes of it: where it is taken the sums have to learn it, and to forget the one
    /// that leaves.
    pub fn add_observation(&mut self, obs: TradeObservation) -> (r: Observed)
        ensures
            final(self).observations@ == observed(old(self).config, old(self).observations@, obs),
            r == outcome(old(self).config, old(self).observations@, obs),
            final(self).config == old(self).config,
            final(self).current_alpha == old(self).current_alpha,
            final(self).avg_daily_volume == old(self).avg_daily_volume,
    {
        if obs.volume < self.config.min_trade_volume {
            return Observed::Ignored;
        }
        let mut r = Observed::Taken;
        if self.observations.len() >= self.config.calibration_window {
            if let Some(oldest) = self.observations.pop_front() {
                r = Observed::Replaced(oldest);
            }
        }
        self.observations.push_back(obs);
        assert(self.observations@ =~= observed(old(self).config, old(self).observations@, obs));
        r
    }

    /// The alpha that sums give: the quotient between its bounds, or the default where the sum of
    /// squares or the weight is too small.
    pub open spec fn calibrated(
        &self,
        sum_of_squares: u64,
        total_weight: u64,
        quotient: u64,
    ) -> u64 {
        if crate::doubles::greater(TINY_BITS, sum_of_squares) || crate::doubles::greater(
            ONE_BITS,
            total_weight,
        ) {
            self.config.default_alpha
        } else {
            crate::doubles::between(quotient, MIN_ALPHA_BITS, ONE_BITS)
        }
    }

    /// Recalibrates from the sum of squares, the weight and the quotient of the sums
    pub fn recalibrate(&mut self, sum_of_squares: u64, total_weight: u64, quotient: u64)
        ensures
            final(self).current_alpha == old(self).calibrated(
                sum_of_squares,
                total_weight,
                quotient,
            ),
            final(self).config == old(self).config,
            final(self).observations == old(self).observations,
            final(self).avg_daily_volume == old(self).avg_daily_volume,
    {
        if above(TINY_BITS, sum_of_squares) || above(ONE_BITS, total_weight) {
            self.current_alpha = self.config.default_alpha;
        } else {
            self.current_alpha = clamped(quotient, MIN_ALPHA_BITS, ONE_BITS);
        }
    }

    /// Predicted market impact of an order, for what the square-root law gives of its volume
    pub fn predict_impact(&self, order_volume: u64, is_buy: bool, size: u64) -> (impact: u64)
        ensures
            impact == signed_impact(order_volume, is_buy, size),
    {
        if order_volume == 0 {
            ZERO
        } else if is_buy {
            size
        } else {
            negated(size)
        }
    }

    /// Update the average daily volume estimate; one that is not positive is ignored
    pub fn update_avg_daily_volume(&mut self, volume: u64)
        ensures
            *final(self) == (SquareRootImpactModel {
                avg_daily_volume: if crate::doubles::greater(volume, ZERO) {
                    volume
                } else {
                    old(self).avg_daily_volume
                },
                ..*old(self)
            }),
    {
        if above(volume, ZERO) {
            self.avg_daily_volume = volume;
        }
    }

    /// Get the current calibrated alpha
    pub fn alpha(&self) -> (a: u64)
        ensures
            a == self.current_alpha,
    {
        self.current_alpha
    }

    /// Get the number of observations used for calibration
    pub fn observation_count(&self) -> (n: usize)
        ensures
            n == self.observations@.len(),
    {
        self.observations.len()
    }

    /// Check if we have enough data for reliable calibration, of so much weight
    pub fn is_calibrated(&self, total_weight: u64) -> (r: bool)
        ensures
            r == (self.observations@.len() >= MIN_OBSERVATIONS && crate::doubles::no_less(
                total_weight,
                FIVE_BITS,
            )),
    {
        self.observations.len() >= MIN_OBSERVATIONS && at_least(total_weight, FIVE_BITS)
    }

    /// The price after an order, for the price raised and lowered by its impact
    pub fn predict_execution_price(is_buy: bool, raised: u64, lowered: u64) -> (price: u64)
        ensures
            price == if is_buy {
                raised
            } else {
                lowered
            },
    {
        if is_buy {
            raised
        } else {
            lowered
        }
    }

    /// The parts of the confidence in the calibration: how much of the window is filled, at most all
    /// of it, and the weight, at most ten
    pub fn confidence(&self, filled: u64, total_weight: u64) -> (r: (u64, u64))
        ensures
            r.0 == crate::doubles::between(filled, ZERO, ONE_BITS),
            r.1 == crate::doubles::min_of(total_weight, TEN_BITS),
    {
        (clamped(filled, ZERO, ONE_BITS), smaller(total_weight, TEN_BITS))
    }

    /// Reset the calibrator
    pub fn reset(&mut self)
        ensures
            final(self).config == old(self).config,
            final(self).observations@ == Seq::<TradeObservation>::empty(),
            final(self).current_alpha == old(self).config.default_alpha,
            final(self).avg_daily_volume == old(self).avg_daily_volume,
    {
        self.observations.clear();
        self.current_alpha = self.config.default_alpha;
    }
}

/// Batch impact calculator for large orders
#[derive(Debug, Clone, Copy, PartialEq, Eq, Structural)]
pub struct BatchImpactCalculator;

impl BatchImpactCalculator {
    /// The volume of each of some slices of an order, none where there are no slices
    pub fn slice_volume(total_volume: u64, num_slices: u32) -> (r: Option<u64>)
        ensures
            r == if num_slices == 0 {
                None
            } else {
                Some((total_volume as int / num_slices as int) as u64)
            },
    {
        if num_slices == 0 {
            None
        } else {
            let slice: u64 = total_volume / num_slices as u64;
            Some(slice)
        }
    }

    /// Find optimal number of slices to minimize impact
    ///
    /// `impacts` holds what one slice costs, two slices, and so on, as the bits of doubles that are
    /// not negative, which order as the doubles do.
    pub fn optimal_slices(impacts: &[u64]) -> (n: usize)
        ensures
            impacts@.len() == 0 ==> n == 1,
            impacts@.len() > 0 ==> {
                &&& 1 <= n <= impacts@.len()
                &&& forall|i: int| 0 <= i < impacts@.len() ==> impacts@[n - 1] <= #[trigger] impacts@[i]
                &&& forall|i: int| 0 <= i < n - 1 ==> impacts@[n - 1] < #[trigger] impacts@[i]
            },
    {
        if impacts.len() == 0 {
            return 1;
        }
        let mut best: usize = 0;
        let mut i: usize = 1;
        while i < impacts.len()
            invariant
                best < i <= impacts@.len(),
                forall|j: int| 0 <= j < i ==> impacts@[best as int] <= #[trigger] impacts@[j],
                forall|j: int| 0 <= j < best ==> impacts@[best as int] < #[trigger] impacts@[j],
            decreases impacts.len() - i,
        {
            if impacts[i] < impacts[best] {
                best = i;
            }
            i = i + 1;
        }
        best + 1
    }
}

/// A calibrated alpha lies between its bounds, unless it is the default.
pub proof fn law_alpha_is_bounded(
    model: SquareRootImpactModel,
    sum_of_squares: u64,
    total_weight: u64,
    quotient: u64,
)
    requires
        !crate::doubles::is_nan(quotient),
    ensures
        ({
            let alpha = model.calibrated(sum_of_squares, total_weight, quotient);
            alpha == model.config.default_alpha || (crate::doubles::no_less(alpha, MIN_ALPHA_BITS)
                && crate::doubles::no_less(ONE_BITS, alpha))
        }),
{
}

/// A sell moves the price as far as a buy of its volume, the other way.
pub proof fn law_impact_follows_the_side(order_volume: u64, size: u64)
    ensures
        crate::doubles::size_of(signed_impact(order_volume, true, size))
            == crate::doubles::size_of(signed_impact(order_volume, false, size)),
        order_volume > 0 ==> signed_impact(order_volume, false, size)
            == crate::doubles::negative(signed_impact(order_volume, true, size)),
{
}

/// A window never grows past its size, and past one where that is zero.
pub proof fn law_window_is_bounded(
    config: SquareRootConfig,
    window: Seq<TradeObservation>,
    obs: TradeObservation,
)
    requires
        window.len() <= config.calibration_window || window.len() <= 1,
    ensures
        observed(config, window, obs).len() <= config.calibration_window || observed(
            config,
            window,
            obs,
        ).len() <= 1,
{
}

/// Slices never come to more than the order, and leave out less than one unit each.
pub proof fn law_slices_fit_in_the_order(total_volume: u64, num_slices: u32)
    requires
        num_slices > 0,
    ensures
        (total_volume as int / num_slices as int) * num_slices <= total_volume,
        total_volume < (total_volume as int / num_slices as int) * num_slices + num_slices,
{
    vstd::arithmetic::div_mod::lemma_fundamental_div_mod(total_volume as int, num_slices as int);
    vstd::arithmetic::mul::lemma_mul_is_commutative(
        num_slices as int,
        total_volume as int / num_slices as int,
    );
}

/// A trade below the least volume is passed over; any other comes in last, and once the window is
/// full the oldest leaves for it and is told of.
pub proof fn law_window_takes_large_trades(
    config: SquareRootConfig,
    window: Seq<TradeObservation>,
    obs: TradeObservation,
)
    requires
        config.calibration_window > 0,
    ensures
        ({
            let after = observed(config, window, obs);
            let full = window.len() >= config.calibration_window;
            match outcome(config, window, obs) {
                Observed::Ignored => obs.volume < config.min_trade_volume && after == window,
                Observed::Taken => obs.volume >= config.min_trade_volume && !full && after.len()
                    == window.len() + 1 && after.last() == obs && after.drop_last() == window,
                Observed::Replaced(oldest) => obs.volume >= config.min_trade_volume && full && oldest
                    == window[0] && after.len() == window.len() && after.last() == obs
                    && after.drop_last() == window.skip(1),
            }
        }),
{
    let after = observed(config, window, obs);
    if obs.volume >= config.min_trade_volume {
        if window.len() >= config.calibration_window {
            assert(after.drop_last() =~= window.skip(1));
        } else {
            assert(after.drop_last() =~= window);
        }
    }
}

/// A purchase raises the price and a sale lowers it; an order for nothing does neither.
pub proof fn law_purchases_raise_the_price(order_volume: u64, size: u64)
    requires
        crate::doubles::greater(size, ZERO),
    ensures
        order_volume > 0 ==> signed_impact(order_volume, true, size) == size,
        order_volume > 0 ==> crate::doubles::greater(
            ZERO,
            signed_impact(order_volume, false, size),
        ),
        signed_impact(0, true, size) == ZERO,
        signed_impact(0, false, size) == ZERO,
{
}

/// The coefficient is the quotient of the calibration, held between a hundredth and one, wherever
/// there is enough to calibrate from, and the usual one otherwise.
pub proof fn law_alpha_is_the_quotient_within_its_bounds(
    model: SquareRootImpactModel,
    sum_of_squares: u64,
    total_weight: u64,
    quotient: u64,
)
    requires
        crate::doubles::is_finite(sum_of_squares),
        crate::doubles::is_finite(total_weight),
        crate::doubles::is_finite(quotient),
    ensures
        ({
            let alpha = model.calibrated(sum_of_squares, total_weight, quotient);
            let enough = crate::doubles::units(sum_of_squares) >= crate::doubles::units(TINY_BITS)
                && crate::doubles::units(total_weight) >= crate::doubles::units(ONE_BITS);
            let (q, least, most) = (
                crate::doubles::units(quotient),
                crate::doubles::units(MIN_ALPHA_BITS),
                crate::doubles::units(ONE_BITS),
            );
            &&& !enough ==> alpha == model.config.default_alpha
            &&& enough && least <= q <= most ==> alpha == quotient
            &&& enough && q < least ==> alpha == MIN_ALPHA_BITS
            &&& enough && q > most ==> alpha == ONE_BITS
        }),
{
    crate::doubles::law_values_are_ordered(TINY_BITS, sum_of_squares);
    crate::doubles::law_values_are_ordered(ONE_BITS, total_weight);
    crate::doubles::law_values_are_ordered(MIN_ALPHA_BITS, quotient);
    crate::doubles::law_values_are_ordered(quotient, ONE_BITS);
    crate::doubles::lemma_units_at(MIN_ALPHA_BITS, 0x3f8, 0x4_7ae1_47ae_147b);
    crate::doubles::law_values_are_ordered(MIN_ALPHA_BITS, ONE_BITS);
}

} // verus!
