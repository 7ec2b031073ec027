//! An order that follows the market's volume. Quantities stand as the bits of doubles.
use crate::doubles::{above, at_least, larger, smaller, ZERO};
use crate::execution::maker_taker::Side;
use crate::execution::pov::rate_valid;
use vstd::prelude::*;

verus! {

/// The bits of 0.25.
pub const MAX_PARTICIPATION: u64 = 0x3fd0_0000_0000_0000;

/// The bits of 0.001.
pub const MIN_ORDER_SIZE: u64 = 0x3f50_624d_d2f1_a9fc;

/// Error types for VWAP execution
#[derive(Debug, Clone, Copy, PartialEq, Eq, Structural)]
pub enum VwapError {
    InvalidQuantity,
    InvalidProfile,
    NotStarted,
    OrderCompleted,
}

/// Historical volume bucket
#[derive(Debug, Clone, Copy, PartialEq, Eq, Structural)]
pub struct VolumeBucket {
    pub time_offset_secs: u64,
    pub avg_volume: u64,
    pub std_dev: u64,
}

/// VWAP execution parameters
#[derive(Debug)]
pub struct VwapParams {
    pub total_quantity: u64,
    pub volume_profile: Vec<VolumeBucket>,
    pub participation_rate: u64,
    pub max_participation: u64,
    pub min_order_size: u64,
}

/// Why parameters are refused, if they are.
pub open spec fn params_error(total_quantity: u64, participation_rate: u64) -> Option<VwapError> {
    if crate::doubles::no_less(ZERO, total_quantity) {
        Some(VwapError::InvalidQuantity)
    } else if !crate::execution::pov::is_rate(participation_rate) {
        Some(VwapError::InvalidProfile)
    } else {
        None
    }
}

impl VwapParams {
    /// The parameters, without the profile.
    pub open spec fn holds(&self, total_quantity: u64, participation_rate: u64) -> bool {
        &&& self.total_quantity == total_quantity
        &&& self.participation_rate == participation_rate
        &&& self.max_participation == MAX_PARTICIPATION
        &&& self.min_order_size == MIN_ORDER_SIZE
    }

    pub fn new(total_quantity: u64, participation_rate: u64) -> (r: Result<Self, VwapError>)
        ensures
            match r {
                Ok(p) => params_error(total_quantity, participation_rate) is None && p.holds(
                    total_quantity,
                    participation_rate,
                ) && p.volume_profile@.len() == 0,
                Err(e) => params_error(total_quantity, participation_rate) == Some(e),
            },
    {
        if at_least(ZERO, total_quantity) {
            return Err(VwapError::InvalidQuantity);
        }
        if !rate_valid(participation_rate) {
            return Err(VwapError::InvalidProfile);
        }
        Ok(
            Self {
                total_quantity,
                volume_profile: Vec::new(),
                participation_rate,
                max_participation: MAX_PARTICIPATION,
                min_order_size: MIN_ORDER_SIZE,
            },
        )
    }

    pub fn with_profile(
        total_quantity: u64,
        profile: Vec<VolumeBucket>,
        participation: u64,
    ) -> (r: Result<Self, VwapError>)
        ensures
            match r {
                Ok(p) => params_error(total_quantity, participation) is None && p.holds(
                    total_quantity,
                    participation,
                ) && p.volume_profile == profile,
                Err(e) => params_error(total_quantity, participation) == Some(e),
            },
    {
        match Self::new(total_quantity, participation) {
            Ok(p) => Ok(
                Self {
                    total_quantity: p.total_quantity,
                    volume_profile: profile,
                    participation_rate: p.participation_rate,
                    max_participation: p.max_participation,
                    min_order_size: p.min_order_size,
                },
            ),
            Err(e) => Err(e),
        }
    }
}

/// VWAP child order
#[derive(Debug, Clone, Copy, PartialEq, Eq, Structural)]
pub struct VwapChildOrder {
    pub target_quantity: u64,
    pub market_volume: u64,
    pub executed_quantity: u64,
    pub average_price: u64,
    pub timestamp: u64,
}

/// New market volume, with the shares of it that the rates give and the volume that was seen, with
/// it
#[derive(Debug, Clone, Copy, PartialEq, Eq, Structural)]
pub struct VolumeStep {
    pub market_volume: u64,
    pub share: u64,
    pub largest_share: u64,
    pub seen: u64,
    /// In milliseconds
    pub timestamp: u64,
}

/// What a fill makes of an order: what was executed and its value, with the fill, and what is left
/// without it
#[derive(Debug, Clone, Copy, PartialEq, Eq, Structural)]
pub struct FillSums {
    pub executed_quantity: u64,
    pub executed_value: u64,
    pub remaining_quantity: u64,
}

/// VWAP execution engine
#[derive(Debug)]
pub struct VwapEngine {
    pub params: VwapParams,
    pub side: Side,
    pub remaining_quantity: u64,
    pub executed_quantity: u64,
    pub executed_value: u64,
    pub total_market_volume: u64,
    pub started: bool,
    pub completed: bool,
    pub current_bucket: u64,
}

impl VwapEngine {
    pub fn new(params: VwapParams, side: Side) -> (e: Self)
        ensures
            e == (VwapEngine {
                params,
                side,
                remaining_quantity: params.total_quantity,
                executed_quantity: ZERO,
                executed_value: ZERO,
                total_market_volume: ZERO,
                started: false,
                completed: false,
                current_bucket: 0,
            }),
    {
        let remaining_quantity: u64 = params.total_quantity;
        Self {
            params,
            side,
            remaining_quantity,
            executed_quantity: ZERO,
            executed_value: ZERO,
            total_market_volume: ZERO,
            started: false,
            completed: false,
            current_bucket: 0,
        }
    }

    /// Starts the order; it is started once.
    pub fn start(&mut self) -> (r: Result<(), VwapError>)
        ensures
            r == if old(self).started {
                Err(VwapError::NotStarted)
            } else {
                Ok(())
            },
            *final(self) == (VwapEngine { started: true, ..*old(self) }),
    {
        if self.started {
            return Err(VwapError::NotStarted);
        }
        self.started = true;
        Ok(())
    }

    /// The share of the market's volume that is aimed at: no more than the largest share, and no
    /// less than the smallest order.
    pub open spec fn target_of(&self, share: u64, largest_share: u64) -> u64 {
        crate::doubles::max_of(
            crate::doubles::min_of(share, largest_share),
            self.params.min_order_size,
        )
    }

    /// Calculate target quantity from the shares of the market's volume
    pub fn calculate_target(&self, share: u64, largest_share: u64) -> (q: u64)
        ensures
            q == self.target_of(share, largest_share),
    {
        larger(smaller(share, largest_share), self.params.min_order_size)
    }

    /// Update with market volume and get target order size
    ///
    /// Nothing comes back where the order is not running, or where nothing is left, which completes
    /// it.
    pub fn update_market_volume(&mut self, step: VolumeStep) -> (r: Option<VwapChildOrder>)
        ensures
            ({
                let running = old(self).started && !old(self).completed;
                let nothing = crate::doubles::no_less(ZERO, old(self).remaining_quantity);
                &&& r == if running && !nothing {
                    Some(
                        VwapChildOrder {
                            target_quantity: crate::doubles::min_of(
                                old(self).target_of(step.share, step.largest_share),
                                old(self).remaining_quantity,
                            ),
                            market_volume: step.market_volume,
                            executed_quantity: ZERO,
                            average_price: ZERO,
                            timestamp: step.timestamp,
                        },
                    )
                } else {
                    None
                }
                &&& *final(self) == (VwapEngine {
                    completed: old(self).completed || (running && nothing),
                    total_market_volume: if r is Some {
                        step.seen
                    } else {
                        old(self).total_market_volume
                    },
                    current_bucket: if r is Some {
                        old(self).current_bucket.wrapping_add(1)
                    } else {
                        old(self).current_bucket
                    },
                    ..*old(self)
                })
            }),
    {
        if !self.started || self.completed {
            return None;
        }
        if at_least(ZERO, self.remaining_quantity) {
            self.completed = true;
            return None;
        }
        let target: u64 = self.calculate_target(step.share, step.largest_share);
        let target_quantity: u64 = smaller(target, self.remaining_quantity);
        self.total_market_volume = step.seen;
        self.current_bucket = self.current_bucket.wrapping_add(1);
        Some(
            VwapChildOrder {
                target_quantity,
                market_volume: step.market_volume,
                executed_quantity: ZERO,
                average_price: ZERO,
                timestamp: step.timestamp,
            },
        )
    }

    /// How much of a quantity is filled, no more than is left
    pub fn actual_fill(&self, quantity: u64) -> (q: u64)
        ensures
            q == crate::doubles::min_of(quantity, self.remaining_quantity),
    {
        smaller(quantity, self.remaining_quantity)
    }

    /// Report fill of a quantity, and what it makes of the order
    pub fn report_fill(&mut self, quantity: u64, sums: FillSums) -> (r: Result<(), VwapError>)
        ensures
            r == if crate::doubles::no_less(ZERO, quantity) {
                Err(VwapError::InvalidQuantity)
            } else {
                Ok(())
            },
            *final(self) == if r is Err {
                *old(self)
            } else {
                VwapEngine {
                    executed_quantity: sums.executed_quantity,
                    executed_value: sums.executed_value,
                    remaining_quantity: sums.remaining_quantity,
                    completed: old(self).completed || crate::doubles::no_less(
                        ZERO,
                        sums.remaining_quantity,
                    ),
                    ..*old(self)
                }
            },
    {
        if at_least(ZERO, quantity) {
            return Err(VwapError::InvalidQuantity);
        }
        self.executed_quantity = sums.executed_quantity;
        self.executed_value = sums.executed_value;
        self.remaining_quantity = sums.remaining_quantity;
        if at_least(ZERO, sums.remaining_quantity) {
            self.completed = true;
        }
        Ok(())
    }

    pub fn is_complete(&self) -> (r: bool)
        ensures
            r == self.completed,
    {
        self.completed
    }

    /// Get VWAP progress, for what the quotients of the sums come to; a quotient counts where its
    /// divisor is above zero
    pub fn get_progress(&self, quotients: ProgressQuotients) -> (p: VwapProgress)
        ensures
            p == (VwapProgress {
                executed_quantity: self.executed_quantity,
                remaining_quantity: self.remaining_quantity,
                average_price: if crate::doubles::greater(self.executed_quantity, ZERO) {
                    quotients.average_price
                } else {
                    ZERO
                },
                market_vwap: if crate::doubles::greater(self.total_market_volume, ZERO) {
                    quotients.market_vwap
                } else {
                    ZERO
                },
                participation_rate: if crate::doubles::greater(self.total_market_volume, ZERO) {
                    quotients.participation_rate
                } else {
                    ZERO
                },
                is_complete: self.completed,
            }),
    {
        let traded = above(self.total_market_volume, ZERO);
        VwapProgress {
            executed_quantity: self.executed_quantity,
            remaining_quantity: self.remaining_quantity,
            average_price: if above(self.executed_quantity, ZERO) {
                quotients.average_price
            } else {
                ZERO
            },
            market_vwap: if traded {
                quotients.market_vwap
            } else {
                ZERO
            },
            participation_rate: if traded {
                quotients.participation_rate
            } else {
                ZERO
            },
            is_complete: self.completed,
        }
    }

    pub fn cancel(&mut self)
        ensures
            *final(self) == (VwapEngine { completed: true, ..*old(self) }),
    {
        self.completed = true;
    }
}

/// Quotients of what was executed
#[derive(Debug, Clone, Copy, PartialEq, Eq, Structural)]
pub struct ProgressQuotients {
    /// Value over quantity
    pub average_price: u64,
    /// Value over a quantity of at least one
    pub market_vwap: u64,
    /// Quantity over the market's volume
    pub participation_rate: u64,
}

#[derive(Debug, Clone, Copy, PartialEq, Eq, Structural)]
pub struct VwapProgress {
    pub executed_quantity: u64,
    pub remaining_quantity: u64,
    pub average_price: u64,
    pub market_vwap: u64,
    pub participation_rate: u64,
    pub is_complete: bool,
}

impl VwapProgress {
    /// Get average fill price, none where nothing is filled
    pub fn average_price(&self) -> (r: Option<u64>)
        ensures
            r == if crate::doubles::greater(self.executed_quantity, ZERO) {
                Some(self.average_price)
            } else {
                None
            },
    {
        if above(self.executed_quantity, ZERO) {
            Some(self.average_price)
        } else {
            None
        }
    }
}

/// A child order never asks for more than is left.
pub proof fn law_child_order_is_bounded(engine: VwapEngine, share: u64, largest_share: u64)
    requires
        !crate::doubles::is_nan(engine.remaining_quantity),
    ensures
        crate::doubles::no_less(
            engine.remaining_quantity,
            crate::doubles::min_of(
                engine.target_of(share, largest_share),
                engine.remaining_quantity,
            ),
        ),
{
}

/// What is aimed at is the share of the volume wherever that is no more than the largest share and
/// no less than the smallest order; otherwise it is the one of these that it exceeds or falls short
/// of, the smallest order last.
pub proof fn law_target_is_the_share_within_its_bounds(
    engine: VwapEngine,
    share: u64,
    largest_share: u64,
)
    requires
        crate::doubles::is_finite(share),
        crate::doubles::is_finite(largest_share),
        crate::doubles::is_finite(engine.params.min_order_size),
    ensures
        ({
            let s = crate::doubles::units(share);
            let most = crate::doubles::units(largest_share);
            let least = crate::doubles::units(engine.params.min_order_size);
            let target = engine.target_of(share, largest_share);
            &&& least <= s <= most ==> crate::doubles::units(target) == s
            &&& s <= most && s < least ==> crate::doubles::units(target) == least
            &&& s > most && most >= least ==> crate::doubles::units(target) == most
            &&& s > most && most < least ==> crate::doubles::units(target) == least
        }),
{
    crate::doubles::law_values_are_ordered(share, largest_share);
    crate::doubles::law_values_are_ordered(engine.params.min_order_size, share);
    crate::doubles::law_values_are_ordered(engine.params.min_order_size, largest_share);
}

/// Parameters are refused exactly where the quantity is not above zero, or the rate is not above
/// zero and at most one.
pub proof fn law_parameters_are_positive(total_quantity: u64, participation_rate: u64)
    requires
        crate::doubles::is_finite(total_quantity),
        crate::doubles::is_finite(participation_rate),
    ensures
        params_error(total_quantity, participation_rate) == Some(VwapError::InvalidQuantity)
            <==> crate::doubles::units(total_quantity) <= 0,
        params_error(total_quantity, participation_rate) == Some(VwapError::InvalidProfile) <==> (
        crate::doubles::units(total_quantity) > 0 && !(0 < crate::doubles::units(participation_rate)
            <= crate::doubles::units(0x3ff0_0000_0000_0000))),
        params_error(total_quantity, participation_rate) is None <==> (crate::doubles::units(
            total_quantity,
        ) > 0 && 0 < crate::doubles::units(participation_rate) <= crate::doubles::units(
            0x3ff0_0000_0000_0000,
        )),
{
    crate::doubles::law_values_are_ordered(ZERO, total_quantity);
    crate::execution::pov::law_rate_is_a_positive_share(participation_rate);
}

} // verus!
