//! An order that takes a fixed share of the market's volume. Quantities stand as the bits of doubles.
use crate::doubles::{above, at_least, smaller, ZERO};
use vstd::prelude::*;

verus! {

/// The bits of one.
pub const ONE: u64 = 0x3ff0_0000_0000_0000;

#[derive(Debug, Clone, Copy, PartialEq, Eq, Structural)]
pub enum PovError {
    InvalidRate,
    InvalidQuantity,
}

/// True of a rate above zero and at most one.
pub open spec fn is_rate(rate: u64) -> bool {
    !crate::doubles::no_less(ZERO, rate) && !crate::doubles::greater(rate, ONE)
}

/// True of a rate above zero and at most one
pub fn rate_valid(rate: u64) -> (r: bool)
    ensures
        r == is_rate(rate),
{
    !at_least(ZERO, rate) && !above(rate, ONE)
}

/// Order by share of volume
#[derive(Debug, Clone, Copy, PartialEq, Eq, Structural)]
pub struct PovEngine {
    pub target_participation: u64,
    pub remaining_quantity: u64,
    pub executed_quantity: u64,
    pub market_volume_seen: u64,
    pub started: bool,
    pub completed: bool,
}

impl PovEngine {
    /// An order that is not started
    pub fn new(total_quantity: u64, participation_rate: u64) -> (r: Result<Self, PovError>)
        ensures
            r == if !is_rate(participation_rate) {
                Err(PovError::InvalidRate)
            } else if crate::doubles::no_less(ZERO, total_quantity) {
                Err(PovError::InvalidQuantity)
            } else {
                Ok(
                    PovEngine {
                        target_participation: participation_rate,
                        remaining_quantity: total_quantity,
                        executed_quantity: ZERO,
                        market_volume_seen: ZERO,
                        started: false,
                        completed: false,
                    },
                )
            },
    {
        if !rate_valid(participation_rate) {
            return Err(PovError::InvalidRate);
        }
        if at_least(ZERO, total_quantity) {
            return Err(PovError::InvalidQuantity);
        }
        Ok(
            Self {
                target_participation: participation_rate,
                remaining_quantity: total_quantity,
                executed_quantity: ZERO,
                market_volume_seen: ZERO,
                started: false,
                completed: false,
            },
        )
    }

    pub fn start(&mut self)
        ensures
            *final(self) == (PovEngine { started: true, ..*old(self) }),
    {
        self.started = true;
    }

    /// How much to order where the share of the market's volume is `target`: no more than is left
    pub fn calculate_order_size(&self, target: u64) -> (size: u64)
        ensures
            size == crate::doubles::min_of(target, self.remaining_quantity),
    {
        smaller(target, self.remaining_quantity)
    }

    /// How much to order on new market volume, nothing where the order is not running. `target` is
    /// the share of that volume, `seen` the volume that was seen, with it. The order is complete
    /// where there is nothing to order.
    pub fn update(&mut self, target: u64, seen: u64) -> (r: Option<u64>)
        ensures
            ({
                let size = crate::doubles::min_of(target, old(self).remaining_quantity);
                let running = old(self).started && !old(self).completed;
                let nothing = crate::doubles::no_less(ZERO, size);
                &&& r == if running && !nothing {
                    Some(size)
                } else {
                    None
                }
                &&& *final(self) == (PovEngine {
                    completed: old(self).completed || (running && nothing),
                    market_volume_seen: if running && !nothing {
                        seen
                    } else {
                        old(self).market_volume_seen
                    },
                    ..*old(self)
                })
            }),
    {
        if !self.started || self.completed {
            return None;
        }
        let size: u64 = self.calculate_order_size(target);
        if at_least(ZERO, size) {
            self.completed = true;
            return None;
        }
        self.market_volume_seen = seen;
        Some(size)
    }

    /// How much of a quantity is filled: no more than is left
    pub fn actual_fill(&self, quantity: u64) -> (q: u64)
        ensures
            q == crate::doubles::min_of(quantity, self.remaining_quantity),
    {
        smaller(quantity, self.remaining_quantity)
    }

    /// Takes note of a fill, of what was executed with it and of what is left without it
    pub fn report_fill(&mut self, executed: u64, remaining: u64)
        ensures
            *final(self) == (PovEngine {
                executed_quantity: executed,
                remaining_quantity: remaining,
                completed: old(self).completed || crate::doubles::no_less(ZERO, remaining),
                ..*old(self)
            }),
    {
        self.executed_quantity = executed;
        self.remaining_quantity = remaining;
        if at_least(ZERO, remaining) {
            self.completed = true;
        }
    }

    pub fn is_complete(&self) -> (r: bool)
        ensures
            r == self.completed,
    {
        self.completed
    }
}

/// An order never asks for more than is left of it.
pub proof fn law_order_size_is_bounded(engine: PovEngine, target: u64)
    requires
        !crate::doubles::is_nan(target),
        !crate::doubles::is_nan(engine.remaining_quantity),
    ensures
        crate::doubles::no_less(
            engine.remaining_quantity,
            crate::doubles::min_of(target, engine.remaining_quantity),
        ),
        crate::doubles::no_less(
            target,
            crate::doubles::min_of(target, engine.remaining_quantity),
        ),
{
}

/// A rate is accepted exactly where it is above zero and at most one.
pub proof fn law_rate_is_a_positive_share(rate: u64)
    requires
        crate::doubles::is_finite(rate),
    ensures
        is_rate(rate) <==> 0 < crate::doubles::units(rate) <= crate::doubles::units(ONE),
        is_rate(ONE),
{
    crate::doubles::law_values_are_ordered(ZERO, rate);
    crate::doubles::law_values_are_ordered(rate, ONE);
}

} // verus!
