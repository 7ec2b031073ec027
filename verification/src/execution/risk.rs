//! Pre-trade risk limits and slippage limits. Sizes, notionals and slippage stand as the bits of
//! doubles.
use crate::doubles::{above, at_least, larger, negated, smaller, ONE_BITS, ZERO};
use crate::execution::maker_taker::Side;
use vstd::prelude::*;

verus! {

/// Pre-trade risk limits
#[derive(Debug, Clone, Copy, PartialEq, Eq, Structural)]
pub struct RiskLimits {
    pub max_order_size: u64,
    pub max_open_orders: usize,
    pub max_notional: u64,
    pub max_daily_volume: u64,
}

impl RiskLimits {
    pub fn new(
        max_order_size: u64,
        max_open_orders: usize,
        max_notional: u64,
        max_daily_volume: u64,
    ) -> (l: Self)
        ensures
            l == (RiskLimits { max_order_size, max_open_orders, max_notional, max_daily_volume }),
    {
        Self { max_order_size, max_open_orders, max_notional, max_daily_volume }
    }
}

/// Why an order is refused.
#[derive(Debug, Clone, Copy, PartialEq, Eq, Structural)]
pub enum RiskRefusal {
    TradingHalted,
    /// The size is above its limit
    OrderSize,
    /// The notional is above its limit
    Notional,
    /// As many orders are open as are allowed
    OpenOrders(usize),
}

#[derive(Debug, Clone, Copy, PartialEq, Eq, Structural)]
pub struct RiskCheckResult {
    pub allowed: bool,
    pub reason: Option<RiskRefusal>,
}

/// Pre-trade risk checker
#[derive(Debug, Clone, Copy, PartialEq, Eq, Structural)]
pub struct PreTradeRisk {
    pub limits: RiskLimits,
    /// In cents
    pub current_exposure: u64,
    pub open_orders: u64,
    /// In cents
    pub daily_volume: u64,
    pub halted: bool,
}

impl PreTradeRisk {
    /// Why an order is refused, if it is: the first reason that holds.
    pub open spec fn refusal(&self, size: u64, notional: u64) -> Option<RiskRefusal> {
        if self.halted {
            Some(RiskRefusal::TradingHalted)
        } else if crate::doubles::greater(size, self.limits.max_order_size) {
            Some(RiskRefusal::OrderSize)
        } else if crate::doubles::greater(notional, self.limits.max_notional) {
            Some(RiskRefusal::Notional)
        } else if self.open_orders >= self.limits.max_open_orders {
            Some(RiskRefusal::OpenOrders(self.limits.max_open_orders))
        } else {
            None
        }
    }

    pub fn new(limits: RiskLimits) -> (r: Self)
        ensures
            r == (PreTradeRisk {
                limits,
                current_exposure: 0,
                open_orders: 0,
                daily_volume: 0,
                halted: false,
            }),
    {
        Self { limits, current_exposure: 0, open_orders: 0, daily_volume: 0, halted: false }
    }

    /// Whether an order may be sent, and why not
    pub fn check_order(&self, size: u64, notional: u64) -> (r: RiskCheckResult)
        ensures
            r.reason == self.refusal(size, notional),
            r.allowed == (r.reason is None),
    {
        if self.halted {
            return RiskCheckResult { allowed: false, reason: Some(RiskRefusal::TradingHalted) };
        }
        if above(size, self.limits.max_order_size) {
            return RiskCheckResult { allowed: false, reason: Some(RiskRefusal::OrderSize) };
        }
        if above(notional, self.limits.max_notional) {
            return RiskCheckResult { allowed: false, reason: Some(RiskRefusal::Notional) };
        }
        if self.open_orders >= self.limits.max_open_orders as u64 {
            return RiskCheckResult {
                allowed: false,
                reason: Some(RiskRefusal::OpenOrders(self.limits.max_open_orders)),
            };
        }
        RiskCheckResult { allowed: true, reason: None }
    }

    pub fn record_order(&mut self, notional_cents: u64)
        ensures
            *final(self) == (PreTradeRisk {
                current_exposure: old(self).current_exposure.wrapping_add(notional_cents),
                open_orders: old(self).open_orders.wrapping_add(1),
                ..*old(self)
            }),
    {
        self.current_exposure = self.current_exposure.wrapping_add(notional_cents);
        self.open_orders = self.open_orders.wrapping_add(1);
    }

    pub fn record_fill(&mut self, volume_cents: u64)
        ensures
            *final(self) == (PreTradeRisk {
                daily_volume: old(self).daily_volume.wrapping_add(volume_cents),
                ..*old(self)
            }),
    {
        self.daily_volume = self.daily_volume.wrapping_add(volume_cents);
    }

    /// Takes an order out; no more is released than is exposed.
    pub fn release_order(&mut self, notional_cents: u64)
        ensures
            *final(self) == (PreTradeRisk {
                current_exposure: if notional_cents <= old(self).current_exposure {
                    (old(self).current_exposure - notional_cents) as u64
                } else {
                    0
                },
                open_orders: old(self).open_orders.wrapping_sub(1),
                ..*old(self)
            }),
    {
        self.current_exposure = if notional_cents <= self.current_exposure {
            self.current_exposure - notional_cents
        } else {
            0
        };
        self.open_orders = self.open_orders.wrapping_sub(1);
    }

    pub fn halt(&mut self)
        ensures
            *final(self) == (PreTradeRisk { halted: true, ..*old(self) }),
    {
        self.halted = true;
    }

    pub fn resume(&mut self)
        ensures
            *final(self) == (PreTradeRisk { halted: false, ..*old(self) }),
    {
        self.halted = false;
    }

    pub fn is_halted(&self) -> (r: bool)
        ensures
            r == self.halted,
    {
        self.halted
    }

    pub fn reset_daily(&mut self)
        ensures
            *final(self) == (PreTradeRisk { daily_volume: 0, ..*old(self) }),
    {
        self.daily_volume = 0;
    }
}

/// Releasing an order undoes recording it, but for its volume.
pub proof fn law_release_undoes_record(r: PreTradeRisk, notional_cents: u64)
    requires
        r.current_exposure + notional_cents <= u64::MAX,
    ensures
        ({
            let recorded = PreTradeRisk {
                current_exposure: r.current_exposure.wrapping_add(notional_cents),
                open_orders: r.open_orders.wrapping_add(1),
                ..r
            };
            &&& recorded.current_exposure - notional_cents == r.current_exposure
            &&& recorded.open_orders.wrapping_sub(1) == r.open_orders
        }),
{
}

/// Nothing is allowed while trading is halted.
pub proof fn law_halt_refuses_everything(r: PreTradeRisk, size: u64, notional: u64)
    requires
        r.halted,
    ensures
        r.refusal(size, notional) == Some(RiskRefusal::TradingHalted),
{
}

/// An order that is allowed keeps every limit.
pub proof fn law_allowed_order_keeps_the_limits(r: PreTradeRisk, size: u64, notional: u64)
    requires
        r.refusal(size, notional) is None,
    ensures
        !r.halted,
        !crate::doubles::greater(size, r.limits.max_order_size),
        !crate::doubles::greater(notional, r.limits.max_notional),
        r.open_orders < r.limits.max_open_orders,
{
}

#[derive(Debug, Clone, Copy, PartialEq, Eq, Structural)]
pub enum SlippageError {
    InvalidQueueSize,
    InvalidSpread,
}

/// Market impact model
#[derive(Debug, Clone, Copy, PartialEq, Eq, Structural)]
pub struct MarketImpactModel {
    pub queue_size: u64,
    pub spread_bps: u64,
    pub tick_size: u64,
    pub daily_volume: u64,
    pub volatility: u64,
}

impl MarketImpactModel {
    /// A model, where both the size of the queue and the spread are positive
    pub fn new(
        queue_size: u64,
        spread_bps: u64,
        tick_size: u64,
        daily_volume: u64,
        volatility: u64,
    ) -> (r: Result<Self, SlippageError>)
        ensures
            r == if crate::doubles::no_less(ZERO, queue_size) {
                Err(SlippageError::InvalidQueueSize)
            } else if crate::doubles::no_less(ZERO, spread_bps) {
                Err(SlippageError::InvalidSpread)
            } else {
                Ok(
                    MarketImpactModel {
                        queue_size,
                        spread_bps,
                        tick_size,
                        daily_volume,
                        volatility,
                    },
                )
            },
    {
        if at_least(ZERO, queue_size) {
            return Err(SlippageError::InvalidQueueSize);
        }
        if at_least(ZERO, spread_bps) {
            return Err(SlippageError::InvalidSpread);
        }
        Ok(Self { queue_size, spread_bps, tick_size, daily_volume, volatility })
    }

    /// The volume that an order is measured against: the daily one, at least one
    pub fn reference_volume(&self) -> (r: u64)
        ensures
            r == crate::doubles::max_of(self.daily_volume, ONE_BITS),
    {
        larger(self.daily_volume, ONE_BITS)
    }

    /// The part of the queue that an order takes, at most nine tenths
    pub fn queue_share(share: u64) -> (r: u64)
        ensures
            r == crate::doubles::min_of(share, LARGEST_QUEUE_SHARE),
    {
        smaller(share, LARGEST_QUEUE_SHARE)
    }

    /// Calculate optimal limit price offset, for the slippage that the queue leaves: below the price
    /// for a buyer, above it for a seller
    pub fn optimal_limit_offset(side: Side, base_offset: u64) -> (r: u64)
        ensures
            r == match side {
                Side::Buy => crate::doubles::negative(base_offset),
                Side::Sell => base_offset,
            },
    {
        match side {
            Side::Buy => negated(base_offset),
            Side::Sell => base_offset,
        }
    }

    /// The probability of a fill at an offset towards the other side of the book, for half of the
    /// spread and for what it comes to inside the spread and outside of it: never above one, and
    /// outside never below zero.
    pub open spec fn probability(offset: u64, fair_offset: u64, inside: u64, outside: u64) -> u64 {
        crate::doubles::min_of(
            if crate::doubles::no_less(offset, fair_offset) {
                inside
            } else {
                crate::doubles::max_of(outside, ZERO)
            },
            ONE_BITS,
        )
    }

    /// Probability of fill at given price level
    pub fn fill_probability(offset: u64, fair_offset: u64, inside: u64, outside: u64) -> (p: u64)
        ensures
            p == Self::probability(offset, fair_offset, inside, outside),
    {
        let p: u64 = if at_least(offset, fair_offset) {
            inside
        } else {
            larger(outside, ZERO)
        };
        smaller(p, ONE_BITS)
    }
}

/// The bits of 0.9, the largest part of the queue that an order takes.
pub const LARGEST_QUEUE_SHARE: u64 = 0x3fec_cccc_cccc_cccd;

/// The bits of 0.7, the confidence in an estimate.
pub const ESTIMATE_CONFIDENCE: u64 = 0x3fe6_6666_6666_6666;

/// What an order may slip
#[derive(Debug, Clone, Copy, PartialEq, Eq, Structural)]
pub struct SlippageEstimate {
    pub expected_slippage_bps: u64,
    pub worst_case_bps: u64,
    pub best_case_bps: u64,
    pub confidence: u64,
}

impl SlippageEstimate {
    /// An estimate, for what is expected, twice as much and half of it
    pub fn new(expected: u64, doubled: u64, halved: u64) -> (e: Self)
        ensures
            e == (SlippageEstimate {
                expected_slippage_bps: expected,
                worst_case_bps: doubled,
                best_case_bps: halved,
                confidence: ESTIMATE_CONFIDENCE,
            }),
    {
        Self {
            expected_slippage_bps: expected,
            worst_case_bps: doubled,
            best_case_bps: halved,
            confidence: ESTIMATE_CONFIDENCE,
        }
    }
}

#[derive(Debug, Clone, Copy, PartialEq, Eq, Structural)]
pub struct SlippageCheckResult {
    pub allowed: bool,
    pub estimated_slippage: u64,
    pub max_allowed: u64,
    pub headroom_bps: u64,
}

#[derive(Debug, Clone, Copy, PartialEq, Eq, Structural)]
pub struct SlippageStats {
    pub total_checks: u64,
    pub rejected_count: u64,
    pub rejection_rate: u64,
}

/// Pre-trade slippage checker
#[derive(Debug, Clone, Copy, PartialEq, Eq, Structural)]
pub struct SlippageChecker {
    pub max_slippage_bps: u64,
    pub check_count: u64,
    pub rejected_count: u64,
}

impl SlippageChecker {
    pub fn new(max_slippage_bps: u64) -> (c: Self)
        ensures
            c == (SlippageChecker { max_slippage_bps, check_count: 0, rejected_count: 0 }),
    {
        Self { max_slippage_bps, check_count: 0, rejected_count: 0 }
    }

    /// True where so much slippage is allowed: where it is not above the limit.
    pub open spec fn allows(&self, expected_slippage_bps: u64) -> bool {
        crate::doubles::no_less(self.max_slippage_bps, expected_slippage_bps)
    }

    /// Checks what an order may slip; `headroom` is the limit less what is expected
    pub fn check(&mut self, estimate: &SlippageEstimate, headroom: u64) -> (r: SlippageCheckResult)
        ensures
            r == (SlippageCheckResult {
                allowed: old(self).allows(estimate.expected_slippage_bps),
                estimated_slippage: estimate.expected_slippage_bps,
                max_allowed: old(self).max_slippage_bps,
                headroom_bps: headroom,
            }),
            *final(self) == (SlippageChecker {
                check_count: old(self).check_count.wrapping_add(1),
                rejected_count: if r.allowed {
                    old(self).rejected_count
                } else {
                    old(self).rejected_count.wrapping_add(1)
                },
                ..*old(self)
            }),
    {
        self.check_count = self.check_count.wrapping_add(1);
        let allowed = at_least(self.max_slippage_bps, estimate.expected_slippage_bps);
        if !allowed {
            self.rejected_count = self.rejected_count.wrapping_add(1);
        }
        SlippageCheckResult {
            allowed,
            estimated_slippage: estimate.expected_slippage_bps,
            max_allowed: self.max_slippage_bps,
            headroom_bps: headroom,
        }
    }

    /// What was checked; `rate` is the number of refusals over that of the checks
    pub fn get_stats(&self, rate: u64) -> (s: SlippageStats)
        ensures
            s == (SlippageStats {
                total_checks: self.check_count,
                rejected_count: self.rejected_count,
                rejection_rate: if self.check_count > 0 {
                    rate
                } else {
                    ZERO
                },
            }),
    {
        SlippageStats {
            total_checks: self.check_count,
            rejected_count: self.rejected_count,
            rejection_rate: if self.check_count > 0 {
                rate
            } else {
                ZERO
            },
        }
    }
}

/// The probability of a fill lies between zero and one.
pub proof fn law_probability_is_a_share(offset: u64, fair_offset: u64, inside: u64, outside: u64)
    requires
        crate::doubles::no_less(inside, ZERO),
    ensures
        crate::doubles::no_less(
            MarketImpactModel::probability(offset, fair_offset, inside, outside),
            ZERO,
        ),
        crate::doubles::no_less(
            ONE_BITS,
            MarketImpactModel::probability(offset, fair_offset, inside, outside),
        ),
{
}

/// An order is refused exactly where trading is halted, its size or its notional is above the
/// limit, or as many orders are open as are allowed; the first of these reasons is given.
pub proof fn law_order_is_refused_for_the_first_reason(r: PreTradeRisk, size: u64, notional: u64)
    requires
        !crate::doubles::is_nan(size),
        !crate::doubles::is_nan(notional),
        !crate::doubles::is_nan(r.limits.max_order_size),
        !crate::doubles::is_nan(r.limits.max_notional),
    ensures
        ({
            let large = crate::doubles::rank(size) > crate::doubles::rank(r.limits.max_order_size);
            let dear = crate::doubles::rank(notional) > crate::doubles::rank(r.limits.max_notional);
            let full = r.open_orders >= r.limits.max_open_orders;
            let found = r.refusal(size, notional);
            &&& found is None <==> !r.halted && !large && !dear && !full
            &&& found == Some(RiskRefusal::TradingHalted) <==> r.halted
            &&& found == Some(RiskRefusal::OrderSize) <==> !r.halted && large
            &&& found == Some(RiskRefusal::Notional) <==> !r.halted && !large && dear
            &&& found == Some(RiskRefusal::OpenOrders(r.limits.max_open_orders)) <==> !r.halted
                && !large && !dear && full
        }),
{
}

/// Slippage up to the limit is allowed, and no more; less slippage is never refused where more is
/// allowed.
pub proof fn law_slippage_up_to_the_limit_is_allowed(c: SlippageChecker, less: u64, more: u64)
    requires
        !crate::doubles::is_nan(c.max_slippage_bps),
        !crate::doubles::is_nan(less),
        !crate::doubles::is_nan(more),
        crate::doubles::rank(less) <= crate::doubles::rank(more),
    ensures
        c.allows(c.max_slippage_bps),
        c.allows(more) <==> crate::doubles::rank(more) <= crate::doubles::rank(c.max_slippage_bps),
        c.allows(more) ==> c.allows(less),
{
}

/// A fill is as probable as it comes to inside the spread, for an offset of at least half of it, and
/// otherwise as it comes to outside; neither is above one, and the latter not below zero.
pub proof fn law_fill_is_more_probable_inside_the_spread(
    offset: u64,
    fair_offset: u64,
    inside: u64,
    outside: u64,
)
    requires
        crate::doubles::is_finite(offset),
        crate::doubles::is_finite(fair_offset),
        crate::doubles::is_finite(inside),
        crate::doubles::is_finite(outside),
    ensures
        ({
            let p = crate::doubles::units(
                MarketImpactModel::probability(offset, fair_offset, inside, outside),
            );
            let one = crate::doubles::units(ONE_BITS);
            let within = crate::doubles::units(offset) >= crate::doubles::units(fair_offset);
            let (i, o) = (crate::doubles::units(inside), crate::doubles::units(outside));
            &&& within && i <= one ==> p == i
            &&& within && i > one ==> p == one
            &&& !within && 0 <= o <= one ==> p == o
            &&& !within && o > one ==> p == one
            &&& !within && o < 0 ==> p == 0
        }),
{
    crate::doubles::law_values_are_ordered(offset, fair_offset);
    crate::doubles::law_values_are_ordered(inside, ONE_BITS);
    crate::doubles::law_values_are_ordered(outside, ONE_BITS);
    crate::doubles::law_values_are_ordered(ZERO, outside);
    crate::doubles::law_values_are_ordered(ZERO, ONE_BITS);
}

} // verus!
