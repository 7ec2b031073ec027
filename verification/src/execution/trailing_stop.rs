//! Trailing stops: stop prices that follow the best price of a position.
use vstd::prelude::*;

verus! {

/// Trailing stop
#[derive(Debug, Clone, Copy, PartialEq, Eq, Structural)]
pub struct TrailingStopEngine {
    /// Current best price (in micro-units for precision)
    pub best_price: u64,
    /// Current stop price (in micro-units)
    pub stop_price: u64,
    /// Trailing distance in basis points (e.g., 50 = 0.5%)
    pub trailing_distance_bps: u64,
    /// ATR-based multiplier (scaled by 1000)
    pub atr_multiplier: u64,
    /// Current ATR value (in micro-units)
    pub current_atr: u64,
    /// Direction: true = long, false = short
    pub is_long: bool,
    /// Whether the stop has been triggered
    pub triggered: bool,
    /// Last update timestamp (nanoseconds since epoch)
    pub last_update_ns: u64,
    /// Minimum update interval to avoid excessive amendments (nanoseconds)
    pub min_update_interval_ns: u64,
    /// Triggered stop price (for post-trigger analysis)
    pub triggered_price: u64,
}

/// The distance of a stop from its price: the larger of the fixed distance and the true range times
/// its multiplier.
pub open spec fn stop_distance(price: u64, trailing_bps: u64, atr: u64, atr_multiplier: u64) -> int {
    let fixed = (price * trailing_bps) / 10_000;
    let ranged = (atr * atr_multiplier) / 1_000;
    if fixed >= ranged {
        fixed
    } else {
        ranged
    }
}

/// The stop below the price of a long position or above that of a short one, within the range of
/// prices.
pub open spec fn stop_for(price: u64, distance: int, is_long: bool) -> u64 {
    if is_long {
        if price >= distance {
            (price - distance) as u64
        } else {
            0
        }
    } else {
        if price + distance <= u64::MAX {
            (price + distance) as u64
        } else {
            u64::MAX
        }
    }
}

impl TrailingStopEngine {
    /// The stop that a price asks for.
    pub open spec fn stop_at(&self, price: u64) -> u64 {
        stop_for(
            price,
            stop_distance(
                price,
                self.trailing_distance_bps,
                self.current_atr,
                self.atr_multiplier,
            ),
            self.is_long,
        )
    }

    /// True where a price is better than the best one so far.
    pub open spec fn improves(&self, price: u64) -> bool {
        if self.is_long {
            price > self.best_price
        } else {
            price < self.best_price && price > 0
        }
    }

    /// True where a stop protects more than the current one.
    pub open spec fn tightens(&self, stop: u64) -> bool {
        if self.is_long {
            stop > self.stop_price
        } else {
            stop < self.stop_price && stop > 0
        }
    }

    /// True where a price reaches the stop.
    pub open spec fn reaches(&self, price: u64) -> bool {
        if self.is_long {
            price <= self.stop_price
        } else {
            price >= self.stop_price && self.stop_price > 0
        }
    }

    /// True where the last change of the stop is too recent for another.
    pub open spec fn too_early(&self, now_ns: u64) -> bool {
        if now_ns >= self.last_update_ns {
            now_ns - self.last_update_ns < self.min_update_interval_ns
        } else {
            0 < self.min_update_interval_ns
        }
    }

    /// The stop after a look at a price.
    pub open spec fn checked(&self, price: u64) -> TrailingStopEngine {
        if !self.triggered && self.reaches(price) {
            TrailingStopEngine { triggered: true, triggered_price: price, ..*self }
        } else {
            *self
        }
    }

    /// True where a new price moves the stop.
    pub open spec fn moves(&self, price: u64, now_ns: u64) -> bool {
        !self.too_early(now_ns) && self.improves(price) && self.tightens(self.stop_at(price))
    }

    /// The stop after a new price.
    pub open spec fn at_price(&self, price: u64, now_ns: u64) -> TrailingStopEngine {
        if self.moves(price, now_ns) {
            TrailingStopEngine {
                best_price: price,
                stop_price: self.stop_at(price),
                last_update_ns: now_ns,
                ..*self
            }
        } else if !self.too_early(now_ns) && self.improves(price) {
            TrailingStopEngine { best_price: price, ..*self }.checked(price)
        } else {
            self.checked(price)
        }
    }

    /// Create a new trailing stop engine
    ///
    /// # Arguments
    /// * `initial_price` - Starting price in micro-units (e.g., 50000000000 for $50,000)
    /// * `trailing_distance_bps` - Trailing distance in basis points
    /// * `atr_multiplier` - ATR multiplier scaled by 1000 (e.g., 2000 = 2.0x)
    /// * `is_long` - Direction of the position
    /// * `min_update_interval_ms` - Minimum interval between stop amendments
    pub fn new(
        initial_price: u64,
        trailing_distance_bps: u64,
        atr_multiplier: u64,
        is_long: bool,
        min_update_interval_ms: u64,
    ) -> (e: Self)
        requires
            min_update_interval_ms * 1_000_000 <= u64::MAX,
        ensures
            e == (TrailingStopEngine {
                best_price: initial_price,
                stop_price: stop_for(
                    initial_price,
                    stop_distance(initial_price, trailing_distance_bps, 0, atr_multiplier),
                    is_long,
                ),
                trailing_distance_bps,
                atr_multiplier,
                current_atr: 0,
                is_long,
                triggered: false,
                last_update_ns: 0,
                min_update_interval_ns: (min_update_interval_ms * 1_000_000) as u64,
                triggered_price: 0,
            }),
    {
        let initial_stop: u64 = Self::calculate_stop_price(
            initial_price,
            trailing_distance_bps,
            0,
            atr_multiplier,
            is_long,
        );
        Self {
            best_price: initial_price,
            stop_price: initial_stop,
            trailing_distance_bps,
            atr_multiplier,
            current_atr: 0,
            is_long,
            triggered: false,
            last_update_ns: 0,
            min_update_interval_ns: min_update_interval_ms * 1_000_000,
            triggered_price: 0,
        }
    }

    fn calculate_stop_price(
        price: u64,
        trailing_bps: u64,
        atr_value: u64,
        atr_multiplier: u64,
        is_long: bool,
    ) -> (r: u64)
        ensures
            r == stop_for(
                price,
                stop_distance(price, trailing_bps, atr_value, atr_multiplier),
                is_long,
            ),
    {
        assert(0 <= price * trailing_bps <= 0xffff_ffff_ffff_ffff * 0xffff_ffff_ffff_ffff)
            by (nonlinear_arith)
            requires
                price <= 0xffff_ffff_ffff_ffff,
                trailing_bps <= 0xffff_ffff_ffff_ffff,
        ;
        assert(0 <= atr_value * atr_multiplier <= 0xffff_ffff_ffff_ffff * 0xffff_ffff_ffff_ffff)
            by (nonlinear_arith)
            requires
                atr_value <= 0xffff_ffff_ffff_ffff,
                atr_multiplier <= 0xffff_ffff_ffff_ffff,
        ;
        let fixed: u128 = (price as u128 * trailing_bps as u128) / 10_000;
        let ranged: u128 = (atr_value as u128 * atr_multiplier as u128) / 1_000;
        let distance: u128 = if fixed >= ranged {
            fixed
        } else {
            ranged
        };
        if is_long {
            if price as u128 >= distance {
                (price as u128 - distance) as u64
            } else {
                0
            }
        } else {
            if price as u128 + distance <= u64::MAX as u128 {
                (price as u128 + distance) as u64
            } else {
                u64::MAX
            }
        }
    }

    /// Update the current market price
    /// Returns true if the stop price was adjusted
    pub fn update_price(&mut self, new_price: u64, now_ns: u64) -> (adjusted: bool)
        ensures
            adjusted == old(self).moves(new_price, now_ns),
            *final(self) == old(self).at_price(new_price, now_ns),
    {
        let since: u64 = now_ns.saturating_sub(self.last_update_ns);
        if since < self.min_update_interval_ns {
            let _ = self.check_trigger(new_price);
            return false;
        }
        let should_update = if self.is_long {
            new_price > self.best_price
        } else {
            new_price < self.best_price && new_price > 0
        };
        if should_update {
            self.best_price = new_price;
            let new_stop: u64 = Self::calculate_stop_price(
                new_price,
                self.trailing_distance_bps,
                self.current_atr,
                self.atr_multiplier,
                self.is_long,
            );
            if self.should_move_stop(new_stop) {
                self.stop_price = new_stop;
                self.last_update_ns = now_ns;
                return true;
            }
        }
        let _ = self.check_trigger(new_price);
        false
    }

    /// True where a stop protects more than the current one.
    fn should_move_stop(&self, new_stop: u64) -> (r: bool)
        ensures
            r == self.tightens(new_stop),
    {
        if self.is_long {
            new_stop > self.stop_price
        } else {
            new_stop < self.stop_price && new_stop > 0
        }
    }

    /// Update the ATR value dynamically; the stop moves where that protects more
    pub fn update_atr(&mut self, new_atr: u64)
        ensures
            ({
                let e = TrailingStopEngine { current_atr: new_atr, ..*old(self) };
                let stop = e.stop_at(e.best_price);
                *final(self) == if e.tightens(stop) {
                    TrailingStopEngine { stop_price: stop, ..e }
                } else {
                    e
                }
            }),
    {
        self.current_atr = new_atr;
        let new_stop: u64 = Self::calculate_stop_price(
            self.best_price,
            self.trailing_distance_bps,
            new_atr,
            self.atr_multiplier,
            self.is_long,
        );
        if self.should_move_stop(new_stop) {
            self.stop_price = new_stop;
        }
    }

    /// Check if the stop has been triggered
    pub fn check_trigger(&mut self, current_price: u64) -> (r: bool)
        ensures
            r == (old(self).triggered || old(self).reaches(current_price)),
            *final(self) == old(self).checked(current_price),
    {
        if self.triggered {
            return true;
        }
        let triggered = if self.is_long {
            current_price <= self.stop_price
        } else {
            current_price >= self.stop_price && self.stop_price > 0
        };
        if triggered {
            self.triggered = true;
            self.triggered_price = current_price;
        }
        triggered
    }

    /// Get the current stop price
    pub fn get_stop_price(&self) -> (r: u64)
        ensures
            r == self.stop_price,
    {
        self.stop_price
    }

    /// Get the current best price
    pub fn get_best_price(&self) -> (r: u64)
        ensures
            r == self.best_price,
    {
        self.best_price
    }

    /// Check if stop has been triggered
    pub fn is_triggered(&self) -> (r: bool)
        ensures
            r == self.triggered,
    {
        self.triggered
    }

    /// Get the triggered price (only valid after trigger)
    pub fn get_triggered_price(&self) -> (r: u64)
        ensures
            r == self.triggered_price,
    {
        self.triggered_price
    }

    /// Update trailing distance dynamically (in basis points), and the stop with it
    pub fn update_trailing_distance(&mut self, new_distance_bps: u64)
        ensures
            ({
                let e = TrailingStopEngine {
                    trailing_distance_bps: new_distance_bps,
                    ..*old(self)
                };
                *final(self) == (TrailingStopEngine { stop_price: e.stop_at(e.best_price), ..e })
            }),
    {
        self.trailing_distance_bps = new_distance_bps;
        self.stop_price = Self::calculate_stop_price(
            self.best_price,
            new_distance_bps,
            self.current_atr,
            self.atr_multiplier,
            self.is_long,
        );
    }

    /// Reset the trailing stop (for re-entry scenarios)
    pub fn reset(&mut self, new_initial_price: u64)
        ensures
            *final(self) == (TrailingStopEngine {
                best_price: new_initial_price,
                stop_price: old(self).stop_at(new_initial_price),
                triggered: false,
                triggered_price: 0,
                last_update_ns: 0,
                ..*old(self)
            }),
    {
        let new_stop: u64 = Self::calculate_stop_price(
            new_initial_price,
            self.trailing_distance_bps,
            self.current_atr,
            self.atr_multiplier,
            self.is_long,
        );
        self.best_price = new_initial_price;
        self.stop_price = new_stop;
        self.triggered = false;
        self.triggered_price = 0;
        self.last_update_ns = 0;
    }
}

/// Prices only ever move the stop so that it protects more: up for a long position, down for a
/// short one.
pub proof fn law_stop_only_tightens(e: TrailingStopEngine, price: u64, now_ns: u64)
    ensures
        e.is_long ==> e.at_price(price, now_ns).stop_price >= e.stop_price,
        !e.is_long ==> e.at_price(price, now_ns).stop_price <= e.stop_price,
{
}

/// A triggered stop stays triggered, at the price that triggered it.
pub proof fn law_trigger_is_final(e: TrailingStopEngine, price: u64, now_ns: u64)
    requires
        e.triggered,
    ensures
        e.at_price(price, now_ns).triggered,
        e.at_price(price, now_ns).triggered_price == e.triggered_price,
{
}

/// The stop is on the losing side of the price that it was set at.
pub proof fn law_stop_is_behind_the_price(price: u64, distance: int, is_long: bool)
    requires
        distance >= 0,
    ensures
        is_long ==> stop_for(price, distance, is_long) <= price,
        !is_long ==> stop_for(price, distance, is_long) >= price,
{
}

/// A stop trails its price by no less than either distance, the basis points of the price and the
/// true range times its multiplier in thousandths, and by one of them exactly, rounded down.
pub proof fn law_stop_trails_by_the_larger_distance(
    price: u64,
    trailing_bps: u64,
    atr: u64,
    atr_multiplier: u64,
)
    ensures
        ({
            let d = stop_distance(price, trailing_bps, atr, atr_multiplier);
            &&& (d + 1) * 10_000 > price * trailing_bps
            &&& (d + 1) * 1_000 > atr * atr_multiplier
            &&& d * 10_000 <= price * trailing_bps || d * 1_000 <= atr * atr_multiplier
            &&& d >= 0
            &&& d <= price ==> stop_for(price, d, true) + d == price
            &&& d > price ==> stop_for(price, d, true) == 0
            &&& price + d <= u64::MAX ==> stop_for(price, d, false) - d == price
            &&& price + d > u64::MAX ==> stop_for(price, d, false) == u64::MAX
        }),
{
    assert(price * trailing_bps >= 0 && atr * atr_multiplier >= 0) by (nonlinear_arith)
        requires
            price >= 0,
            trailing_bps >= 0,
            atr >= 0,
            atr_multiplier >= 0,
    ;
}

/// The stop of a long position is triggered by the first price at or below it, that of a short one
/// by the first at or above it, and keeps the price that triggered it.
pub proof fn law_stop_is_triggered_when_reached(e: TrailingStopEngine, price: u64)
    requires
        !e.triggered,
        e.stop_price > 0,
    ensures
        e.is_long ==> (e.checked(price).triggered <==> price <= e.stop_price),
        !e.is_long ==> (e.checked(price).triggered <==> price >= e.stop_price),
        e.checked(price).triggered ==> e.checked(price).triggered_price == price,
        e.checked(price).stop_price == e.stop_price,
        e.checked(price).best_price == e.best_price,
{
}

/// Once the least interval since the last change is over, the best price follows every better one,
/// and the stop with it where that protects more; before that only the trigger is looked at.
pub proof fn law_stop_follows_the_best_price(e: TrailingStopEngine, price: u64, now_ns: u64)
    requires
        now_ns >= e.last_update_ns,
        price > 0,
    ensures
        ({
            let due = now_ns - e.last_update_ns >= e.min_update_interval_ns;
            let better = if e.is_long {
                price > e.best_price
            } else {
                price < e.best_price
            };
            let now = e.at_price(price, now_ns);
            &&& now.best_price == if due && better {
                price
            } else {
                e.best_price
            }
            &&& now.stop_price != e.stop_price ==> due && better && now.stop_price == e.stop_at(price)
                && now.last_update_ns == now_ns
            &&& due && better && e.is_long && e.stop_at(price) > e.stop_price ==> now.stop_price
                == e.stop_at(price)
            &&& due && better && !e.is_long && 0 < e.stop_at(price) < e.stop_price ==> now.stop_price
                == e.stop_at(price)
            &&& now.stop_price == e.stop_price ==> now.triggered == (e.triggered
                || e.checked(price).triggered)
            &&& e.moves(price, now_ns) <==> now.stop_price != e.stop_price
        }),
{
}

} // verus!
