//! An order that shows a part of its size and refreshes it. Quantities stand as the bits of doubles.
use crate::doubles::{above, at_least, smaller, ZERO};
use vstd::prelude::*;

verus! {

#[derive(Debug, Clone, Copy, PartialEq, Eq, Structural)]
pub enum IcebergError {
    InvalidTotalQuantity,
    InvalidDisplayQuantity,
    OrderCompleted,
}

#[derive(Debug, Clone, Copy, PartialEq, Eq, Structural)]
pub enum IcebergState {
    Pending,
    Active,
    Refreshing,
    Completed,
    Cancelled,
}

/// What a fill leaves: what was shown and what there is in all, less the fill, and what was
/// executed, with it
#[derive(Debug, Clone, Copy, PartialEq, Eq, Structural)]
pub struct AfterFill {
    pub display: u64,
    pub total: u64,
    pub executed: u64,
}

/// What a fill came to
#[derive(Debug, Clone, Copy, PartialEq, Eq, Structural)]
pub struct IcebergFillResult {
    pub filled_quantity: u64,
    pub remaining_total: u64,
    pub remaining_display: u64,
    /// The shown quantity is used up and some of the total is left
    pub needs_refresh: bool,
    /// Nothing of the total is left
    pub is_complete: bool,
}

/// Where an iceberg order stands
#[derive(Debug, Clone, Copy, PartialEq, Eq, Structural)]
pub struct IcebergProgress {
    pub total_quantity: u64,
    pub executed_quantity: u64,
    pub remaining_total: u64,
    pub remaining_display: u64,
    pub fill_count: u64,
}

/// Iceberg order
#[derive(Debug, Clone, Copy, PartialEq, Eq, Structural)]
pub struct IcebergOrder {
    pub total_quantity: u64,
    pub display_quantity: u64,
    pub remaining_total: u64,
    pub remaining_display: u64,
    pub executed_quantity: u64,
    pub fill_count: u64,
    pub state: IcebergState,
    pub auto_refresh: bool,
}

impl IcebergOrder {
    /// A pending order of which nothing is filled.
    pub open spec fn fresh(total_qty: u64, display_qty: u64) -> IcebergOrder {
        IcebergOrder {
            total_quantity: total_qty,
            display_quantity: display_qty,
            remaining_total: total_qty,
            remaining_display: display_qty,
            executed_quantity: ZERO,
            fill_count: 0,
            state: IcebergState::Pending,
            auto_refresh: true,
        }
    }

    /// A pending order: the total is positive, and what is shown is positive and no more than that
    pub fn new(total_qty: u64, display_qty: u64) -> (r: Result<Self, IcebergError>)
        ensures
            r == if crate::doubles::no_less(ZERO, total_qty) {
                Err(IcebergError::InvalidTotalQuantity)
            } else if crate::doubles::no_less(ZERO, display_qty) || crate::doubles::greater(
                display_qty,
                total_qty,
            ) {
                Err(IcebergError::InvalidDisplayQuantity)
            } else {
                Ok(Self::fresh(total_qty, display_qty))
            },
    {
        if at_least(ZERO, total_qty) {
            return Err(IcebergError::InvalidTotalQuantity);
        }
        if at_least(ZERO, display_qty) || above(display_qty, total_qty) {
            return Err(IcebergError::InvalidDisplayQuantity);
        }
        Ok(
            Self {
                total_quantity: total_qty,
                display_quantity: display_qty,
                remaining_total: total_qty,
                remaining_display: display_qty,
                executed_quantity: ZERO,
                fill_count: 0,
                state: IcebergState::Pending,
                auto_refresh: true,
            },
        )
    }

    pub fn start(&mut self)
        ensures
            *final(self) == (IcebergOrder { state: IcebergState::Active, ..*old(self) }),
    {
        self.state = IcebergState::Active;
    }

    pub fn get_visible_quantity(&self) -> (q: u64)
        ensures
            q == self.remaining_display,
    {
        self.remaining_display
    }

    /// True where the order takes no more fills.
    pub open spec fn is_over(&self) -> bool {
        self.state == IcebergState::Completed || self.state == IcebergState::Cancelled
    }

    /// What a fill comes to: no more than is shown, nor than there is.
    pub open spec fn fill_of(&self, quantity: u64) -> u64 {
        crate::doubles::min_of(
            crate::doubles::min_of(quantity, self.remaining_display),
            self.remaining_total,
        )
    }

    /// How much of a quantity is filled
    pub fn actual_fill(&self, quantity: u64) -> (q: u64)
        ensures
            q == self.fill_of(quantity),
    {
        smaller(smaller(quantity, self.remaining_display), self.remaining_total)
    }

    /// What was shown is used up and some of the total is left.
    pub open spec fn shows_nothing(after: AfterFill) -> bool {
        crate::doubles::no_less(ZERO, after.display) && crate::doubles::greater(after.total, ZERO)
    }

    /// The order after a fill: complete where nothing is left; with what is shown set anew where
    /// that is used up, as much of it as there is.
    pub open spec fn filled(&self, after: AfterFill) -> IcebergOrder {
        let done = crate::doubles::no_less(ZERO, after.total);
        let anew = !done && Self::shows_nothing(after) && self.auto_refresh;
        IcebergOrder {
            remaining_total: after.total,
            remaining_display: if anew {
                crate::doubles::min_of(self.display_quantity, after.total)
            } else {
                after.display
            },
            executed_quantity: after.executed,
            fill_count: self.fill_count.wrapping_add(1),
            state: if done {
                IcebergState::Completed
            } else if anew {
                IcebergState::Active
            } else {
                self.state
            },
            ..*self
        }
    }

    /// The order after a fill was reported: one that is over stays as it is.
    pub open spec fn reported(&self, after: AfterFill) -> IcebergOrder {
        if self.is_over() {
            *self
        } else {
            self.filled(after)
        }
    }

    /// The order after fills were reported, one after the other.
    pub open spec fn after_fills(&self, fills: Seq<(u64, AfterFill)>) -> IcebergOrder
        decreases fills.len(),
    {
        if fills.len() == 0 {
            *self
        } else {
            self.after_fills(fills.drop_last()).reported(fills.last().1)
        }
    }

    /// True where what a fill of a quantity leaves was summed without rounding.
    pub open spec fn exact(&self, quantity: u64, after: AfterFill) -> bool {
        let fill = crate::doubles::units(self.fill_of(quantity));
        &&& crate::doubles::is_finite(after.display)
        &&& crate::doubles::is_finite(after.total)
        &&& crate::doubles::is_finite(after.executed)
        &&& crate::doubles::units(after.display) == crate::doubles::units(self.remaining_display)
            - fill
        &&& crate::doubles::units(after.total) == crate::doubles::units(self.remaining_total) - fill
        &&& crate::doubles::units(after.executed) == crate::doubles::units(self.executed_quantity)
            + fill
    }

    /// True where no reported quantity is negative and the sums of each fill are exact.
    pub open spec fn exact_fills(&self, fills: Seq<(u64, AfterFill)>) -> bool
        decreases fills.len(),
    {
        fills.len() > 0 ==> {
            let before = self.after_fills(fills.drop_last());
            &&& self.exact_fills(fills.drop_last())
            &&& !crate::doubles::greater(ZERO, fills.last().0)
            &&& before.is_over() || before.exact(fills.last().0, fills.last().1)
        }
    }

    /// True where the executed and the remaining quantity add up to the total, and the order shows
    /// something until it is complete, but no more than its size on show or than is left.
    pub open spec fn adds_up(&self) -> bool {
        let visible = crate::doubles::units(self.remaining_display);
        let remaining = crate::doubles::units(self.remaining_total);
        &&& crate::doubles::is_finite(self.total_quantity)
        &&& crate::doubles::is_finite(self.display_quantity)
        &&& crate::doubles::is_finite(self.remaining_total)
        &&& crate::doubles::is_finite(self.remaining_display)
        &&& crate::doubles::is_finite(self.executed_quantity)
        &&& crate::doubles::units(self.executed_quantity) + remaining == crate::doubles::units(
            self.total_quantity,
        )
        &&& 0 < crate::doubles::units(self.display_quantity)
        &&& 0 <= visible <= crate::doubles::units(self.display_quantity)
        &&& visible <= remaining
        &&& remaining > 0 ==> visible > 0
        &&& self.auto_refresh
        &&& self.state == IcebergState::Completed <==> remaining == 0
        &&& self.state != IcebergState::Cancelled
    }

    /// Takes note of a fill of a quantity, which leaves what `after` says
    pub fn report_fill(&mut self, quantity: u64, after: AfterFill) -> (r: Result<
        IcebergFillResult,
        IcebergError,
    >)
        ensures
            r == if old(self).is_over() {
                Err(IcebergError::OrderCompleted)
            } else {
                Ok(
                    IcebergFillResult {
                        filled_quantity: old(self).fill_of(quantity),
                        remaining_total: after.total,
                        remaining_display: after.display,
                        needs_refresh: Self::shows_nothing(after),
                        is_complete: crate::doubles::no_less(ZERO, after.total),
                    },
                )
            },
            *final(self) == old(self).reported(after),
    {
        if self.state == IcebergState::Completed || self.state == IcebergState::Cancelled {
            return Err(IcebergError::OrderCompleted);
        }
        let filled_quantity: u64 = self.actual_fill(quantity);
        self.remaining_display = after.display;
        self.remaining_total = after.total;
        self.executed_quantity = after.executed;
        self.fill_count = self.fill_count.wrapping_add(1);
        let needs_refresh = at_least(ZERO, after.display) && above(after.total, ZERO);
        let is_complete = at_least(ZERO, after.total);
        if is_complete {
            self.state = IcebergState::Completed;
        } else if needs_refresh && self.auto_refresh {
            self.refresh();
        }
        Ok(
            IcebergFillResult {
                filled_quantity,
                remaining_total: after.total,
                remaining_display: after.display,
                needs_refresh,
                is_complete,
            },
        )
    }

    fn refresh(&mut self)
        ensures
            *final(self) == (IcebergOrder {
                remaining_display: crate::doubles::min_of(
                    old(self).display_quantity,
                    old(self).remaining_total,
                ),
                state: IcebergState::Active,
                ..*old(self)
            }),
    {
        self.remaining_display = smaller(self.display_quantity, self.remaining_total);
        self.state = IcebergState::Active;
    }

    pub fn get_state(&self) -> (s: IcebergState)
        ensures
            s == self.state,
    {
        self.state
    }

    pub fn cancel(&mut self)
        ensures
            *final(self) == (IcebergOrder { state: IcebergState::Cancelled, ..*old(self) }),
    {
        self.state = IcebergState::Cancelled;
    }

    pub fn get_progress(&self) -> (p: IcebergProgress)
        ensures
            p == (IcebergProgress {
                total_quantity: self.total_quantity,
                executed_quantity: self.executed_quantity,
                remaining_total: self.remaining_total,
                remaining_display: self.remaining_display,
                fill_count: self.fill_count,
            }),
    {
        IcebergProgress {
            total_quantity: self.total_quantity,
            executed_quantity: self.executed_quantity,
            remaining_total: self.remaining_total,
            remaining_display: self.remaining_display,
            fill_count: self.fill_count,
        }
    }
}

/// A fill never takes more than is shown, than there is in all, or than was asked for.
pub proof fn law_fill_is_bounded(order: IcebergOrder, quantity: u64)
    requires
        !crate::doubles::is_nan(quantity),
        !crate::doubles::is_nan(order.remaining_display),
        !crate::doubles::is_nan(order.remaining_total),
    ensures
        crate::doubles::no_less(quantity, order.fill_of(quantity)),
        crate::doubles::no_less(order.remaining_display, order.fill_of(quantity)),
        crate::doubles::no_less(order.remaining_total, order.fill_of(quantity)),
{
}

/// An order that refreshes itself always shows something until it is complete, and never more than
/// its size on show or than is left.
pub proof fn law_refreshed_order_shows_something(order: IcebergOrder, after: AfterFill)
    requires
        order.auto_refresh,
        crate::doubles::greater(order.display_quantity, ZERO),
        crate::doubles::greater(after.total, ZERO),
        crate::doubles::no_less(ZERO, after.display),
    ensures
        ({
            let now = order.filled(after);
            &&& crate::doubles::greater(now.remaining_display, ZERO)
            &&& crate::doubles::no_less(order.display_quantity, now.remaining_display)
            &&& crate::doubles::no_less(after.total, now.remaining_display)
            &&& now.state == IcebergState::Active
        }),
{
}

/// A fill whose sums are exact takes the least of the quantity, what is shown and what there is, and
/// the quantities still add up; the order is complete exactly where nothing is left.
pub proof fn law_fill_adds_up(order: IcebergOrder, quantity: u64, after: AfterFill)
    requires
        order.adds_up(),
        !order.is_over(),
        !crate::doubles::greater(ZERO, quantity),
        order.exact(quantity, after),
    ensures
        order.filled(after).adds_up(),
        crate::doubles::no_less(ZERO, after.total) <==> crate::doubles::units(after.total) == 0,
        crate::doubles::is_finite(quantity) ==> ({
            let fill = crate::doubles::units(order.fill_of(quantity));
            &&& fill <= crate::doubles::units(quantity)
            &&& fill <= crate::doubles::units(order.remaining_display)
            &&& fill <= crate::doubles::units(order.remaining_total)
            &&& fill == crate::doubles::units(quantity) || fill == crate::doubles::units(
                order.remaining_display,
            ) || fill == crate::doubles::units(order.remaining_total)
        }),
{
    let fill = order.fill_of(quantity);
    crate::doubles::law_values_are_ordered(order.remaining_display, order.remaining_total);
    if crate::doubles::is_finite(quantity) {
        crate::doubles::law_values_are_ordered(quantity, order.remaining_display);
        crate::doubles::law_values_are_ordered(quantity, order.remaining_total);
        crate::doubles::law_values_are_ordered(ZERO, quantity);
    }
    crate::doubles::law_values_are_ordered(ZERO, after.display);
    crate::doubles::law_values_are_ordered(after.total, ZERO);
    crate::doubles::law_values_are_ordered(ZERO, after.total);
    crate::doubles::law_values_are_ordered(order.display_quantity, after.total);
}

/// Over any sequence of fills with exact sums, what was executed and what remains add up to the
/// total, something is shown while something remains, and the order is complete exactly where
/// nothing remains; after that, no report changes it.
pub proof fn law_fills_add_up(
    order: IcebergOrder,
    fills: Seq<(u64, AfterFill)>,
    later: Seq<(u64, AfterFill)>,
)
    requires
        order.adds_up(),
        order.exact_fills(fills),
    ensures
        order.after_fills(fills).adds_up(),
        order.after_fills(fills).total_quantity == order.total_quantity,
        order.after_fills(fills).display_quantity == order.display_quantity,
        crate::doubles::units(order.after_fills(fills).remaining_total) == 0 ==> {
            &&& order.after_fills(fills).state == IcebergState::Completed
            &&& order.after_fills(fills).is_over()
            &&& order.after_fills(fills).after_fills(later) == order.after_fills(fills)
        },
    decreases fills.len(),
{
    if fills.len() > 0 {
        let before = order.after_fills(fills.drop_last());
        law_fills_add_up(order, fills.drop_last(), later);
        if !before.is_over() {
            law_fill_adds_up(before, fills.last().0, fills.last().1);
        }
    }
    if order.after_fills(fills).is_over() {
        lemma_over_stays(order.after_fills(fills), later);
    }
}

proof fn lemma_over_stays(order: IcebergOrder, later: Seq<(u64, AfterFill)>)
    requires
        order.is_over(),
    ensures
        order.after_fills(later) == order,
    decreases later.len(),
{
    if later.len() > 0 {
        lemma_over_stays(order, later.drop_last());
    }
}

/// The quantities of a new order add up, started or not.
pub proof fn law_fresh_order_adds_up(total_qty: u64, display_qty: u64, state: IcebergState)
    requires
        crate::doubles::is_finite(total_qty),
        crate::doubles::greater(display_qty, ZERO),
        crate::doubles::no_less(total_qty, display_qty),
        state == IcebergState::Pending || state == IcebergState::Active,
    ensures
        (IcebergOrder { state, ..IcebergOrder::fresh(total_qty, display_qty) }).adds_up(),
{
    crate::doubles::law_values_are_ordered(display_qty, ZERO);
    crate::doubles::law_values_are_ordered(total_qty, display_qty);
}

/// A fill that leaves nothing completes the order, which then takes no more fills.
pub proof fn law_emptied_order_is_over(order: IcebergOrder, after: AfterFill)
    requires
        crate::doubles::no_less(ZERO, after.total),
    ensures
        order.filled(after).is_over(),
{
}

/// A fill is the least of what was reported, what is on show and what is left.
pub proof fn law_fill_is_the_least(order: IcebergOrder, quantity: u64)
    requires
        crate::doubles::is_finite(quantity),
        crate::doubles::is_finite(order.remaining_display),
        crate::doubles::is_finite(order.remaining_total),
    ensures
        ({
            let fill = crate::doubles::units(order.fill_of(quantity));
            let (q, d, t) = (
                crate::doubles::units(quantity),
                crate::doubles::units(order.remaining_display),
                crate::doubles::units(order.remaining_total),
            );
            &&& fill <= q && fill <= d && fill <= t
            &&& fill == q || fill == d || fill == t
        }),
{
    crate::doubles::law_values_are_ordered(quantity, order.remaining_display);
    crate::doubles::law_values_are_ordered(order.remaining_display, quantity);
    crate::doubles::law_values_are_ordered(quantity, order.remaining_total);
    crate::doubles::law_values_are_ordered(order.remaining_total, quantity);
    crate::doubles::law_values_are_ordered(order.remaining_display, order.remaining_total);
    crate::doubles::law_values_are_ordered(order.remaining_total, order.remaining_display);
}

/// What a fill leaves: the quantities after it and one fill more. The order is complete where nothing
/// is left; where nothing is on show and it refreshes itself it shows again, as much as it started with
/// or what is left; otherwise it stays as it was.
pub proof fn law_fill_leaves_what_is_left(order: IcebergOrder, after: AfterFill)
    requires
        crate::doubles::is_finite(after.total),
        crate::doubles::is_finite(after.display),
        crate::doubles::is_finite(order.display_quantity),
    ensures
        ({
            let now = order.filled(after);
            let (total, shown) = (
                crate::doubles::units(after.total),
                crate::doubles::units(after.display),
            );
            let anew = total > 0 && shown <= 0 && order.auto_refresh;
            &&& now.remaining_total == after.total
            &&& now.executed_quantity == after.executed
            &&& order.fill_count < u64::MAX ==> now.fill_count == order.fill_count + 1
            &&& now.total_quantity == order.total_quantity && now.display_quantity
                == order.display_quantity && now.auto_refresh == order.auto_refresh
            &&& total <= 0 ==> now.state == IcebergState::Completed
            &&& anew ==> now.state == IcebergState::Active && crate::doubles::units(
                now.remaining_display,
            ) == (if crate::doubles::units(order.display_quantity) <= total {
                crate::doubles::units(order.display_quantity)
            } else {
                total
            })
            &&& total > 0 && !anew ==> now.state == order.state
            &&& !anew ==> now.remaining_display == after.display
            &&& order.state == IcebergState::Completed || order.state == IcebergState::Cancelled
                <==> order.is_over()
            &&& order.is_over() ==> order.reported(after) == order
            &&& !order.is_over() ==> order.reported(after) == now
        }),
{
    crate::doubles::law_values_are_ordered(ZERO, after.total);
    crate::doubles::law_values_are_ordered(after.total, ZERO);
    crate::doubles::law_values_are_ordered(ZERO, after.display);
    crate::doubles::law_values_are_ordered(order.display_quantity, after.total);
    crate::doubles::law_values_are_ordered(after.total, order.display_quantity);
}

} // verus!
