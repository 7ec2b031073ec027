//! Conditional orders: child orders that wait for a condition on the market.
use vstd::prelude::*;

verus! {

/// Largest number of conditions of an expression
pub const MAX_CONDITIONS: usize = 16;

/// Largest number of orders of a router
pub const MAX_ORDERS: usize = 64;

/// Market condition types for conditional orders
#[derive(Debug, Clone, Copy, PartialEq, Eq, Structural)]
pub enum ConditionType {
    /// Cumulative Volume Delta comparison
    CvdGreaterThan(i64),
    CvdLessThan(i64),
    /// Spread comparison (in micro-units)
    SpreadLessThan(u64),
    SpreadGreaterThan(u64),
    /// Price comparison
    PriceAbove(u64),
    PriceBelow(u64),
    /// Order book imbalance ratio (scaled by 1000)
    ImbalanceAbove(u32),
    ImbalanceBelow(u32),
    /// Volatility threshold (scaled by 1000)
    VolatilityBelow(u32),
    VolatilityAbove(u32),
    /// Microprice drift (scaled by 1000)
    MicropriceDriftAbove(i32),
    MicropriceDriftBelow(i32),
    /// Custom flag (for external signals)
    FlagSet(u8),
}

/// Logical operator for combining conditions
#[derive(Debug, Clone, Copy, PartialEq, Eq, Structural)]
pub enum LogicalOp {
    And,
    Or,
    Not,
}

/// A single condition node in the evaluation tree
#[derive(Debug, Clone, Copy, PartialEq, Eq, Structural)]
pub struct ConditionNode {
    pub condition: ConditionType,
    pub operator: LogicalOp,
    /// Index of left child (if any)
    pub left_child: Option<usize>,
    /// Index of right child (if any)
    pub right_child: Option<usize>,
}

/// Market context for condition evaluation
#[derive(Debug, Clone, Copy, PartialEq, Eq, Structural)]
pub struct MarketContext {
    /// Current price (micro-units)
    pub current_price: u64,
    /// Current spread (micro-units)
    pub spread_micros: u64,
    /// Cumulative Volume Delta
    pub cvd: i64,
    /// Order book imbalance ratio (scaled by 1000)
    pub imbalance_ratio: u32,
    /// Volatility measure (scaled by 1000)
    pub volatility_scaled: u32,
    /// Microprice drift (scaled by 1000)
    pub microprice_drift_scaled: i32,
    /// Custom flags bitmask
    pub flags: u64,
    /// Timestamp (nanoseconds)
    pub timestamp_ns: u64,
}

impl Default for MarketContext {
    fn default() -> (c: Self)
        ensures
            c == (MarketContext {
                current_price: 0,
                spread_micros: 0,
                cvd: 0,
                imbalance_ratio: 0,
                volatility_scaled: 0,
                microprice_drift_scaled: 0,
                flags: 0,
                timestamp_ns: 0,
            }),
    {
        Self {
            current_price: 0,
            spread_micros: 0,
            cvd: 0,
            imbalance_ratio: 0,
            volatility_scaled: 0,
            microprice_drift_scaled: 0,
            flags: 0,
            timestamp_ns: 0,
        }
    }
}

/// True where a condition can be evaluated: there are 64 flags.
pub open spec fn known(c: ConditionType) -> bool {
    match c {
        ConditionType::FlagSet(flag) => flag < 64,
        _ => true,
    }
}

/// True where a condition holds.
pub open spec fn holds(c: ConditionType, ctx: MarketContext) -> bool {
    match c {
        ConditionType::CvdGreaterThan(t) => ctx.cvd > t,
        ConditionType::CvdLessThan(t) => ctx.cvd < t,
        ConditionType::SpreadLessThan(t) => ctx.spread_micros < t,
        ConditionType::SpreadGreaterThan(t) => ctx.spread_micros > t,
        ConditionType::PriceAbove(t) => ctx.current_price > t,
        ConditionType::PriceBelow(t) => ctx.current_price < t,
        ConditionType::ImbalanceAbove(t) => ctx.imbalance_ratio > t,
        ConditionType::ImbalanceBelow(t) => ctx.imbalance_ratio < t,
        ConditionType::VolatilityBelow(t) => ctx.volatility_scaled < t,
        ConditionType::VolatilityAbove(t) => ctx.volatility_scaled > t,
        ConditionType::MicropriceDriftAbove(t) => ctx.microprice_drift_scaled > t,
        ConditionType::MicropriceDriftBelow(t) => ctx.microprice_drift_scaled < t,
        ConditionType::FlagSet(flag) => ctx.flags & (1u64 << flag) != 0,
    }
}

/// True where the expression below a node holds: the node's condition, combined with its right
/// child by the node's operator.
pub open spec fn node_holds(nodes: Seq<ConditionNode>, i: int, ctx: MarketContext) -> bool
    decreases nodes.len() - i,
{
    if 0 <= i < nodes.len() {
        let here = holds(nodes[i].condition, ctx);
        match (nodes[i].operator, nodes[i].right_child) {
            (LogicalOp::And, Some(r)) => here && i < r < nodes.len() && node_holds(
                nodes,
                r as int,
                ctx,
            ),
            (LogicalOp::Or, Some(r)) => here || (i < r < nodes.len() && node_holds(
                nodes,
                r as int,
                ctx,
            )),
            (LogicalOp::Not, _) => !here,
            (_, None) => here,
        }
    } else {
        false
    }
}

/// Conditional expression: a pool of conditions, evaluated from its root
#[derive(Debug)]
pub struct ConditionalExpression {
    /// Conditions, at most 16
    pub conditions: Vec<ConditionNode>,
    /// Root node index
    pub root_index: usize,
}

impl ConditionalExpression {
    pub open spec fn inv(&self) -> bool {
        &&& self.conditions@.len() <= MAX_CONDITIONS
        &&& self.conditions@.len() > 0 ==> self.root_index < self.conditions@.len()
        &&& forall|i: int|
            0 <= i < self.conditions@.len() ==> match (
            #[trigger] self.conditions@[i]).right_child {
                Some(r) => i < r < self.conditions@.len(),
                None => true,
            }
    }

    /// True where every condition can be evaluated.
    pub open spec fn evaluable(&self) -> bool {
        forall|i: int|
            0 <= i < self.conditions@.len() ==> known((#[trigger] self.conditions@[i]).condition)
    }

    /// True where the expression holds; an empty one always does.
    pub open spec fn value(&self, ctx: MarketContext) -> bool {
        self.conditions@.len() == 0 || node_holds(
            self.conditions@,
            self.root_index as int,
            ctx,
        )
    }

    /// True where the conditions from the root on are one chain, each the right child of the one
    /// before.
    pub open spec fn is_chain(&self) -> bool {
        forall|i: int|
            self.root_index <= i < self.conditions@.len() ==> (
            #[trigger] self.conditions@[i]).right_child == if i + 1 < self.conditions@.len() {
                Some((i + 1) as usize)
            } else {
                None
            }
    }

    /// The conditions with one more at the end of the chain, combined by an operator.
    pub open spec fn chained(&self, condition: ConditionType, op: LogicalOp) -> Seq<ConditionNode> {
        let n = self.conditions@.len();
        let last = self.conditions@[n - 1];
        self.conditions@.update(
            n - 1,
            ConditionNode { operator: op, right_child: Some(n as usize), ..last },
        ).push(
            ConditionNode { condition, operator: op, left_child: None, right_child: None },
        )
    }

    /// Create a new empty conditional expression
    pub fn new() -> (e: Self)
        ensures
            e.inv(),
            e.is_chain(),
            e.conditions@.len() == 0,
            e.root_index == 0,
    {
        ConditionalExpression { conditions: Vec::new(), root_index: 0 }
    }

    /// Add a simple condition as the root; a full expression stays as it is
    pub fn with_condition(self, condition: ConditionType) -> (e: Self)
        requires
            self.inv(),
        ensures
            e.inv(),
            self.conditions@.len() < MAX_CONDITIONS ==> e.is_chain(),
            self.conditions@.len() < MAX_CONDITIONS ==> e.conditions@ == self.conditions@.push(
                ConditionNode {
                    condition,
                    operator: LogicalOp::And,
                    left_child: None,
                    right_child: None,
                },
            ) && e.root_index == self.conditions@.len(),
            self.conditions@.len() >= MAX_CONDITIONS ==> e == self,
    {
        let mut e = self;
        let n: usize = e.conditions.len();
        if n < MAX_CONDITIONS {
            e.conditions.push(
                ConditionNode {
                    condition,
                    operator: LogicalOp::And,
                    left_child: None,
                    right_child: None,
                },
            );
            e.root_index = n;
        }
        e
    }

    /// Add a condition at the end of the chain.
    fn chain(self, condition: ConditionType, op: LogicalOp) -> (e: Self)
        requires
            self.inv(),
        ensures
            e.inv(),
            e.root_index == self.root_index,
            self.is_chain() ==> e.is_chain(),
            e.conditions@ == if 0 < self.conditions@.len() < MAX_CONDITIONS {
                self.chained(condition, op)
            } else {
                self.conditions@
            },
    {
        let mut e = self;
        let n: usize = e.conditions.len();
        if n < MAX_CONDITIONS && n > 0 {
            let mut last = e.conditions[n - 1];
            last.operator = op;
            last.right_child = Some(n);
            e.conditions.set(n - 1, last);
            e.conditions.push(
                ConditionNode { condition, operator: op, left_child: None, right_child: None },
            );
            assert(e.conditions@ =~= self.chained(condition, op));
        }
        e
    }

    /// Build an AND condition chain; an empty or full expression stays as it is
    pub fn and(self, condition: ConditionType) -> (e: Self)
        requires
            self.inv(),
        ensures
            e.inv(),
            e.root_index == self.root_index,
            self.is_chain() ==> e.is_chain(),
            e.conditions@ == if 0 < self.conditions@.len() < MAX_CONDITIONS {
                self.chained(condition, LogicalOp::And)
            } else {
                self.conditions@
            },
    {
        self.chain(condition, LogicalOp::And)
    }

    /// Build an OR condition chain; an empty or full expression stays as it is
    pub fn or(self, condition: ConditionType) -> (e: Self)
        requires
            self.inv(),
        ensures
            e.inv(),
            e.root_index == self.root_index,
            self.is_chain() ==> e.is_chain(),
            e.conditions@ == if 0 < self.conditions@.len() < MAX_CONDITIONS {
                self.chained(condition, LogicalOp::Or)
            } else {
                self.conditions@
            },
    {
        self.chain(condition, LogicalOp::Or)
    }

    /// Evaluate the expression against current market state
    pub fn evaluate(&self, ctx: &MarketContext) -> (r: bool)
        requires
            self.inv(),
            self.evaluable(),
        ensures
            r == self.value(*ctx),
    {
        if self.conditions.len() == 0 {
            return true;
        }
        self.evaluate_node(self.root_index, ctx)
    }

    fn evaluate_node(&self, node_idx: usize, ctx: &MarketContext) -> (r: bool)
        requires
            self.inv(),
            self.evaluable(),
            node_idx < self.conditions@.len(),
        ensures
            r == node_holds(self.conditions@, node_idx as int, *ctx),
        decreases self.conditions@.len() - node_idx,
    {
        let node = self.conditions[node_idx];
        let result = Self::eval_condition(node.condition, ctx);
        match node.operator {
            LogicalOp::And => {
                if !result {
                    return false;
                }
                match node.right_child {
                    Some(right) => self.evaluate_node(right, ctx),
                    None => true,
                }
            },
            LogicalOp::Or => {
                if result {
                    return true;
                }
                match node.right_child {
                    Some(right) => self.evaluate_node(right, ctx),
                    None => false,
                }
            },
            LogicalOp::Not => !result,
        }
    }

    fn eval_condition(condition: ConditionType, ctx: &MarketContext) -> (r: bool)
        requires
            known(condition),
        ensures
            r == holds(condition, *ctx),
            condition matches ConditionType::CvdGreaterThan(t) ==> r == (ctx.cvd > t),
            condition matches ConditionType::CvdLessThan(t) ==> r == (ctx.cvd < t),
            condition matches ConditionType::SpreadLessThan(t) ==> r == (ctx.spread_micros < t),
            condition matches ConditionType::SpreadGreaterThan(t) ==> r == (ctx.spread_micros > t),
            condition matches ConditionType::PriceAbove(t) ==> r == (ctx.current_price > t),
            condition matches ConditionType::PriceBelow(t) ==> r == (ctx.current_price < t),
            condition matches ConditionType::ImbalanceAbove(t) ==> r == (ctx.imbalance_ratio > t),
            condition matches ConditionType::ImbalanceBelow(t) ==> r == (ctx.imbalance_ratio < t),
            condition matches ConditionType::VolatilityBelow(t) ==> r == (ctx.volatility_scaled
                < t),
            condition matches ConditionType::VolatilityAbove(t) ==> r == (ctx.volatility_scaled
                > t),
            condition matches ConditionType::MicropriceDriftAbove(t) ==> r == (
            ctx.microprice_drift_scaled > t),
            condition matches ConditionType::MicropriceDriftBelow(t) ==> r == (
            ctx.microprice_drift_scaled < t),
    {
        match condition {
            ConditionType::CvdGreaterThan(threshold) => ctx.cvd > threshold,
            ConditionType::CvdLessThan(threshold) => ctx.cvd < threshold,
            ConditionType::SpreadLessThan(threshold) => ctx.spread_micros < threshold,
            ConditionType::SpreadGreaterThan(threshold) => ctx.spread_micros > threshold,
            ConditionType::PriceAbove(threshold) => ctx.current_price > threshold,
            ConditionType::PriceBelow(threshold) => ctx.current_price < threshold,
            ConditionType::ImbalanceAbove(threshold) => ctx.imbalance_ratio > threshold,
            ConditionType::ImbalanceBelow(threshold) => ctx.imbalance_ratio < threshold,
            ConditionType::VolatilityBelow(threshold) => ctx.volatility_scaled < threshold,
            ConditionType::VolatilityAbove(threshold) => ctx.volatility_scaled > threshold,
            ConditionType::MicropriceDriftAbove(threshold) => ctx.microprice_drift_scaled
                > threshold,
            ConditionType::MicropriceDriftBelow(threshold) => ctx.microprice_drift_scaled
                < threshold,
            ConditionType::FlagSet(flag_id) => ctx.flags & (1u64 << flag_id) != 0,
        }
    }
}

impl Default for ConditionalExpression {
    fn default() -> (e: Self)
        ensures
            e.inv(),
            e.is_chain(),
            e.conditions@.len() == 0,
            e.root_index == 0,
    {
        Self::new()
    }
}

/// A chain of conditions combined by AND holds exactly where every condition from the root on
/// holds.
pub proof fn law_and_chain_needs_every_condition(e: ConditionalExpression, ctx: MarketContext)
    requires
        e.inv(),
        e.is_chain(),
        e.conditions@.len() > 0,
        forall|i: int|
            e.root_index <= i < e.conditions@.len() ==> (#[trigger] e.conditions@[i]).operator
                == LogicalOp::And,
    ensures
        e.value(ctx) == forall|i: int|
            e.root_index <= i < e.conditions@.len() ==> holds(
                (#[trigger] e.conditions@[i]).condition,
                ctx,
            ),
{
    lemma_and_chain(e, ctx, e.root_index as int);
}

proof fn lemma_and_chain(e: ConditionalExpression, ctx: MarketContext, k: int)
    requires
        e.inv(),
        e.is_chain(),
        e.root_index <= k < e.conditions@.len(),
        forall|i: int|
            e.root_index <= i < e.conditions@.len() ==> (#[trigger] e.conditions@[i]).operator
                == LogicalOp::And,
    ensures
        node_holds(e.conditions@, k, ctx) == forall|i: int|
            k <= i < e.conditions@.len() ==> holds((#[trigger] e.conditions@[i]).condition, ctx),
    decreases e.conditions@.len() - k,
{
    let node = e.conditions@[k];
    if k + 1 < e.conditions@.len() {
        lemma_and_chain(e, ctx, k + 1);
        assert(node.right_child == Some((k + 1) as usize));
        let rest = forall|i: int|
            k + 1 <= i < e.conditions@.len() ==> holds(
                (#[trigger] e.conditions@[i]).condition,
                ctx,
            );
        assert(node_holds(e.conditions@, k, ctx) == (holds(node.condition, ctx) && rest));
        if holds(node.condition, ctx) && rest {
            assert forall|i: int| k <= i < e.conditions@.len() implies holds(
                (#[trigger] e.conditions@[i]).condition,
                ctx,
            ) by {
                if i > k {
                    assert(holds(e.conditions@[i].condition, ctx));
                }
            }
        }
    } else {
        assert(node.right_child is None);
    }
}

/// A chain of conditions combined by OR holds exactly where some condition from the root on holds.
pub proof fn law_or_chain_needs_some_condition(e: ConditionalExpression, ctx: MarketContext)
    requires
        e.inv(),
        e.is_chain(),
        e.conditions@.len() > 0,
        forall|i: int|
            e.root_index <= i < e.conditions@.len() ==> (#[trigger] e.conditions@[i]).operator
                == LogicalOp::Or,
    ensures
        e.value(ctx) == exists|i: int|
            e.root_index <= i < e.conditions@.len() && holds(
                (#[trigger] e.conditions@[i]).condition,
                ctx,
            ),
{
    lemma_or_chain(e, ctx, e.root_index as int);
}

proof fn lemma_or_chain(e: ConditionalExpression, ctx: MarketContext, k: int)
    requires
        e.inv(),
        e.is_chain(),
        e.root_index <= k < e.conditions@.len(),
        forall|i: int|
            e.root_index <= i < e.conditions@.len() ==> (#[trigger] e.conditions@[i]).operator
                == LogicalOp::Or,
    ensures
        node_holds(e.conditions@, k, ctx) == exists|i: int|
            k <= i < e.conditions@.len() && holds((#[trigger] e.conditions@[i]).condition, ctx),
    decreases e.conditions@.len() - k,
{
    let node = e.conditions@[k];
    if k + 1 < e.conditions@.len() {
        lemma_or_chain(e, ctx, k + 1);
        assert(node.right_child == Some((k + 1) as usize));
    } else {
        assert(node.right_child is None);
    }
}

/// Time in force options
#[derive(Debug, Clone, Copy, PartialEq, Eq, Structural)]
pub enum TimeInForce {
    ImmediateOrCancel,
    FillOrKill,
    GoodTillCancelled,
    GoodTillDate(u64),
}

/// Child order specification
#[derive(Debug, Clone, Copy, PartialEq, Eq, Structural)]
pub struct ChildOrder {
    /// Side: true = buy, false = sell
    pub is_buy: bool,
    /// Quantity in base units
    pub quantity: u64,
    /// Limit price in micro-units (0 = market)
    pub limit_price_micros: u64,
    /// Time in force
    pub tif: TimeInForce,
    /// Target venue
    pub venue_id: u8,
}

/// A conditional order ready for execution
#[derive(Debug)]
pub struct ConditionalOrder {
    /// Unique order ID
    pub id: u64,
    /// The condition expression
    pub expression: ConditionalExpression,
    /// Child order to execute when condition is met
    pub child_order: ChildOrder,
    /// Whether order has been executed
    pub executed: bool,
    /// Whether order is cancelled
    pub cancelled: bool,
    /// Expiration timestamp (nanoseconds)
    pub expiration_ns: u64,
}

impl ConditionalOrder {
    pub open spec fn inv(&self) -> bool {
        self.expression.inv() && self.expression.evaluable()
    }

    /// True where an order waits for its condition.
    pub open spec fn active(&self) -> bool {
        !self.executed && !self.cancelled
    }

    /// True where an order waits no longer at a given time; an expiration at zero never comes.
    pub open spec fn expired(&self, now_ns: u64) -> bool {
        now_ns > self.expiration_ns && self.expiration_ns > 0
    }

    /// True where a market makes the order lapse.
    pub open spec fn lapses(&self, ctx: MarketContext) -> bool {
        self.active() && self.expired(ctx.timestamp_ns)
    }

    /// True where a market triggers the order.
    pub open spec fn fires(&self, ctx: MarketContext) -> bool {
        self.active() && !self.expired(ctx.timestamp_ns) && self.expression.value(ctx)
    }

    /// The order after a look at the market.
    pub open spec fn after(&self, ctx: MarketContext) -> ConditionalOrder {
        ConditionalOrder {
            executed: self.executed || self.fires(ctx),
            cancelled: self.cancelled || self.lapses(ctx),
            ..*self
        }
    }
}

/// The child orders that a market triggers, in the order of their conditional orders.
pub open spec fn fired(orders: Seq<ConditionalOrder>, ctx: MarketContext) -> Seq<ChildOrder>
    decreases orders.len(),
{
    if orders.len() == 0 {
        Seq::empty()
    } else {
        let before = fired(orders.drop_last(), ctx);
        if orders.last().fires(ctx) {
            before.push(orders.last().child_order)
        } else {
            before
        }
    }
}

/// How many orders a market makes lapse.
pub open spec fn lapsed(orders: Seq<ConditionalOrder>, ctx: MarketContext) -> nat
    decreases orders.len(),
{
    if orders.len() == 0 {
        0
    } else {
        lapsed(orders.drop_last(), ctx) + if orders.last().lapses(ctx) {
            1nat
        } else {
            0nat
        }
    }
}

/// How many orders are active.
pub open spec fn active_count(orders: Seq<ConditionalOrder>) -> nat
    decreases orders.len(),
{
    if orders.len() == 0 {
        0
    } else {
        active_count(orders.drop_last()) + if orders.last().active() {
            1nat
        } else {
            0nat
        }
    }
}

/// Conditional order router managing multiple conditional orders
#[derive(Debug)]
pub struct ConditionalOrderRouter {
    /// Conditional orders, at most 64
    pub orders: Vec<ConditionalOrder>,
    /// Execution counter
    pub executions: u64,
    /// Rejections counter
    pub rejections: u64,
    /// Router enabled flag
    pub enabled: bool,
}

impl ConditionalOrderRouter {
    pub open spec fn inv(&self) -> bool {
        &&& self.orders@.len() <= MAX_ORDERS
        &&& forall|i: int| 0 <= i < self.orders@.len() ==> (#[trigger] self.orders@[i]).inv()
    }

    /// Create a new conditional order router
    pub fn new() -> (r: Self)
        ensures
            r.inv(),
            r.orders@.len() == 0,
            r.executions == 0,
            r.rejections == 0,
            r.enabled,
    {
        Self { orders: Vec::new(), executions: 0, rejections: 0, enabled: true }
    }

    /// Add a new conditional order
    /// Returns order ID on success, None if pool is full or the router is off
    pub fn add_order(
        &mut self,
        expression: ConditionalExpression,
        child_order: ChildOrder,
        expiration_ns: u64,
    ) -> (r: Option<u64>)
        requires
            old(self).inv(),
            expression.inv(),
            expression.evaluable(),
        ensures
            final(self).inv(),
            final(self).executions == old(self).executions,
            final(self).rejections == old(self).rejections,
            final(self).enabled == old(self).enabled,
            if old(self).enabled && old(self).orders@.len() < MAX_ORDERS {
                &&& r == Some((old(self).orders@.len() + 1) as u64)
                &&& final(self).orders@ == old(self).orders@.push(
                    ConditionalOrder {
                        id: (old(self).orders@.len() + 1) as u64,
                        expression,
                        child_order,
                        executed: false,
                        cancelled: false,
                        expiration_ns,
                    },
                )
            } else {
                r is None && final(self).orders@ == old(self).orders@
            },
    {
        if !self.enabled {
            return None;
        }
        let count: usize = self.orders.len();
        if count >= MAX_ORDERS {
            return None;
        }
        let id: u64 = count as u64 + 1;
        self.orders.push(
            ConditionalOrder {
                id,
                expression,
                child_order,
                executed: false,
                cancelled: false,
                expiration_ns,
            },
        );
        Some(id)
    }

    /// Evaluate all conditions and hand out the child orders to execute, in the order of their
    /// conditional orders; orders past their expiration are cancelled
    pub fn evaluate_and_execute(&mut self, ctx: &MarketContext) -> (triggered: Vec<ChildOrder>)
        requires
            old(self).inv(),
        ensures
            final(self).inv(),
            final(self).enabled == old(self).enabled,
            if old(self).enabled {
                &&& triggered@ == fired(old(self).orders@, *ctx)
                &&& final(self).orders@ == old(self).orders@.map_values(
                    |o: ConditionalOrder| o.after(*ctx),
                )
                &&& final(self).executions == old(self).executions.wrapping_add(
                    triggered@.len() as u64,
                )
                &&& final(self).rejections == old(self).rejections.wrapping_add(
                    lapsed(old(self).orders@, *ctx) as u64,
                )
            } else {
                &&& triggered@.len() == 0
                &&& final(self).orders@ == old(self).orders@
                &&& final(self).executions == old(self).executions
                &&& final(self).rejections == old(self).rejections
            },
    {
        let mut triggered: Vec<ChildOrder> = Vec::new();
        if !self.enabled {
            return triggered;
        }
        let ghost all = self.orders@;
        let mut rejected: u64 = 0;
        let mut i: usize = 0;
        assert(all.take(0) =~= Seq::<ConditionalOrder>::empty());
        while i < self.orders.len()
            invariant
                self.inv(),
                i <= self.orders@.len(),
                all == old(self).orders@,
                self.orders@.len() == all.len(),
                self.enabled == old(self).enabled,
                self.executions == old(self).executions,
                self.rejections == old(self).rejections,
                forall|j: int| 0 <= j < i ==> #[trigger] self.orders@[j] == all[j].after(*ctx),
                forall|j: int| i <= j < all.len() ==> #[trigger] self.orders@[j] == all[j],
                triggered@ == fired(all.take(i as int), *ctx),
                triggered@.len() <= i,
                rejected == lapsed(all.take(i as int), *ctx),
                rejected <= i,
            decreases self.orders.len() - i,
        {
            proof {
                assert(all.take(i + 1).drop_last() =~= all.take(i as int));
                assert(all.take(i + 1).last() == all[i as int]);
                assert(self.orders@[i as int] == all[i as int]);
                assert(self.orders@[i as int].inv());
            }
            let waiting = !self.orders[i].executed && !self.orders[i].cancelled;
            if waiting {
                let expiration: u64 = self.orders[i].expiration_ns;
                if ctx.timestamp_ns > expiration && expiration > 0 {
                    let order = &mut self.orders[i];
                    order.cancelled = true;
                    rejected = rejected + 1;
                } else if self.orders[i].expression.evaluate(ctx) {
                    triggered.push(self.orders[i].child_order);
                    let order = &mut self.orders[i];
                    order.executed = true;
                }
            }
            assert(self.orders@[i as int] == all[i as int].after(*ctx));
            i = i + 1;
        }
        assert(all.take(i as int) =~= all);
        assert(self.orders@ =~= all.map_values(|o: ConditionalOrder| o.after(*ctx)));
        self.executions = self.executions.wrapping_add(triggered.len() as u64);
        self.rejections = self.rejections.wrapping_add(rejected);
        triggered
    }

    /// Cancel an order by ID
    /// Returns true unless the order is unknown or was executed
    pub fn cancel_order(&mut self, id: u64) -> (r: bool)
        requires
            old(self).inv(),
        ensures
            final(self).inv(),
            r == (1 <= id <= old(self).orders@.len() && !old(self).orders@[id - 1].executed),
            final(self).orders@ == if r {
                old(self).orders@.update(
                    id - 1,
                    ConditionalOrder { cancelled: true, ..old(self).orders@[id - 1] },
                )
            } else {
                old(self).orders@
            },
            final(self).executions == old(self).executions,
            final(self).rejections == old(self).rejections,
            final(self).enabled == old(self).enabled,
    {
        if id == 0 || id > self.orders.len() as u64 {
            return false;
        }
        let k: usize = (id - 1) as usize;
        assert(self.orders@[k as int].inv());
        if !self.orders[k].executed {
            let order = &mut self.orders[k];
            order.cancelled = true;
            return true;
        }
        false
    }

    /// Get execution count
    pub fn get_execution_count(&self) -> (r: u64)
        ensures
            r == self.executions,
    {
        self.executions
    }

    /// Get rejection count
    pub fn get_rejection_count(&self) -> (r: u64)
        ensures
            r == self.rejections,
    {
        self.rejections
    }

    /// Get active order count
    pub fn get_active_count(&self) -> (r: u64)
        requires
            self.inv(),
        ensures
            r == active_count(self.orders@),
    {
        let ghost all = self.orders@;
        let mut active: u64 = 0;
        let mut i: usize = 0;
        assert(all.take(0) =~= Seq::<ConditionalOrder>::empty());
        while i < self.orders.len()
            invariant
                i <= self.orders@.len(),
                self.orders@.len() <= MAX_ORDERS,
                all == self.orders@,
                active == active_count(all.take(i as int)),
                active <= i,
            decreases self.orders.len() - i,
        {
            assert(all.take(i + 1).drop_last() =~= all.take(i as int));
            if !self.orders[i].executed && !self.orders[i].cancelled {
                active = active + 1;
            }
            i = i + 1;
        }
        assert(all.take(i as int) =~= all);
        active
    }

    /// Enable the router
    pub fn enable(&mut self)
        ensures
            *final(self) == (ConditionalOrderRouter { enabled: true, ..*old(self) }),
    {
        self.enabled = true;
    }

    /// Disable the router
    pub fn disable(&mut self)
        ensures
            *final(self) == (ConditionalOrderRouter { enabled: false, ..*old(self) }),
    {
        self.enabled = false;
    }

    /// Clear all orders
    pub fn clear(&mut self)
        ensures
            final(self).orders@.len() == 0,
            final(self).inv(),
            final(self).executions == old(self).executions,
            final(self).rejections == old(self).rejections,
            final(self).enabled == old(self).enabled,
    {
        self.orders.clear();
    }
}

impl Default for ConditionalOrderRouter {
    fn default() -> (r: Self)
        ensures
            r.inv(),
            r.orders@.len() == 0,
            r.executions == 0,
            r.rejections == 0,
            r.enabled,
    {
        Self::new()
    }
}

/// An order fires once at most: after it fired, lapsed or was cancelled, no market triggers it.
pub proof fn law_order_fires_once(o: ConditionalOrder, first: MarketContext, later: MarketContext)
    requires
        o.fires(first) || o.lapses(first) || o.executed || o.cancelled,
    ensures
        !o.after(first).fires(later),
        !o.after(first).lapses(later),
        o.after(first).after(later) == o.after(first),
{
}

/// An expression of one condition.
pub open spec fn is_single(e: ConditionalExpression, c: ConditionType) -> bool {
    &&& e.conditions@.len() == 1
    &&& e.root_index == 0
    &&& e.conditions@[0].condition == c
    &&& e.conditions@[0].operator == LogicalOp::And
    &&& e.conditions@[0].right_child is None
}

/// An expression of one condition holds exactly where the comparison holds that the condition is
/// named after.
pub proof fn law_condition_is_its_comparison(
    e: ConditionalExpression,
    c: ConditionType,
    ctx: MarketContext,
)
    requires
        is_single(e, c),
        known(c),
    ensures
        c matches ConditionType::CvdGreaterThan(t) ==> (e.value(ctx) <==> ctx.cvd > t),
        c matches ConditionType::CvdLessThan(t) ==> (e.value(ctx) <==> ctx.cvd < t),
        c matches ConditionType::SpreadLessThan(t) ==> (e.value(ctx) <==> ctx.spread_micros < t),
        c matches ConditionType::SpreadGreaterThan(t) ==> (e.value(ctx) <==> ctx.spread_micros > t),
        c matches ConditionType::PriceAbove(t) ==> (e.value(ctx) <==> ctx.current_price > t),
        c matches ConditionType::PriceBelow(t) ==> (e.value(ctx) <==> ctx.current_price < t),
        c matches ConditionType::ImbalanceAbove(t) ==> (e.value(ctx) <==> ctx.imbalance_ratio > t),
        c matches ConditionType::ImbalanceBelow(t) ==> (e.value(ctx) <==> ctx.imbalance_ratio < t),
        c matches ConditionType::VolatilityBelow(t) ==> (e.value(ctx) <==> ctx.volatility_scaled < t),
        c matches ConditionType::VolatilityAbove(t) ==> (e.value(ctx) <==> ctx.volatility_scaled > t),
        c matches ConditionType::MicropriceDriftAbove(t) ==> (e.value(ctx)
                <==> ctx.microprice_drift_scaled > t),
        c matches ConditionType::MicropriceDriftBelow(t) ==> (e.value(ctx)
                <==> ctx.microprice_drift_scaled < t),
        c matches ConditionType::FlagSet(f) ==> (e.value(ctx) <==> (ctx.flags >> f) % 2 == 1),
{
    assert(e.value(ctx) == holds(c, ctx));
    match c {
        ConditionType::FlagSet(f) => {
            let flags = ctx.flags;
            assert((flags & (1u64 << f) != 0) == ((flags >> f) % 2 == 1)) by (bit_vector)
                requires
                    f < 64,
            ;
        },
        _ => {},
    }
}

/// The value that a condition measures.
pub open spec fn measured(c: ConditionType, ctx: MarketContext) -> int {
    match c {
        ConditionType::CvdGreaterThan(_) | ConditionType::CvdLessThan(_) => ctx.cvd as int,
        ConditionType::SpreadLessThan(_)
        | ConditionType::SpreadGreaterThan(_) => ctx.spread_micros as int,
        ConditionType::PriceAbove(_) | ConditionType::PriceBelow(_) => ctx.current_price as int,
        ConditionType::ImbalanceAbove(_)
        | ConditionType::ImbalanceBelow(_) => ctx.imbalance_ratio as int,
        ConditionType::VolatilityBelow(_)
        | ConditionType::VolatilityAbove(_) => ctx.volatility_scaled as int,
        ConditionType::MicropriceDriftAbove(_)
        | ConditionType::MicropriceDriftBelow(_) => ctx.microprice_drift_scaled as int,
        ConditionType::FlagSet(_) => 0,
    }
}

/// Raising the measured value never turns off a condition that asks for more than its threshold,
/// nor turns on one that asks for less.
pub proof fn law_conditions_are_monotone(
    e: ConditionalExpression,
    c: ConditionType,
    low: MarketContext,
    high: MarketContext,
)
    requires
        is_single(e, c),
        measured(c, low) <= measured(c, high),
    ensures
        (c is CvdGreaterThan || c is SpreadGreaterThan || c is PriceAbove || c is ImbalanceAbove
            || c is VolatilityAbove || c is MicropriceDriftAbove) && e.value(low) ==> e.value(high),
        (c is CvdLessThan || c is SpreadLessThan || c is PriceBelow || c is ImbalanceBelow
            || c is VolatilityBelow || c is MicropriceDriftBelow) && e.value(high) ==> e.value(low),
{
    assert(e.value(low) == holds(c, low));
    assert(e.value(high) == holds(c, high));
}

/// An expression without conditions always holds.
pub proof fn law_empty_expression_holds(e: ConditionalExpression, ctx: MarketContext)
    requires
        e.conditions@.len() == 0,
    ensures
        e.value(ctx),
{
}

/// A chain that is made longer keeps its conditions and gets one more; its value is that of its
/// first condition, combined with the rest of the chain by AND or by OR.
pub proof fn law_chain_combines_its_conditions(
    e: ConditionalExpression,
    rest: ConditionalExpression,
    ctx: MarketContext,
)
    requires
        e.inv(),
        e.is_chain(),
        e.root_index + 1 < e.conditions@.len(),
        rest.conditions@ == e.conditions@,
        rest.root_index == e.root_index + 1,
    ensures
        e.conditions@[e.root_index as int].operator == LogicalOp::And ==> (e.value(ctx) <==> (holds(
            e.conditions@[e.root_index as int].condition,
            ctx,
        ) && rest.value(ctx))),
        e.conditions@[e.root_index as int].operator == LogicalOp::Or ==> (e.value(ctx) <==> (holds(
            e.conditions@[e.root_index as int].condition,
            ctx,
        ) || rest.value(ctx))),
{
    assert(e.conditions@[e.root_index as int].right_child == Some((e.root_index + 1) as usize));
}

/// An order is handed out exactly where it was neither executed nor cancelled, its expiration is
/// zero or not past, and its expression holds; past its expiration it is cancelled instead.
pub proof fn law_order_waits_for_its_condition(o: ConditionalOrder, ctx: MarketContext)
    ensures
        fired(seq![o], ctx) == if !o.executed && !o.cancelled && (o.expiration_ns == 0
            || ctx.timestamp_ns <= o.expiration_ns) && o.expression.value(ctx) {
            seq![o.child_order]
        } else {
            Seq::<ChildOrder>::empty()
        },
        o.after(ctx).executed == (o.executed || fired(seq![o], ctx).len() == 1),
        o.after(ctx).cancelled == (o.cancelled || (!o.executed && o.expiration_ns != 0
            && ctx.timestamp_ns > o.expiration_ns)),
        lapsed(seq![o], ctx) == if o.after(ctx).cancelled && !o.cancelled {
            1nat
        } else {
            0nat
        },
        active_count(seq![o]) == if o.executed || o.cancelled {
            0nat
        } else {
            1nat
        },
        o.after(ctx).child_order == o.child_order,
        o.after(ctx).id == o.id,
        o.after(ctx).expression == o.expression,
        o.after(ctx).expiration_ns == o.expiration_ns,
{
    assert(seq![o].drop_last() =~= Seq::<ConditionalOrder>::empty());
    assert(seq![o].last() == o);
    assert(fired(Seq::<ConditionalOrder>::empty(), ctx) =~= Seq::<ChildOrder>::empty());
    assert(Seq::<ChildOrder>::empty().push(o.child_order) =~= seq![o.child_order]);
    reveal_with_fuel(fired, 2);
    reveal_with_fuel(lapsed, 2);
    reveal_with_fuel(active_count, 2);
}

/// What a pool of orders hands out is what its orders hand out one after the other.
pub proof fn law_pool_hands_out_in_order(
    a: Seq<ConditionalOrder>,
    b: Seq<ConditionalOrder>,
    ctx: MarketContext,
)
    ensures
        fired(a + b, ctx) == fired(a, ctx) + fired(b, ctx),
        lapsed(a + b, ctx) == lapsed(a, ctx) + lapsed(b, ctx),
        active_count(a + b) == active_count(a) + active_count(b),
    decreases b.len(),
{
    if b.len() == 0 {
        assert(a + b =~= a);
        assert(fired(a, ctx) + fired(b, ctx) =~= fired(a, ctx));
    } else {
        law_pool_hands_out_in_order(a, b.drop_last(), ctx);
        assert((a + b).drop_last() =~= a + b.drop_last());
        assert((a + b).last() == b.last());
        assert(fired(a + b, ctx) =~= fired(a, ctx) + fired(b, ctx));
    }
}

} // verus!
