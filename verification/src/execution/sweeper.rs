//! Sweeps of the order book: how much each level gives, what thin levels hide, and how a large
//! order is sliced.
use crate::doubles::{above, larger, LARGEST, ONE_BITS, ZERO};
use vstd::prelude::*;

verus! {

broadcast use vstd::array::group_array_axioms;

/// Maximum number of price levels to sweep
pub const MAX_SWEEP_LEVELS: usize = 32;

/// One as a fraction with 48 binary places.
pub const UNIT_FRACTION: u64 = 0x1_0000_0000_0000;

/// Largest size that a sweep may be limited to, in base units.
pub const MAX_SWEEP_LIMIT: u64 = 100_000;

/// Largest cost of a single fill.
pub const MAX_FILL_COST: u128 = 0x1_0000_0000_0000_0000_0000;

/// Order book level structure
#[derive(Debug, Clone, Copy, PartialEq, Eq, Structural)]
pub struct OrderBookLevel {
    /// Q16.48 fixed-point
    pub price: u64,
    /// Base units
    pub size: i64,
}

/// L2 order book snapshot
#[derive(Debug, Clone, Copy)]
pub struct OrderBookSnapshot {
    pub bids: [OrderBookLevel; 32],
    pub asks: [OrderBookLevel; 32],
    pub bid_count: usize,
    pub ask_count: usize,
    pub timestamp_ns: u64,
}

/// The first levels of a side, as many as it says it holds.
pub open spec fn held(levels: Seq<OrderBookLevel>, count: usize) -> Seq<OrderBookLevel> {
    if count <= levels.len() {
        levels.take(count as int)
    } else {
        levels
    }
}

impl OrderBookSnapshot {
    /// The bids, best first.
    pub open spec fn bid_levels(&self) -> Seq<OrderBookLevel> {
        held(self.bids@, self.bid_count)
    }

    /// The asks, best first.
    pub open spec fn ask_levels(&self) -> Seq<OrderBookLevel> {
        held(self.asks@, self.ask_count)
    }

    /// The levels of a side: the bids are side zero.
    pub open spec fn levels(&self, side: u8) -> Seq<OrderBookLevel> {
        if side == 0 {
            self.bid_levels()
        } else {
            self.ask_levels()
        }
    }
}

impl OrderBookSnapshot {
    /// True where the snapshot holds no level and was never taken.
    pub open spec fn blank(&self) -> bool {
        &&& self.bid_count == 0
        &&& self.ask_count == 0
        &&& self.timestamp_ns == 0
        &&& forall|i: int|
            0 <= i < 32 ==> #[trigger] self.bids@[i] == (OrderBookLevel { price: 0, size: 0 })
        &&& forall|i: int|
            0 <= i < 32 ==> #[trigger] self.asks@[i] == (OrderBookLevel { price: 0, size: 0 })
    }
}

impl Default for OrderBookSnapshot {
    fn default() -> (s: Self)
        ensures
            s.blank(),
    {
        OrderBookSnapshot {
            bids: [OrderBookLevel { price: 0, size: 0 };32],
            asks: [OrderBookLevel { price: 0, size: 0 };32],
            bid_count: 0,
            ask_count: 0,
            timestamp_ns: 0,
        }
    }
}

/// Sweep urgency based on market conditions
#[derive(Debug, Clone, Copy, PartialEq, Eq, Structural)]
pub enum SweepUrgency {
    Normal,
    Elevated,
    High,
    Emergency,
}

/// What a fill at a level costs, and how far its price is from the first level's.
#[derive(Debug, Clone, Copy, PartialEq, Eq, Structural)]
pub struct FillOutcome {
    /// Cost in quote currency
    pub cost: u128,
    /// Slippage in basis points, as the bits of a double
    pub slippage_bps: u64,
}

/// The bits of 100 basis points.
pub const ONE_PERCENT_BPS: u64 = 0x4059_0000_0000_0000;

/// Parts of the slippage tolerance in basis points, as the bits of doubles
#[derive(Debug, Clone, Copy, PartialEq, Eq, Structural)]
pub struct SlippageBounds {
    pub half: u64,
    pub three_quarters: u64,
    pub whole: u64,
}

/// The urgency that slippage stands for: below a half of the tolerance, below three quarters, below
/// the whole, or not below it.
pub open spec fn urgency_at(slippage_bps: u64, bounds: SlippageBounds) -> SweepUrgency {
    if crate::doubles::greater(bounds.half, slippage_bps) {
        SweepUrgency::Normal
    } else if crate::doubles::greater(bounds.three_quarters, slippage_bps) {
        SweepUrgency::Elevated
    } else if crate::doubles::greater(bounds.whole, slippage_bps) {
        SweepUrgency::High
    } else {
        SweepUrgency::Emergency
    }
}

/// The urgency that slippage stands for.
fn urgency_for(slippage_bps: u64, bounds: SlippageBounds) -> (u: SweepUrgency)
    ensures
        u == urgency_at(slippage_bps, bounds),
{
    if above(bounds.half, slippage_bps) {
        SweepUrgency::Normal
    } else if above(bounds.three_quarters, slippage_bps) {
        SweepUrgency::Elevated
    } else if above(bounds.whole, slippage_bps) {
        SweepUrgency::High
    } else {
        SweepUrgency::Emergency
    }
}

/// Sweep calculation result
#[derive(Debug, Clone, Copy, PartialEq, Eq, Structural)]
pub struct SweepResult {
    /// Total size to sweep
    pub total_size: i64,
    /// Volume-weighted average price
    pub avg_price: u64,
    /// Expected slippage in basis points, as the bits of a double
    pub slippage_bps: u64,
    /// Number of levels to clear
    pub levels_to_sweep: u32,
    /// Total cost in quote currency
    pub estimated_cost: i64,
    pub urgency: SweepUrgency,
}

/// Stop-loss cascade detection
#[derive(Debug, Clone, Copy, PartialEq, Eq, Structural)]
pub struct CascadeDetection {
    pub trigger_price: u64,
    pub estimated_volume: i64,
    /// Probability of a cascade, in tenths
    pub probability_tenths: u32,
    pub levels_affected: u32,
}

/// The smaller of two numbers.
pub open spec fn smaller(a: int, b: int) -> int {
    if a <= b {
        a
    } else {
        b
    }
}

/// What a level of a given size gives where `left` is left to take: nothing where either is not
/// positive.
pub open spec fn given(left: int, size: int) -> int {
    if left > 0 && size > 0 {
        smaller(left, size)
    } else {
        0
    }
}

/// What is left of a target after the first `k` levels.
pub open spec fn left_after(levels: Seq<OrderBookLevel>, target: int, k: nat) -> int
    decreases k,
{
    if k == 0 {
        target
    } else {
        let left = left_after(levels, target, (k - 1) as nat);
        left - given(left, levels[k - 1].size as int)
    }
}

/// What level `k` gives towards a target.
pub open spec fn fill_of(levels: Seq<OrderBookLevel>, target: int, k: nat) -> int {
    given(left_after(levels, target, k), levels[k as int].size as int)
}

/// The greatest slippage among the fills of the first `k` levels, at least zero.
pub open spec fn slippage_of(
    levels: Seq<OrderBookLevel>,
    target: int,
    outcomes: Seq<FillOutcome>,
    k: nat,
) -> u64
    decreases k,
{
    if k == 0 {
        ZERO
    } else {
        let before = slippage_of(levels, target, outcomes, (k - 1) as nat);
        if fill_of(levels, target, (k - 1) as nat) > 0 {
            crate::doubles::max_of(before, outcomes[k - 1].slippage_bps)
        } else {
            before
        }
    }
}

/// True where level `k` gives something and the slippage up to it exceeds the tolerance.
pub open spec fn stops_at(
    levels: Seq<OrderBookLevel>,
    target: int,
    outcomes: Seq<FillOutcome>,
    tolerance: u64,
    k: nat,
) -> bool {
    fill_of(levels, target, k) > 0 && crate::doubles::greater(
        slippage_of(levels, target, outcomes, k + 1),
        tolerance,
    )
}

/// How many levels are looked at: up to the first fill that exceeds the tolerance.
pub open spec fn reach(
    levels: Seq<OrderBookLevel>,
    target: int,
    outcomes: Seq<FillOutcome>,
    tolerance: u64,
    from: nat,
) -> nat
    decreases levels.len() - from,
{
    if from >= levels.len() {
        levels.len()
    } else if stops_at(levels, target, outcomes, tolerance, from) {
        from + 1
    } else {
        reach(levels, target, outcomes, tolerance, from + 1)
    }
}

/// What the fills of the first `k` levels cost.
pub open spec fn cost_of(
    levels: Seq<OrderBookLevel>,
    target: int,
    outcomes: Seq<FillOutcome>,
    k: nat,
) -> nat
    decreases k,
{
    if k == 0 {
        0
    } else {
        cost_of(levels, target, outcomes, (k - 1) as nat) + if fill_of(
            levels,
            target,
            (k - 1) as nat,
        ) > 0 {
            outcomes[k - 1].cost as nat
        } else {
            0
        }
    }
}

/// How many of the first `k` levels give something.
pub open spec fn filled_levels(levels: Seq<OrderBookLevel>, target: int, k: nat) -> nat
    decreases k,
{
    if k == 0 {
        0
    } else {
        filled_levels(levels, target, (k - 1) as nat) + if fill_of(levels, target, (k - 1) as nat)
            > 0 {
            1nat
        } else {
            0nat
        }
    }
}

/// A whole average price as a Q16.48 number, the largest one where it is too large.
pub open spec fn scaled_price(average: nat) -> u64 {
    if average * UNIT_FRACTION <= u64::MAX {
        (average * UNIT_FRACTION) as u64
    } else {
        u64::MAX
    }
}

/// The result of sweeping the levels towards a target.
pub open spec fn sweep(
    levels: Seq<OrderBookLevel>,
    target: int,
    outcomes: Seq<FillOutcome>,
    bounds: SlippageBounds,
) -> SweepResult {
    let k = reach(levels, target, outcomes, bounds.whole, 0);
    let swept = target - left_after(levels, target, k);
    let cost = cost_of(levels, target, outcomes, k);
    SweepResult {
        total_size: swept as i64,
        avg_price: if swept > 0 {
            scaled_price((cost as int / swept) as nat)
        } else {
            0
        },
        slippage_bps: slippage_of(levels, target, outcomes, k),
        levels_to_sweep: filled_levels(levels, target, k) as u32,
        estimated_cost: #[verifier::truncate] (cost as i64),
        urgency: urgency_at(slippage_of(levels, target, outcomes, k), bounds),
    }
}

/// How many of the first `k` levels are thinner than a least size.
pub open spec fn thin_levels(levels: Seq<OrderBookLevel>, least: i64, k: nat) -> nat
    decreases k,
{
    if k == 0 {
        0
    } else {
        thin_levels(levels, least, (k - 1) as nat) + if levels[k - 1].size < least {
            1nat
        } else {
            0nat
        }
    }
}

/// The volume of the thin ones among the first `k` levels.
pub open spec fn thin_volume(levels: Seq<OrderBookLevel>, least: i64, k: nat) -> int
    decreases k,
{
    if k == 0 {
        0
    } else {
        thin_volume(levels, least, (k - 1) as nat) + if levels[k - 1].size < least {
            levels[k - 1].size as int
        } else {
            0
        }
    }
}

/// True where level `k` is a wall behind thin levels: at least five times the least size, with at
/// least two thin levels in front.
pub open spec fn is_wall(levels: Seq<OrderBookLevel>, least: i64, k: nat) -> bool {
    &&& levels[k as int].size >= least
    &&& thin_levels(levels, least, k) >= 2
    &&& levels[k as int].size >= least * 5
}

/// The first wall, from level `from` on.
pub open spec fn first_wall(levels: Seq<OrderBookLevel>, least: i64, from: nat) -> Option<nat>
    decreases levels.len() - from,
{
    if from >= levels.len() {
        None
    } else if is_wall(levels, least, from) {
        Some(from)
    } else {
        first_wall(levels, least, from + 1)
    }
}

/// The cascade that a wall at level `k` hides. It is the more probable the more levels it affects.
pub open spec fn cascade_at(levels: Seq<OrderBookLevel>, least: i64, k: nat) -> CascadeDetection {
    let affected = thin_levels(levels, least, k) + 1;
    CascadeDetection {
        trigger_price: levels[k as int].price,
        estimated_volume: (thin_volume(levels, least, k) + levels[k as int].size) as i64,
        probability_tenths: if affected <= 9 {
            affected as u32
        } else {
            9
        },
        levels_affected: affected as u32,
    }
}

/// The cascade that the levels hide, if any. It takes at least three levels.
pub open spec fn cascade(levels: Seq<OrderBookLevel>, least: i64, count: usize) -> Option<
    CascadeDetection,
> {
    if count < 3 {
        None
    } else {
        match first_wall(levels, least, 0) {
            Some(k) => Some(cascade_at(levels, least, k)),
            None => None,
        }
    }
}

/// The volume of the first `k` levels.
pub open spec fn volume(levels: Seq<OrderBookLevel>, k: nat) -> int
    decreases k,
{
    if k == 0 {
        0
    } else {
        volume(levels, (k - 1) as nat) + levels[k - 1].size
    }
}

/// True where a number fits in 64 bits.
pub open spec fn fits_i64(x: int) -> bool {
    i64::MIN <= x <= i64::MAX
}

/// True where the volumes of the first levels, one after the other, fit in 64 bits.
pub open spec fn volumes_fit(levels: Seq<OrderBookLevel>) -> bool {
    forall|k: nat| k <= levels.len() ==> fits_i64(#[trigger] volume(levels, k))
}

/// True where the volumes of the thin levels fit in 64 bits, alone and with the level behind them.
pub open spec fn thin_volumes_fit(levels: Seq<OrderBookLevel>, least: i64) -> bool {
    forall|k: nat|
        k < levels.len() ==> {
            &&& fits_i64(#[trigger] thin_volume(levels, least, k))
            &&& fits_i64(thin_volume(levels, least, k) + levels[k as int].size)
        }
}

/// Liquidity sweeper engine
pub struct LiquiditySweeper {
    /// Current order book snapshot
    pub book: OrderBookSnapshot,
    /// Slippage tolerance, as a fraction with 48 binary places
    pub slippage_tolerance: u64,
    /// Max sweep size
    pub max_sweep_size: u64,
    /// Minimum liquidity threshold
    pub min_liquidity: i64,
    /// Cascade detection enabled
    pub cascade_enabled: bool,
}

/// A side of the book as a vector of its levels.
fn side_levels(levels: &[OrderBookLevel; 32], count: usize) -> (r: Vec<OrderBookLevel>)
    ensures
        r@ == held(levels@, count),
        r@.len() <= 32,
{
    let n: usize = if count < MAX_SWEEP_LEVELS {
        count
    } else {
        MAX_SWEEP_LEVELS
    };
    let mut out: Vec<OrderBookLevel> = Vec::new();
    let mut i: usize = 0;
    while i < n
        invariant
            i <= n,
            n <= 32,
            levels@.len() == 32,
            out@.len() == i,
            forall|j: int| 0 <= j < i ==> #[trigger] out@[j] == levels@[j],
        decreases n - i,
    {
        out.push(levels[i]);
        i = i + 1;
    }
    assert(out@ =~= held(levels@, count));
    out
}

/// The volume of levels.
fn sum_sizes(levels: &Vec<OrderBookLevel>) -> (r: i64)
    requires
        volumes_fit(levels@),
    ensures
        r == volume(levels@, levels@.len()),
{
    let mut total: i64 = 0;
    let mut i: usize = 0;
    while i < levels.len()
        invariant
            i <= levels@.len(),
            volumes_fit(levels@),
            total == volume(levels@, i as nat),
        decreases levels.len() - i,
    {
        assert(fits_i64(volume(levels@, (i + 1) as nat)));
        total = total + levels[i].size;
        i = i + 1;
    }
    total
}

/// The levels give no more than the target, and each no more than it holds.
proof fn lemma_left(levels: Seq<OrderBookLevel>, target: int, k: nat)
    requires
        k <= levels.len(),
    ensures
        target >= 0 ==> 0 <= left_after(levels, target, k) <= target,
        target < 0 ==> left_after(levels, target, k) == target,
    decreases k,
{
    if k > 0 {
        lemma_left(levels, target, (k - 1) as nat);
    }
}

/// The number of levels looked at.
proof fn lemma_reach(
    levels: Seq<OrderBookLevel>,
    target: int,
    outcomes: Seq<FillOutcome>,
    tolerance: u64,
    from: nat,
)
    requires
        from <= levels.len(),
    ensures
        from <= reach(levels, target, outcomes, tolerance, from) <= levels.len(),
    decreases levels.len() - from,
{
    if from < levels.len() && !stops_at(levels, target, outcomes, tolerance, from) {
        lemma_reach(levels, target, outcomes, tolerance, from + 1);
    }
}

/// A whole average price as a Q16.48 number.
fn scale_price(average: u128) -> (r: u64)
    ensures
        r == scaled_price(average as nat),
{
    if average <= 0xffff {
        (average as u64) * UNIT_FRACTION
    } else {
        u64::MAX
    }
}

impl LiquiditySweeper {
    /// The size that a sweep aims at: the target, at most the limit.
    pub open spec fn aim(&self, target_size: i64) -> int {
        smaller(target_size as int, self.max_sweep_size as int)
    }

    pub fn new() -> (s: Self)
        ensures
            s.book.blank(),
            s.slippage_tolerance == UNIT_FRACTION * 50 / 10_000,
            s.max_sweep_size == 1000,
            s.min_liquidity == 100,
            s.cascade_enabled,
    {
        Self {
            book: OrderBookSnapshot::default(),
            slippage_tolerance: UNIT_FRACTION * 50 / 10_000,
            max_sweep_size: 1000,
            min_liquidity: 100,
            cascade_enabled: true,
        }
    }

    /// Update order book snapshot
    pub fn update_book(&mut self, snapshot: OrderBookSnapshot)
        ensures
            *final(self) == (LiquiditySweeper { book: snapshot, ..*old(self) }),
    {
        self.book = snapshot;
    }

    /// The levels of a side.
    fn levels_of(&self, side: u8) -> (r: Vec<OrderBookLevel>)
        ensures
            r@ == self.book.levels(side),
            r@.len() <= 32,
    {
        if side == 0 {
            side_levels(&self.book.bids, self.book.bid_count)
        } else {
            side_levels(&self.book.asks, self.book.ask_count)
        }
    }

    /// The size that a sweep aims at.
    fn effective_target(&self, target_size: i64) -> (r: i64)
        ensures
            r == self.aim(target_size),
    {
        if target_size >= 0 && target_size as u64 > self.max_sweep_size {
            self.max_sweep_size as i64
        } else {
            target_size
        }
    }

    /// What each level of a side gives towards a target, where nothing stops the sweep before it.
    pub fn level_fills(&self, side: u8, target_size: i64) -> (fills: Vec<i64>)
        ensures
            fills@.len() == self.book.levels(side).len(),
            forall|k: int|
                0 <= k < fills@.len() ==> #[trigger] fills@[k] == fill_of(
                    self.book.levels(side),
                    self.aim(target_size),
                    k as nat,
                ),
    {
        let levels = self.levels_of(side);
        let target: i64 = self.effective_target(target_size);
        let mut remaining: i64 = target;
        let mut fills: Vec<i64> = Vec::new();
        let mut i: usize = 0;
        while i < levels.len()
            invariant
                i <= levels@.len(),
                fills@.len() == i,
                remaining == left_after(levels@, target as int, i as nat),
                forall|k: int|
                    0 <= k < i ==> #[trigger] fills@[k] == fill_of(
                        levels@,
                        target as int,
                        k as nat,
                    ),
            decreases levels.len() - i,
        {
            let mut fill: i64 = if remaining <= levels[i].size {
                remaining
            } else {
                levels[i].size
            };
            if fill < 0 {
                fill = 0;
            }
            assert(fill == fill_of(levels@, target as int, i as nat));
            assert(left_after(levels@, target as int, (i + 1) as nat) == remaining - fill);
            proof {
                lemma_left(levels@, target as int, (i + 1) as nat);
            }
            fills.push(fill);
            remaining = remaining - fill;
            i = i + 1;
        }
        fills
    }

    /// Calculate optimal sweep size for a given side
    ///
    /// `outcomes` says for each level what its fill costs and how far its price slips, and `bounds`
    /// how far it may.
    pub fn calculate_sweep(
        &self,
        side: u8,
        target_size: i64,
        outcomes: &Vec<FillOutcome>,
        bounds: SlippageBounds,
    ) -> (r: SweepResult)
        requires
            outcomes@.len() == self.book.levels(side).len(),
            forall|k: int| 0 <= k < outcomes@.len() ==> (#[trigger] outcomes@[k]).cost <= MAX_FILL_COST,
        ensures
            r == sweep(
                self.book.levels(side),
                self.aim(target_size),
                outcomes@,
                bounds,
            ),
    {
        let levels = self.levels_of(side);
        let target: i64 = self.effective_target(target_size);
        let mut remaining: i64 = target;
        let mut total_cost: u128 = 0;
        let mut levels_swept: u32 = 0;
        let mut slippage: u64 = ZERO;
        let mut stopped = false;
        let mut i: usize = 0;
        while i < levels.len() && !stopped
            invariant
                i <= levels@.len(),
                levels@.len() <= 32,
                outcomes@.len() == levels@.len(),
                forall|k: int|
                    0 <= k < outcomes@.len() ==> (#[trigger] outcomes@[k]).cost <= MAX_FILL_COST,
                remaining == left_after(levels@, target as int, i as nat),
                total_cost == cost_of(levels@, target as int, outcomes@, i as nat),
                total_cost <= MAX_FILL_COST * i,
                levels_swept == filled_levels(levels@, target as int, i as nat),
                levels_swept <= i,
                slippage == slippage_of(levels@, target as int, outcomes@, i as nat),
                reach(levels@, target as int, outcomes@, bounds.whole, 0) == if stopped {
                    i as nat
                } else {
                    reach(levels@, target as int, outcomes@, bounds.whole, i as nat)
                },
            decreases levels.len() - i,
        {
            let fill: i64 = if remaining <= levels[i].size {
                remaining
            } else {
                levels[i].size
            };
            proof {
                lemma_left(levels@, target as int, (i + 1) as nat);
                assert(left_after(levels@, target as int, (i + 1) as nat) == remaining - fill_of(
                    levels@,
                    target as int,
                    i as nat,
                ));
            }
            if fill > 0 {
                let outcome = outcomes[i];
                total_cost = total_cost + outcome.cost;
                remaining = remaining - fill;
                levels_swept = levels_swept + 1;
                slippage = larger(slippage, outcome.slippage_bps);
                if above(slippage, bounds.whole) {
                    stopped = true;
                }
            }
            assert(stopped == stops_at(
                levels@,
                target as int,
                outcomes@,
                bounds.whole,
                i as nat,
            ));
            i = i + 1;
        }
        proof {
            lemma_left(levels@, target as int, i as nat);
            assert(reach(levels@, target as int, outcomes@, bounds.whole, 0) == i);
        }
        let swept: i64 = if target >= 0 {
            target - remaining
        } else {
            0
        };
        let avg_price: u64 = if swept > 0 {
            scale_price(total_cost / (swept as u128))
        } else {
            0
        };
        SweepResult {
            total_size: swept,
            avg_price,
            slippage_bps: slippage,
            levels_to_sweep: levels_swept,
            estimated_cost: #[verifier::truncate] (total_cost as i64),
            urgency: urgency_for(slippage, bounds),
        }
    }

    /// Detect potential stop-loss cascade levels
    ///
    /// Looks for thin liquidity followed by a thick wall.
    pub fn detect_cascade(&self, side: u8) -> (r: Option<CascadeDetection>)
        requires
            self.cascade_enabled ==> thin_volumes_fit(self.book.levels(side), self.min_liquidity),
        ensures
            r == if self.cascade_enabled {
                cascade(
                    self.book.levels(side),
                    self.min_liquidity,
                    if side == 0 {
                        self.book.bid_count
                    } else {
                        self.book.ask_count
                    },
                )
            } else {
                None
            },
    {
        if !self.cascade_enabled {
            return None;
        }
        let count: usize = if side == 0 {
            self.book.bid_count
        } else {
            self.book.ask_count
        };
        if count < 3 {
            return None;
        }
        let levels = self.levels_of(side);
        let least: i64 = self.min_liquidity;
        let mut thin: u32 = 0;
        let mut volume: i64 = 0;
        let mut i: usize = 0;
        while i < levels.len()
            invariant
                self.cascade_enabled,
                i <= levels@.len(),
                levels@.len() <= 32,
                levels@ == self.book.levels(side),
                least == self.min_liquidity,
                count == if side == 0 {
                    self.book.bid_count
                } else {
                    self.book.ask_count
                },
                count >= 3,
                thin_volumes_fit(levels@, least),
                thin <= i,
                thin == thin_levels(levels@, least, i as nat),
                i < levels@.len() ==> volume == thin_volume(levels@, least, i as nat),
                first_wall(levels@, least, 0) == first_wall(levels@, least, i as nat),
            decreases levels.len() - i,
        {
            let size: i64 = levels[i].size;
            assert(fits_i64(thin_volume(levels@, least, i as nat)));
            if size < least {
                thin = thin + 1;
                volume = volume + size;
            } else if thin >= 2 && size as i128 >= least as i128 * 5 {
                let affected: u32 = thin + 1;
                return Some(
                    CascadeDetection {
                        trigger_price: levels[i].price,
                        estimated_volume: volume + size,
                        probability_tenths: if affected <= 9 {
                            affected
                        } else {
                            9
                        },
                        levels_affected: affected,
                    },
                );
            }
            i = i + 1;
        }
        None
    }

    /// Generate aggressive sweep order to trigger cascade
    ///
    /// Only where the cascade is more probable than not and the sweep clears its levels.
    pub fn generate_cascade_order(
        &self,
        side: u8,
        cascade: &CascadeDetection,
        outcomes: &Vec<FillOutcome>,
        bounds: SlippageBounds,
    ) -> (r: Option<SweepResult>)
        requires
            outcomes@.len() == self.book.levels(side).len(),
            forall|k: int| 0 <= k < outcomes@.len() ==> (#[trigger] outcomes@[k]).cost <= MAX_FILL_COST,
        ensures
            ({
                let s = sweep(
                    self.book.levels(side),
                    self.aim(cascade.estimated_volume),
                    outcomes@,
                    bounds,
                );
                r == if cascade.probability_tenths > 5 && s.levels_to_sweep
                    >= cascade.levels_affected {
                    Some(s)
                } else {
                    None
                }
            }),
    {
        let result = self.calculate_sweep(side, cascade.estimated_volume, outcomes, bounds);
        if cascade.probability_tenths > 5 && result.levels_to_sweep >= cascade.levels_affected {
            Some(result)
        } else {
            None
        }
    }

    /// The liquidity of the whole book.
    pub open spec fn liquidity(&self) -> int {
        volume(self.book.bid_levels(), self.book.bid_levels().len()) + volume(
            self.book.ask_levels(),
            self.book.ask_levels().len(),
        )
    }

    /// True where the liquidity of the book fits in 64 bits, added up level by level.
    pub open spec fn liquidity_fits(&self) -> bool {
        &&& volumes_fit(self.book.bid_levels())
        &&& volumes_fit(self.book.ask_levels())
        &&& fits_i64(self.liquidity())
    }

    /// The liquidity of the whole book
    pub fn total_liquidity(&self) -> (r: i64)
        requires
            self.liquidity_fits(),
        ensures
            r == self.liquidity(),
    {
        let bids = self.levels_of(0);
        let asks = self.levels_of(1);
        sum_sizes(&bids) + sum_sizes(&asks)
    }

    /// Calculate market impact, for what the square-root law gives against the liquidity of the book:
    /// one where there is none
    pub fn calculate_market_impact(&self, impact: u64) -> (r: u64)
        requires
            self.liquidity_fits(),
        ensures
            r == if self.liquidity() == 0 {
                ONE_BITS
            } else {
                impact
            },
    {
        if self.total_liquidity() == 0 {
            return ONE_BITS;
        }
        impact
    }

    /// The liquidity of the five best bids and of the five best asks.
    pub fn top_liquidity(&self) -> (r: (i64, i64))
        requires
            volumes_fit(held(self.book.bids@, top_count(self.book.bid_count))),
            volumes_fit(held(self.book.asks@, top_count(self.book.ask_count))),
        ensures
            r.0 == volume(self.book.bids@, top_count(self.book.bid_count) as nat),
            r.1 == volume(self.book.asks@, top_count(self.book.ask_count) as nat),
    {
        let nb: usize = if self.book.bid_count < 5 {
            self.book.bid_count
        } else {
            5
        };
        let na: usize = if self.book.ask_count < 5 {
            self.book.ask_count
        } else {
            5
        };
        let bids = side_levels(&self.book.bids, nb);
        let asks = side_levels(&self.book.asks, na);
        proof {
            lemma_volume_prefix(self.book.bids@, nb as nat, nb as nat);
            lemma_volume_prefix(self.book.asks@, na as nat, na as nat);
        }
        (sum_sizes(&bids), sum_sizes(&asks))
    }

    /// The liquidity of the five best bids.
    pub open spec fn bid_depth(&self) -> int {
        volume(self.book.bids@, top_count(self.book.bid_count) as nat)
    }

    /// The liquidity of the five best asks.
    pub open spec fn ask_depth(&self) -> int {
        volume(self.book.asks@, top_count(self.book.ask_count) as nat)
    }

    /// The difference of the liquidity at the best bids and asks, and their sum; none where that is
    /// zero
    pub fn imbalance_parts(&self) -> (r: Option<(i64, i64)>)
        requires
            volumes_fit(held(self.book.bids@, top_count(self.book.bid_count))),
            volumes_fit(held(self.book.asks@, top_count(self.book.ask_count))),
            fits_i64(self.bid_depth() + self.ask_depth()),
            fits_i64(self.bid_depth() - self.ask_depth()),
        ensures
            r == if self.bid_depth() + self.ask_depth() == 0 {
                None
            } else {
                Some(
                    (
                        (self.bid_depth() - self.ask_depth()) as i64,
                        (self.bid_depth() + self.ask_depth()) as i64,
                    ),
                )
            },
    {
        let (bids, asks) = self.top_liquidity();
        let total: i64 = bids + asks;
        if total == 0 {
            return None;
        }
        Some((bids - asks, total))
    }

    /// Get current spread in basis points, for what it comes to over the mid price: the largest
    /// number there is where a side holds no level with a price
    pub fn get_spread_bps(&self, spread: u64) -> (r: u64)
        ensures
            r == if self.book.bid_count == 0 || self.book.ask_count == 0
                || self.book.bids@[0].price == 0 || self.book.asks@[0].price == 0 {
                LARGEST
            } else {
                spread
            },
    {
        match self.best_prices() {
            Some(_) => spread,
            None => LARGEST,
        }
    }

    /// The best bid and the best ask, where both sides hold a level with a price.
    pub fn best_prices(&self) -> (r: Option<(u64, u64)>)
        ensures
            r == if self.book.bid_count == 0 || self.book.ask_count == 0
                || self.book.bids@[0].price == 0 || self.book.asks@[0].price == 0 {
                None
            } else {
                Some((self.book.bids@[0].price, self.book.asks@[0].price))
            },
    {
        if self.book.bid_count == 0 || self.book.ask_count == 0 {
            return None;
        }
        let bid: u64 = self.book.bids[0].price;
        let ask: u64 = self.book.asks[0].price;
        if bid == 0 || ask == 0 {
            return None;
        }
        Some((bid, ask))
    }

    /// Set slippage tolerance, as a fraction with 48 binary places, at most one
    pub fn set_slippage_tolerance(&mut self, fraction: u64)
        ensures
            *final(self) == (LiquiditySweeper {
                slippage_tolerance: if fraction <= UNIT_FRACTION {
                    fraction
                } else {
                    UNIT_FRACTION
                },
                ..*old(self)
            }),
    {
        self.slippage_tolerance = if fraction <= UNIT_FRACTION {
            fraction
        } else {
            UNIT_FRACTION
        };
    }

    /// Set maximum sweep size
    pub fn set_max_sweep_size(&mut self, size: i64)
        ensures
            *final(self) == (LiquiditySweeper {
                max_sweep_size: if size <= 0 {
                    0
                } else if size <= MAX_SWEEP_LIMIT {
                    size as u64
                } else {
                    MAX_SWEEP_LIMIT
                },
                ..*old(self)
            }),
    {
        self.max_sweep_size = if size <= 0 {
            0
        } else if size as u64 <= MAX_SWEEP_LIMIT {
            size as u64
        } else {
            MAX_SWEEP_LIMIT
        };
    }

    /// Enable/disable cascade detection
    pub fn set_cascade_detection(&mut self, enabled: bool)
        ensures
            *final(self) == (LiquiditySweeper { cascade_enabled: enabled, ..*old(self) }),
    {
        self.cascade_enabled = enabled;
    }
}

/// How many levels count as the top of the book.
pub open spec fn top_count(count: usize) -> usize {
    if count < 5 {
        count
    } else {
        5
    }
}

/// The volume of the first levels is that of the levels cut off behind them.
proof fn lemma_volume_prefix(levels: Seq<OrderBookLevel>, n: nat, k: nat)
    requires
        k <= n <= levels.len(),
    ensures
        volume(levels.take(n as int), k) == volume(levels, k),
    decreases k,
{
    if k > 0 {
        lemma_volume_prefix(levels, n, (k - 1) as nat);
    }
}

/// A sweep takes no more than it aims at, and no level gives more than it holds.
pub proof fn law_sweep_keeps_to_its_bounds(
    levels: Seq<OrderBookLevel>,
    target: int,
    outcomes: Seq<FillOutcome>,
    bounds: SlippageBounds,
    k: nat,
)
    requires
        k < levels.len(),
        levels.len() <= MAX_SWEEP_LEVELS,
        i64::MIN <= target <= i64::MAX,
    ensures
        0 <= fill_of(levels, target, k),
        fill_of(levels, target, k) > 0 ==> fill_of(levels, target, k) <= levels[k as int].size,
        0 <= sweep(levels, target, outcomes, bounds).total_size,
        target >= 0 ==> sweep(levels, target, outcomes, bounds).total_size <= target,
        sweep(levels, target, outcomes, bounds).levels_to_sweep <= levels.len(),
{
    lemma_reach(levels, target, outcomes, bounds.whole, 0);
    let n = reach(levels, target, outcomes, bounds.whole, 0);
    lemma_left(levels, target, n);
    lemma_filled(levels, target, n);
}

proof fn lemma_filled(levels: Seq<OrderBookLevel>, target: int, k: nat)
    ensures
        filled_levels(levels, target, k) <= k,
    decreases k,
{
    if k > 0 {
        lemma_filled(levels, target, (k - 1) as nat);
    }
}

/// Where no fill exceeds the tolerance and the book holds enough, the whole target is swept.
pub proof fn law_deep_book_gives_the_whole_target(
    levels: Seq<OrderBookLevel>,
    target: int,
    outcomes: Seq<FillOutcome>,
    bounds: SlippageBounds,
)
    requires
        0 <= target <= i64::MAX,
        forall|k: int| 0 <= k < levels.len() ==> (#[trigger] levels[k]).size >= 0,
        crate::doubles::no_less(bounds.whole, ZERO),
        forall|k: int|
            0 <= k < outcomes.len() ==> !crate::doubles::greater(
                (#[trigger] outcomes[k]).slippage_bps,
                bounds.whole,
            ),
        outcomes.len() == levels.len(),
        volume(levels, levels.len()) >= target,
    ensures
        sweep(levels, target, outcomes, bounds).total_size == target,
{
    lemma_reach_all(levels, target, outcomes, bounds.whole, 0);
    lemma_given(levels, target, levels.len());
    lemma_left(levels, target, levels.len());
}

/// Where no fill exceeds the tolerance, the greatest slippage does not.
proof fn lemma_slippage(
    levels: Seq<OrderBookLevel>,
    target: int,
    outcomes: Seq<FillOutcome>,
    tolerance: u64,
    k: nat,
)
    requires
        k <= outcomes.len(),
        crate::doubles::no_less(tolerance, ZERO),
        forall|j: int|
            0 <= j < outcomes.len() ==> !crate::doubles::greater((#[trigger] outcomes[j]).slippage_bps, tolerance),
    ensures
        !crate::doubles::greater(slippage_of(levels, target, outcomes, k), tolerance),
    decreases k,
{
    if k > 0 {
        lemma_slippage(levels, target, outcomes, tolerance, (k - 1) as nat);
        assert(!crate::doubles::greater(outcomes[k - 1].slippage_bps, tolerance));
    }
}

proof fn lemma_reach_all(
    levels: Seq<OrderBookLevel>,
    target: int,
    outcomes: Seq<FillOutcome>,
    tolerance: u64,
    from: nat,
)
    requires
        from <= levels.len(),
        outcomes.len() == levels.len(),
        crate::doubles::no_less(tolerance, ZERO),
        forall|k: int|
            0 <= k < outcomes.len() ==> !crate::doubles::greater((#[trigger] outcomes[k]).slippage_bps, tolerance),
    ensures
        reach(levels, target, outcomes, tolerance, from) == levels.len(),
    decreases levels.len() - from,
{
    if from < levels.len() {
        lemma_slippage(levels, target, outcomes, tolerance, from + 1);
        lemma_reach_all(levels, target, outcomes, tolerance, from + 1);
    }
}

proof fn lemma_given(levels: Seq<OrderBookLevel>, target: int, k: nat)
    requires
        k <= levels.len(),
        target >= 0,
        forall|j: int| 0 <= j < levels.len() ==> (#[trigger] levels[j]).size >= 0,
    ensures
        left_after(levels, target, k) == if volume(levels, k) <= target {
            target - volume(levels, k)
        } else {
            0
        },
    decreases k,
{
    if k > 0 {
        lemma_given(levels, target, (k - 1) as nat);
        assert(levels[k - 1].size >= 0);
    }
}

/// Child order for execution slicing
#[derive(Debug, Clone, Copy, PartialEq, Eq, Structural)]
pub struct ChildOrder {
    pub price: i64,
    pub size: i64,
    pub sequence: u32,
    pub wait_ms: u32,
}

/// Execution slicer for large sweeps
pub struct ExecutionSlicer {
    pub parent_size: i64,
    pub executed_size: i64,
    pub child_orders: Vec<ChildOrder>,
    pub next_child_idx: usize,
}

/// The wait before the first slice.
pub open spec fn base_wait(urgency: SweepUrgency) -> u32 {
    match urgency {
        SweepUrgency::Normal => 100,
        SweepUrgency::Elevated => 50,
        SweepUrgency::High => 10,
        SweepUrgency::Emergency => 0,
    }
}

/// Slice `i` of a parent order: all of one size, each ten milliseconds later.
pub open spec fn slice(parent_size: i64, num_slices: u32, urgency: SweepUrgency, i: int) -> ChildOrder {
    ChildOrder {
        price: 0,
        size: crate::numbers::quotient(parent_size as int, num_slices as int) as i64,
        sequence: i as u32,
        wait_ms: (base_wait(urgency) + i * 10) as u32,
    }
}

impl ExecutionSlicer {
    pub fn new(parent_size: i64, num_slices: u32, urgency: SweepUrgency) -> (s: Self)
        requires
            num_slices > 0,
            base_wait(urgency) + (num_slices - 1) * 10 <= u32::MAX,
        ensures
            s.parent_size == parent_size,
            s.executed_size == 0,
            s.next_child_idx == 0,
            s.child_orders@.len() == num_slices,
            forall|i: int|
                0 <= i < num_slices ==> #[trigger] s.child_orders@[i] == slice(
                    parent_size,
                    num_slices,
                    urgency,
                    i,
                ),
    {
        proof {
            crate::numbers::lemma_quotient_bound(parent_size as int, num_slices as int);
        }
        let size: i64 = crate::numbers::divide(parent_size as i128, num_slices as i128) as i64;
        let wait: u32 = match urgency {
            SweepUrgency::Normal => 100,
            SweepUrgency::Elevated => 50,
            SweepUrgency::High => 10,
            SweepUrgency::Emergency => 0,
        };
        let mut child_orders: Vec<ChildOrder> = Vec::new();
        let mut i: u32 = 0;
        while i < num_slices
            invariant
                i <= num_slices,
                wait == base_wait(urgency),
                wait + (num_slices - 1) * 10 <= u32::MAX,
                size == crate::numbers::quotient(parent_size as int, num_slices as int),
                child_orders@.len() == i,
                forall|j: int|
                    0 <= j < i ==> #[trigger] child_orders@[j] == slice(
                        parent_size,
                        num_slices,
                        urgency,
                        j,
                    ),
            decreases num_slices - i,
        {
            child_orders.push(ChildOrder { price: 0, size, sequence: i, wait_ms: wait + (i * 10) });
            i = i + 1;
        }
        Self { parent_size, executed_size: 0, child_orders, next_child_idx: 0 }
    }

    /// The slice that is due next.
    pub fn get_next_order(&self) -> (r: Option<&ChildOrder>)
        ensures
            self.next_child_idx < self.child_orders@.len() ==> r == Some(
                &self.child_orders@[self.next_child_idx as int],
            ),
            self.next_child_idx >= self.child_orders@.len() ==> r is None,
    {
        if self.next_child_idx < self.child_orders.len() {
            Some(&self.child_orders[self.next_child_idx])
        } else {
            None
        }
    }

    /// Goes on to the following slice.
    pub fn advance(&mut self)
        requires
            old(self).next_child_idx < usize::MAX,
        ensures
            *final(self) == (ExecutionSlicer {
                next_child_idx: (old(self).next_child_idx + 1) as usize,
                ..*old(self)
            }),
    {
        self.next_child_idx = self.next_child_idx + 1;
    }

    pub fn is_complete(&self) -> (r: bool)
        ensures
            r == (self.next_child_idx >= self.child_orders@.len()),
    {
        self.next_child_idx >= self.child_orders.len()
    }
}

/// The slices of a parent order together leave less than one unit per slice of it.
pub proof fn law_slices_cover_the_parent(parent_size: i64, num_slices: u32, urgency: SweepUrgency, i: int)
    requires
        parent_size >= 0,
        num_slices > 0,
    ensures
        0 <= parent_size - num_slices * slice(parent_size, num_slices, urgency, i).size
            < num_slices,
{
    let q = parent_size as int / num_slices as int;
    assert(0 <= parent_size - num_slices * q < num_slices && 0 <= q <= parent_size)
        by (nonlinear_arith)
        requires
            q == parent_size as int / num_slices as int,
            parent_size >= 0,
            num_slices > 0,
    ;
}

/// What level `i` should give: as much of it as is still wanted once the levels before it gave
/// theirs.
pub open spec fn wanted_of(levels: Seq<OrderBookLevel>, target: int, i: int) -> int {
    let taken = crate::tally::sum(i as nat, |j: int| fill_of(levels, target, j as nat));
    if target - taken <= 0 || levels[i].size <= 0 {
        0
    } else if levels[i].size <= target - taken {
        levels[i].size as int
    } else {
        target - taken
    }
}

proof fn lemma_taken(levels: Seq<OrderBookLevel>, target: int, k: nat)
    ensures
        crate::tally::sum(k, |j: int| fill_of(levels, target, j as nat)) == target - left_after(
            levels,
            target,
            k,
        ),
    decreases k,
{
    if k > 0 {
        lemma_taken(levels, target, (k - 1) as nat);
    }
}

/// Levels are taken from the first on: each gives all of itself, or what is still wanted.
pub proof fn law_levels_are_taken_in_turn(levels: Seq<OrderBookLevel>, target: int, i: int, j: int)
    requires
        0 <= i < levels.len(),
        i < j < levels.len(),
        target >= 0,
    ensures
        fill_of(levels, target, i as nat) == wanted_of(levels, target, i),
        0 <= fill_of(levels, target, i as nat),
        fill_of(levels, target, i as nat) < levels[i].size ==> fill_of(levels, target, j as nat) == 0,
        crate::tally::sum(levels.len(), |m: int| fill_of(levels, target, m as nat)) <= target,
{
    lemma_taken(levels, target, i as nat);
    lemma_left(levels, target, i as nat);
    lemma_taken(levels, target, levels.len());
    lemma_left(levels, target, levels.len());
    if fill_of(levels, target, i as nat) < levels[i].size {
        lemma_nothing_left(levels, target, (i + 1) as nat, j as nat);
    }
}

proof fn lemma_nothing_left(levels: Seq<OrderBookLevel>, target: int, i: nat, j: nat)
    requires
        i <= j,
        left_after(levels, target, i) <= 0,
    ensures
        left_after(levels, target, j) == left_after(levels, target, i),
    decreases j,
{
    if i < j {
        lemma_nothing_left(levels, target, i, (j - 1) as nat);
    }
}

proof fn lemma_cost_sum(levels: Seq<OrderBookLevel>, target: int, outcomes: Seq<FillOutcome>, k: nat)
    ensures
        cost_of(levels, target, outcomes, k) == crate::tally::sum(
            k,
            |i: int|
                if fill_of(levels, target, i as nat) > 0 {
                    outcomes[i].cost as int
                } else {
                    0
                },
        ),
        filled_levels(levels, target, k) == crate::tally::count(
            k,
            |i: int| fill_of(levels, target, i as nat) > 0,
        ),
    decreases k,
{
    if k > 0 {
        lemma_cost_sum(levels, target, outcomes, (k - 1) as nat);
    }
}

/// What a sweep takes, clears and costs is the sum over the levels that it looks at: their fills,
/// how many of them give something, and what those cost. The average price, in whole units, is
/// what the cost comes to per unit taken.
pub proof fn law_sweep_adds_up(
    levels: Seq<OrderBookLevel>,
    target: int,
    outcomes: Seq<FillOutcome>,
    bounds: SlippageBounds,
    average: int,
)
    requires
        levels.len() <= MAX_SWEEP_LEVELS,
        0 <= target <= i64::MAX,
    ensures
        ({
            let r = sweep(levels, target, outcomes, bounds);
            let n = reach(levels, target, outcomes, bounds.whole, 0);
            let fill = |i: int| fill_of(levels, target, i as nat);
            let cost = crate::tally::sum(
                n,
                |i: int|
                    if fill_of(levels, target, i as nat) > 0 {
                        outcomes[i].cost as int
                    } else {
                        0
                    },
            );
            &&& r.total_size == crate::tally::sum(n, fill)
            &&& r.levels_to_sweep == crate::tally::count(
                n,
                |i: int| fill_of(levels, target, i as nat) > 0,
            )
            &&& cost <= i64::MAX ==> r.estimated_cost == cost
            &&& r.total_size == 0 ==> r.avg_price == 0
            &&& r.total_size > 0 && average * r.total_size <= cost < (average + 1) * r.total_size
                ==> r.avg_price == if average <= 0xffff {
                average * 0x1_0000_0000_0000
            } else {
                0xffff_ffff_ffff_ffff
            }
        }),
{
    let n = reach(levels, target, outcomes, bounds.whole, 0);
    lemma_reach(levels, target, outcomes, bounds.whole, 0);
    lemma_taken(levels, target, n);
    lemma_left(levels, target, n);
    lemma_cost_sum(levels, target, outcomes, n);
    lemma_filled(levels, target, n);
    let swept = target - left_after(levels, target, n);
    let cost = cost_of(levels, target, outcomes, n) as int;
    assert(crate::tally::sum(n, |i: int| fill_of(levels, target, i as nat)) == swept);
    if swept > 0 && average * swept <= cost < (average + 1) * swept {
        assert(cost / swept == average) by (nonlinear_arith)
            requires
                swept > 0,
                average * swept <= cost < (average + 1) * swept,
        ;
        assert(average >= 0) by (nonlinear_arith)
            requires
                swept > 0,
                0 <= cost < (average + 1) * swept,
        ;
    }
}

/// Where every fill costs its size times a price between two prices, the average price lies
/// between them, rounded down.
pub proof fn law_average_lies_between_the_prices(
    levels: Seq<OrderBookLevel>,
    target: int,
    outcomes: Seq<FillOutcome>,
    bounds: SlippageBounds,
    low: nat,
    high: nat,
)
    requires
        levels.len() <= MAX_SWEEP_LEVELS,
        0 <= target <= i64::MAX,
        outcomes.len() == levels.len(),
        high <= 0xffff,
        forall|i: int|
            0 <= i < levels.len() ==> low * fill_of(levels, target, i as nat) <= (
            #[trigger] outcomes[i]).cost <= high * fill_of(levels, target, i as nat),
        sweep(levels, target, outcomes, bounds).total_size > 0,
    ensures
        low * 0x1_0000_0000_0000 <= sweep(levels, target, outcomes, bounds).avg_price <= high
            * 0x1_0000_0000_0000,
        sweep(levels, target, outcomes, bounds).avg_price % 0x1_0000_0000_0000 == 0,
        low * sweep(levels, target, outcomes, bounds).total_size <= i64::MAX && high * sweep(
            levels,
            target,
            outcomes,
            bounds,
        ).total_size <= i64::MAX ==> low * sweep(levels, target, outcomes, bounds).total_size <= sweep(
            levels,
            target,
            outcomes,
            bounds,
        ).estimated_cost <= high * sweep(levels, target, outcomes, bounds).total_size,
{
    let n = reach(levels, target, outcomes, bounds.whole, 0);
    lemma_reach(levels, target, outcomes, bounds.whole, 0);
    lemma_left(levels, target, n);
    lemma_cost_between(levels, target, outcomes, low, high, n);
    let swept = target - left_after(levels, target, n);
    let cost = cost_of(levels, target, outcomes, n) as int;
    assert(low <= cost / swept <= high) by (nonlinear_arith)
        requires
            swept > 0,
            low * swept <= cost <= high * swept,
    ;
}

proof fn lemma_cost_between(
    levels: Seq<OrderBookLevel>,
    target: int,
    outcomes: Seq<FillOutcome>,
    low: nat,
    high: nat,
    k: nat,
)
    requires
        k <= levels.len(),
        target >= 0,
        outcomes.len() == levels.len(),
        forall|i: int|
            0 <= i < levels.len() ==> low * fill_of(levels, target, i as nat) <= (
            #[trigger] outcomes[i]).cost <= high * fill_of(levels, target, i as nat),
    ensures
        low * (target - left_after(levels, target, k)) <= cost_of(levels, target, outcomes, k)
            <= high * (target - left_after(levels, target, k)),
    decreases k,
{
    if k > 0 {
        let m = (k - 1) as nat;
        lemma_cost_between(levels, target, outcomes, low, high, m);
        lemma_left(levels, target, m);
        let f = fill_of(levels, target, m);
        let before = target - left_after(levels, target, m);
        assert(low * f <= outcomes[m as int].cost <= high * f);
        assert(low * (before + f) == low * before + low * f && high * (before + f) == high * before
            + high * f) by (nonlinear_arith);
        if f == 0 {
            assert(low * f == 0 && high * f == 0);
        }
        assert(target - left_after(levels, target, k) == before + f);
    } else {
        assert(low * (target - left_after(levels, target, 0)) == 0) by (nonlinear_arith)
            requires
                target - left_after(levels, target, 0) == 0,
        ;
        assert(high * (target - left_after(levels, target, 0)) == 0) by (nonlinear_arith)
            requires
                target - left_after(levels, target, 0) == 0,
        ;
    }
}

/// A sweep stops behind the first fill that slips by more than the tolerance, and not before; its
/// slippage is the greatest among the fills, at least zero.
pub proof fn law_sweep_stops_at_the_tolerance(
    levels: Seq<OrderBookLevel>,
    target: int,
    outcomes: Seq<FillOutcome>,
    bounds: SlippageBounds,
    i: int,
)
    requires
        outcomes.len() == levels.len(),
        crate::doubles::no_less(bounds.whole, ZERO),
        forall|j: int|
            0 <= j < outcomes.len() ==> !crate::doubles::is_nan(
                (#[trigger] outcomes[j]).slippage_bps,
            ),
        0 <= i < levels.len(),
        fill_of(levels, target, i as nat) > 0,
    ensures
        ({
            let n = reach(levels, target, outcomes, bounds.whole, 0);
            let r = sweep(levels, target, outcomes, bounds);
            &&& i < n - 1 ==> crate::doubles::no_less(bounds.whole, outcomes[i].slippage_bps)
            &&& crate::doubles::greater(outcomes[i].slippage_bps, bounds.whole) ==> n <= i + 1
            &&& n < levels.len() ==> n > 0 && crate::doubles::greater(
                outcomes[n - 1].slippage_bps,
                bounds.whole,
            )
            &&& i < n ==> crate::doubles::no_less(r.slippage_bps, outcomes[i].slippage_bps)
            &&& crate::doubles::no_less(r.slippage_bps, ZERO)
            &&& r.slippage_bps == ZERO || exists|j: int|
                0 <= j < n && fill_of(levels, target, j as nat) > 0 && r.slippage_bps == (
                #[trigger] outcomes[j]).slippage_bps
        }),
{
    let n = reach(levels, target, outcomes, bounds.whole, 0);
    lemma_reach(levels, target, outcomes, bounds.whole, 0);
    lemma_first_stop(levels, target, outcomes, bounds.whole, 0);
    lemma_greatest_slippage(levels, target, outcomes, n);
    lemma_greatest_slippage(levels, target, outcomes, (i + 1) as nat);
    if i < n - 1 {
        assert(!stops_at(levels, target, outcomes, bounds.whole, i as nat));
    }
    if crate::doubles::greater(outcomes[i].slippage_bps, bounds.whole) {
        assert(stops_at(levels, target, outcomes, bounds.whole, i as nat));
    }
    if n < levels.len() {
        let m = (n - 1) as nat;
        assert(stops_at(levels, target, outcomes, bounds.whole, m));
        lemma_calm_so_far(levels, target, outcomes, bounds.whole, m);
    }
}

/// No level stops the sweep before the last one that is looked at, which does where it is not the
/// last of all.
proof fn lemma_first_stop(
    levels: Seq<OrderBookLevel>,
    target: int,
    outcomes: Seq<FillOutcome>,
    tolerance: u64,
    from: nat,
)
    requires
        from <= levels.len(),
    ensures
        forall|j: nat|
            from <= j < reach(levels, target, outcomes, tolerance, from) - 1 ==> !#[trigger] stops_at(
                levels,
                target,
                outcomes,
                tolerance,
                j,
            ),
        forall|j: nat|
            from <= j < levels.len() && #[trigger] stops_at(levels, target, outcomes, tolerance, j)
                ==> reach(levels, target, outcomes, tolerance, from) <= j + 1,
        reach(levels, target, outcomes, tolerance, from) < levels.len() ==> from < reach(
            levels,
            target,
            outcomes,
            tolerance,
            from,
        ) && stops_at(
            levels,
            target,
            outcomes,
            tolerance,
            (reach(levels, target, outcomes, tolerance, from) - 1) as nat,
        ),
    decreases levels.len() - from,
{
    if from < levels.len() && !stops_at(levels, target, outcomes, tolerance, from) {
        lemma_first_stop(levels, target, outcomes, tolerance, from + 1);
        lemma_reach(levels, target, outcomes, tolerance, from + 1);
    }
}

proof fn lemma_greatest_slippage(
    levels: Seq<OrderBookLevel>,
    target: int,
    outcomes: Seq<FillOutcome>,
    k: nat,
)
    requires
        k <= outcomes.len(),
        forall|j: int|
            0 <= j < outcomes.len() ==> !crate::doubles::is_nan(
                (#[trigger] outcomes[j]).slippage_bps,
            ),
    ensures
        !crate::doubles::is_nan(slippage_of(levels, target, outcomes, k)),
        crate::doubles::no_less(slippage_of(levels, target, outcomes, k), ZERO),
        forall|j: int|
            0 <= j < k && fill_of(levels, target, j as nat) > 0 ==> crate::doubles::no_less(
                slippage_of(levels, target, outcomes, k),
                (#[trigger] outcomes[j]).slippage_bps,
            ),
        slippage_of(levels, target, outcomes, k) == ZERO || exists|j: int|
            0 <= j < k && fill_of(levels, target, j as nat) > 0 && slippage_of(
                levels,
                target,
                outcomes,
                k,
            ) == (#[trigger] outcomes[j]).slippage_bps,
    decreases k,
{
    if k > 0 {
        lemma_greatest_slippage(levels, target, outcomes, (k - 1) as nat);
        assert(!crate::doubles::is_nan(outcomes[k - 1].slippage_bps));
    }
}

proof fn lemma_calm_so_far(
    levels: Seq<OrderBookLevel>,
    target: int,
    outcomes: Seq<FillOutcome>,
    tolerance: u64,
    m: nat,
)
    requires
        m < levels.len(),
        outcomes.len() == levels.len(),
        crate::doubles::no_less(tolerance, ZERO),
        forall|j: nat|
            j < m ==> !#[trigger] stops_at(levels, target, outcomes, tolerance, j),
    ensures
        !crate::doubles::greater(slippage_of(levels, target, outcomes, m), tolerance),
    decreases m,
{
    if m > 0 {
        lemma_calm_so_far(levels, target, outcomes, tolerance, (m - 1) as nat);
        assert(!stops_at(levels, target, outcomes, tolerance, (m - 1) as nat));
    }
}

/// More slippage never means less urgency, and each urgency stands for its part of the tolerance.
pub proof fn law_urgency_grows_with_slippage(slippage_bps: u64, bounds: SlippageBounds)
    requires
        !crate::doubles::is_nan(slippage_bps),
        crate::doubles::no_less(bounds.three_quarters, bounds.half),
        crate::doubles::no_less(bounds.whole, bounds.three_quarters),
    ensures
        ({
            let u = urgency_at(slippage_bps, bounds);
            &&& u == SweepUrgency::Normal <==> crate::doubles::rank(slippage_bps)
                < crate::doubles::rank(bounds.half)
            &&& u == SweepUrgency::Elevated <==> crate::doubles::rank(bounds.half)
                <= crate::doubles::rank(slippage_bps) < crate::doubles::rank(bounds.three_quarters)
            &&& u == SweepUrgency::High <==> crate::doubles::rank(bounds.three_quarters)
                <= crate::doubles::rank(slippage_bps) < crate::doubles::rank(bounds.whole)
            &&& u == SweepUrgency::Emergency <==> crate::doubles::rank(slippage_bps)
                >= crate::doubles::rank(bounds.whole)
        }),
{
}

proof fn lemma_thin(levels: Seq<OrderBookLevel>, least: i64, k: nat)
    requires
        k <= levels.len(),
    ensures
        thin_levels(levels, least, k) == crate::tally::count(k, |i: int| levels[i].size < least),
        thin_volume(levels, least, k) == crate::tally::sum(
            k,
            |i: int|
                if levels[i].size < least {
                    levels[i].size as int
                } else {
                    0
                },
        ),
        thin_levels(levels, least, k) <= k,
    decreases k,
{
    if k > 0 {
        lemma_thin(levels, least, (k - 1) as nat);
    }
}

proof fn lemma_first_wall(levels: Seq<OrderBookLevel>, least: i64, from: nat)
    requires
        from <= levels.len(),
    ensures
        match first_wall(levels, least, from) {
            Some(k) => from <= k < levels.len() && is_wall(levels, least, k) && forall|j: nat|
                from <= j < k ==> !#[trigger] is_wall(levels, least, j),
            None => forall|j: nat|
                from <= j < levels.len() ==> !#[trigger] is_wall(levels, least, j),
        },
    decreases levels.len() - from,
{
    if from < levels.len() && !is_wall(levels, least, from) {
        lemma_first_wall(levels, least, from + 1);
    }
}

/// A cascade is seen exactly where some level of at least five times the least size stands behind
/// two or more levels below that size. It is triggered at the price of the first such level, and
/// its volume is that of the level and of the thin ones before it.
pub proof fn law_cascade_is_a_wall_behind_thin_levels(
    levels: Seq<OrderBookLevel>,
    least: i64,
    count: usize,
    k: int,
)
    requires
        least > 0,
        count >= 3,
        levels.len() <= MAX_SWEEP_LEVELS,
        0 <= k < levels.len(),
        thin_volumes_fit(levels, least),
    ensures
        ({
            let thin = |i: int| levels[i].size < least;
            let wall = levels[k].size >= 5 * least && crate::tally::count(k as nat, thin) >= 2;
            let before = exists|j: int|
                0 <= j < k && (#[trigger] levels[j]).size >= 5 * least && crate::tally::count(
                    j as nat,
                    thin,
                ) >= 2;
            &&& cascade(levels, least, count) is None ==> !wall
            &&& wall && !before ==> match cascade(levels, least, count) {
                Some(c) => {
                    &&& c.trigger_price == levels[k].price
                    &&& c.levels_affected == crate::tally::count(k as nat, thin) + 1
                    &&& c.estimated_volume == levels[k].size + crate::tally::sum(
                        k as nat,
                        |i: int|
                            if levels[i].size < least {
                                levels[i].size as int
                            } else {
                                0
                            },
                    )
                    &&& c.probability_tenths <= 9
                    &&& c.levels_affected <= 9 ==> c.probability_tenths == c.levels_affected
                    &&& c.levels_affected > 9 ==> c.probability_tenths == 9
                },
                None => false,
            }
        }),
{
    let thin = |i: int| levels[i].size < least;
    lemma_first_wall(levels, least, 0);
    lemma_thin(levels, least, k as nat);
    let wall = levels[k].size >= 5 * least && crate::tally::count(k as nat, thin) >= 2;
    assert(wall == is_wall(levels, least, k as nat));
    assert(fits_i64(thin_volume(levels, least, k as nat)));
    match first_wall(levels, least, 0) {
        Some(j) => {
            lemma_thin(levels, least, j);
            assert(levels[j as int].size >= 5 * least);
            if wall && j < k {
                assert(crate::tally::count(j, thin) >= 2);
            }
        },
        None => {},
    }
}

/// The volume of levels is the sum of their sizes.
pub proof fn law_volume_is_the_sum_of_sizes(levels: Seq<OrderBookLevel>, k: nat)
    requires
        k <= levels.len(),
    ensures
        volume(levels, k) == crate::tally::sum(k, |i: int| levels[i].size as int),
    decreases k,
{
    if k > 0 {
        law_volume_is_the_sum_of_sizes(levels, (k - 1) as nat);
    }
}

/// A sweep aims at its target, cut off at the largest sweep.
pub proof fn law_aim_is_limited(s: LiquiditySweeper, target_size: i64)
    ensures
        s.aim(target_size) <= target_size,
        s.aim(target_size) <= s.max_sweep_size,
        s.aim(target_size) == target_size || s.aim(target_size) == s.max_sweep_size,
{
}

/// The first slice waits the longer the calmer the market is; the slices follow every ten
/// milliseconds, in order and of one size.
pub proof fn law_slices_are_paced(parent_size: i64, num_slices: u32, urgency: SweepUrgency, i: int)
    requires
        num_slices > 0,
        0 <= i < num_slices,
        base_wait(urgency) + (num_slices - 1) * 10 <= u32::MAX,
    ensures
        slice(parent_size, num_slices, urgency, i).sequence == i,
        slice(parent_size, num_slices, urgency, i).wait_ms == slice(
            parent_size,
            num_slices,
            urgency,
            0,
        ).wait_ms + 10 * i,
        slice(parent_size, num_slices, urgency, i).size == slice(
            parent_size,
            num_slices,
            urgency,
            0,
        ).size,
        slice(parent_size, num_slices, SweepUrgency::Emergency, 0).wait_ms == 0,
        slice(parent_size, num_slices, SweepUrgency::High, 0).wait_ms == 10,
        slice(parent_size, num_slices, SweepUrgency::Elevated, 0).wait_ms == 50,
        slice(parent_size, num_slices, SweepUrgency::Normal, 0).wait_ms == 100,
{
}

/// The depth of a side is the volume of its five best levels, or of all where there are fewer; the
/// liquidity of a book is the volume of both sides.
pub proof fn law_depth_counts_five_levels(s: LiquiditySweeper)
    ensures
        s.bid_depth() == crate::tally::sum(
            if s.book.bid_count < 5 { s.book.bid_count as nat } else { 5 },
            |i: int| s.book.bids@[i].size as int,
        ),
        s.ask_depth() == crate::tally::sum(
            if s.book.ask_count < 5 { s.book.ask_count as nat } else { 5 },
            |i: int| s.book.asks@[i].size as int,
        ),
        s.liquidity() == crate::tally::sum(
            s.book.bid_levels().len(),
            |i: int| s.book.bid_levels()[i].size as int,
        ) + crate::tally::sum(
            s.book.ask_levels().len(),
            |i: int| s.book.ask_levels()[i].size as int,
        ),
{
    law_volume_is_the_sum_of_sizes(s.book.bids@, top_count(s.book.bid_count) as nat);
    law_volume_is_the_sum_of_sizes(s.book.asks@, top_count(s.book.ask_count) as nat);
    law_volume_is_the_sum_of_sizes(s.book.bid_levels(), s.book.bid_levels().len());
    law_volume_is_the_sum_of_sizes(s.book.ask_levels(), s.book.ask_levels().len());
}

} // verus!
