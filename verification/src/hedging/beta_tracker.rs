//! Rolling windows of paired returns, by benchmark. Returns and betas stand as the bits of doubles.
use crate::doubles::{above, at_least, not_a_number, ZERO};
use crate::names::NamedMap;
use vstd::prelude::*;

verus! {

/// A running sum that rounding may have brought below zero.
pub open spec fn no_negative(x: u64) -> u64 {
    if crate::doubles::greater(ZERO, x) {
        ZERO
    } else {
        x
    }
}

/// A running sum that rounding may have brought below zero
fn floored(x: u64) -> (r: u64)
    ensures
        r == no_negative(x),
{
    if above(ZERO, x) {
        ZERO
    } else {
        x
    }
}

/// Online statistics of observations
#[derive(Debug, Clone, Copy, PartialEq, Eq, Structural)]
pub struct OnlineStats {
    /// Count of observations
    pub n: u64,
    /// Running mean
    pub mean: u64,
    /// Running sum of squared differences from mean (M2)
    pub m2: u64,
}

impl OnlineStats {
    /// No observations.
    pub open spec fn empty() -> OnlineStats {
        OnlineStats { n: 0, mean: ZERO, m2: ZERO }
    }

    pub fn new() -> (s: Self)
        ensures
            s == Self::empty(),
    {
        Self { n: 0, mean: ZERO, m2: ZERO }
    }

    /// Add a new observation, for what it makes of the mean and of the sum of squares
    pub fn update(&mut self, mean: u64, m2: u64)
        requires
            old(self).n < u64::MAX,
        ensures
            *final(self) == (OnlineStats { n: (old(self).n + 1) as u64, mean, m2 }),
    {
        self.n = self.n + 1;
        self.mean = mean;
        self.m2 = m2;
    }

    /// The statistics without an observation, for what that makes of the mean and of the sum of
    /// squares.
    pub open spec fn without(self, mean: u64, m2: u64) -> OnlineStats {
        if self.n == 0 {
            self
        } else if self.n == 1 {
            Self::empty()
        } else {
            OnlineStats { n: (self.n - 1) as u64, mean, m2: no_negative(m2) }
        }
    }

    /// Remove an old observation (for rolling window)
    pub fn remove(&mut self, mean: u64, m2: u64)
        ensures
            *final(self) == old(self).without(mean, m2),
    {
        if self.n == 0 {
            return ;
        }
        if self.n == 1 {
            self.n = 0;
            self.mean = ZERO;
            self.m2 = ZERO;
            return ;
        }
        self.n = self.n - 1;
        self.mean = mean;
        self.m2 = floored(m2);
    }

    /// Get the count of observations
    pub fn count(&self) -> (n: u64)
        ensures
            n == self.n,
    {
        self.n
    }

    /// Get the mean
    pub fn mean(&self) -> (m: u64)
        ensures
            m == self.mean,
    {
        self.mean
    }

    /// Get the variance (population), for the sum of squares over the count
    pub fn variance(&self, quotient: u64) -> (v: u64)
        ensures
            v == if self.n < 1 {
                ZERO
            } else {
                quotient
            },
    {
        if self.n < 1 {
            return ZERO;
        }
        quotient
    }

    /// Get the variance (sample), for the sum of squares over the count less one
    pub fn sample_variance(&self, quotient: u64) -> (v: u64)
        ensures
            v == if self.n < 2 {
                ZERO
            } else {
                quotient
            },
    {
        if self.n < 2 {
            return ZERO;
        }
        quotient
    }
}

/// Online covariance of two variables
#[derive(Debug, Clone, Copy, PartialEq, Eq, Structural)]
pub struct OnlineCovariance {
    /// Count of paired observations
    pub n: u64,
    /// Mean of X
    pub mean_x: u64,
    /// Mean of Y
    pub mean_y: u64,
    /// Co-moment (sum of (x - mean_x) * (y - mean_y))
    pub co_moment: u64,
}

impl OnlineCovariance {
    /// No pairs.
    pub open spec fn empty() -> OnlineCovariance {
        OnlineCovariance { n: 0, mean_x: ZERO, mean_y: ZERO, co_moment: ZERO }
    }

    pub fn new() -> (c: Self)
        ensures
            c == Self::empty(),
    {
        Self { n: 0, mean_x: ZERO, mean_y: ZERO, co_moment: ZERO }
    }

    /// Add a new paired observation, for what it makes of the means and of the co-moment
    pub fn update(&mut self, mean_x: u64, mean_y: u64, co_moment: u64)
        requires
            old(self).n < u64::MAX,
        ensures
            *final(self) == (OnlineCovariance {
                n: (old(self).n + 1) as u64,
                mean_x,
                mean_y,
                co_moment,
            }),
    {
        self.n = self.n + 1;
        self.mean_x = mean_x;
        self.mean_y = mean_y;
        self.co_moment = co_moment;
    }

    /// The covariance without a pair, for what that makes of the means and of the co-moment.
    pub open spec fn without(self, mean_x: u64, mean_y: u64, co_moment: u64) -> OnlineCovariance {
        if self.n == 0 {
            self
        } else if self.n == 1 {
            Self::empty()
        } else {
            OnlineCovariance {
                n: (self.n - 1) as u64,
                mean_x,
                mean_y,
                co_moment: no_negative(co_moment),
            }
        }
    }

    /// Remove an old paired observation (for rolling window)
    pub fn remove(&mut self, mean_x: u64, mean_y: u64, co_moment: u64)
        ensures
            *final(self) == old(self).without(mean_x, mean_y, co_moment),
    {
        if self.n == 0 {
            return ;
        }
        if self.n == 1 {
            self.n = 0;
            self.mean_x = ZERO;
            self.mean_y = ZERO;
            self.co_moment = ZERO;
            return ;
        }
        self.n = self.n - 1;
        self.mean_x = mean_x;
        self.mean_y = mean_y;
        self.co_moment = floored(co_moment);
    }

    /// Get the covariance (population), for the co-moment over the count
    pub fn covariance(&self, quotient: u64) -> (c: u64)
        ensures
            c == if self.n < 1 {
                ZERO
            } else {
                quotient
            },
    {
        if self.n < 1 {
            return ZERO;
        }
        quotient
    }

    /// Get the covariance (sample), for the co-moment over the count less one
    pub fn sample_covariance(&self, quotient: u64) -> (c: u64)
        ensures
            c == if self.n < 2 {
                ZERO
            } else {
                quotient
            },
    {
        if self.n < 2 {
            return ZERO;
        }
        quotient
    }

    /// Get the correlation coefficient, for the covariance over the product of both deviations: zero
    /// where one is not positive
    pub fn correlation(std_x: u64, std_y: u64, quotient: u64) -> (r: u64)
        ensures
            r == if crate::doubles::no_less(ZERO, std_x) || crate::doubles::no_less(ZERO, std_y) {
                ZERO
            } else {
                quotient
            },
    {
        if at_least(ZERO, std_x) || at_least(ZERO, std_y) {
            return ZERO;
        }
        quotient
    }
}

/// A rolling window of pairs.
#[verifier::ext_equal]
pub struct BetaWindow {
    pub pairs: Seq<(u64, u64)>,
    pub next: usize,
    pub full: bool,
}

impl BetaWindow {
    /// Where the next pair goes.
    pub open spec fn slot(self) -> int {
        self.next as int % self.pairs.len() as int
    }

    /// The pair that leaves when another comes.
    pub open spec fn leaving(self) -> Option<(u64, u64)> {
        if self.full {
            Some(self.pairs[self.slot()])
        } else {
            None
        }
    }

    /// The window with one more pair.
    pub open spec fn pushed(self, pair: (u64, u64)) -> BetaWindow {
        let next = self.next.wrapping_add(1);
        BetaWindow {
            pairs: self.pairs.update(self.slot(), pair),
            next,
            full: self.full || next >= self.pairs.len(),
        }
    }

    /// True where the window holds the last pairs of a history, and counts them all.
    pub open spec fn follows(self, history: Seq<(u64, u64)>) -> bool {
        &&& self.next == history.len()
        &&& self.full == (history.len() >= self.pairs.len())
        &&& forall|i: int|
            history.len() - self.pairs.len() <= i < history.len() && 0 <= i ==> self.pairs[i
                % self.pairs.len() as int] == #[trigger] history[i]
    }
}

/// Rolling window beta calculator
#[derive(Debug)]
pub struct RollingBetaCalculator {
    /// Window size in number of observations
    pub window_size: usize,
    /// Circular buffer index
    pub current_idx: usize,
    /// Whether buffer is full
    pub is_full: bool,
    /// Circular buffer for removal (stores (asset_return, benchmark_return))
    pub buffer: Vec<(u64, u64)>,
    /// Last computed beta; none where it is no number
    pub last_beta: Option<u64>,
    /// Last update time, in nanoseconds
    pub last_update: u64,
}

impl View for RollingBetaCalculator {
    type V = BetaWindow;

    open spec fn view(&self) -> BetaWindow {
        BetaWindow { pairs: self.buffer@, next: self.current_idx, full: self.is_full }
    }
}

impl RollingBetaCalculator {
    pub open spec fn inv(&self) -> bool {
        &&& self.buffer@.len() == self.window_size
        &&& !self.is_full ==> self.current_idx < self.window_size || self.current_idx == 0
    }

    /// True of a calculator that has seen nothing.
    pub open spec fn is_fresh(&self, window_size: usize) -> bool {
        &&& self.inv()
        &&& self.window_size == window_size
        &&& self@.next == 0
        &&& !self@.full
        &&& self@.pairs == Seq::new(window_size as nat, |i: int| (0u64, 0u64))
        &&& self.last_beta is None
        &&& self.last_update == 0
    }

    pub fn new(window_size: usize) -> (c: Self)
        ensures
            c.is_fresh(window_size),
    {
        let mut buffer: Vec<(u64, u64)> = Vec::new();
        let mut i: usize = 0;
        while i < window_size
            invariant
                i <= window_size,
                buffer@ == Seq::new(i as nat, |j: int| (0u64, 0u64)),
            decreases window_size - i,
        {
            buffer.push((0, 0));
            i = i + 1;
            assert(buffer@ =~= Seq::new(i as nat, |j: int| (0u64, 0u64)));
        }
        Self {
            window_size,
            current_idx: 0,
            is_full: false,
            buffer,
            last_beta: None,
            last_update: 0,
        }
    }

    /// Update with new returns
    ///
    /// Hands back the pair that leaves the window, which the running statistics have to forget
    /// before they learn the new one.
    pub fn update(&mut self, asset_return: u64, benchmark_return: u64) -> (leaving: Option<
        (u64, u64),
    >)
        requires
            old(self).inv(),
            old(self).window_size > 0,
        ensures
            final(self).inv(),
            final(self)@ == old(self)@.pushed((asset_return, benchmark_return)),
            leaving == old(self)@.leaving(),
            final(self).window_size == old(self).window_size,
            final(self).last_beta == old(self).last_beta,
            final(self).last_update == old(self).last_update,
    {
        let idx: usize = self.current_idx % self.window_size;
        self.current_idx = self.current_idx.wrapping_add(1);
        let leaving = if self.is_full {
            Some(self.buffer[idx])
        } else {
            None
        };
        self.buffer.set(idx, (asset_return, benchmark_return));
        if !self.is_full && self.current_idx >= self.window_size {
            self.is_full = true;
        }
        leaving
    }

    /// Calculate current beta, from the variance of the benchmark and the covariance over it; none
    /// where it is no number
    pub fn calculate_beta(variance: u64, quotient: u64) -> (r: Option<u64>)
        ensures
            r == if crate::doubles::no_less(ZERO, variance) || crate::doubles::is_nan(quotient) {
                None
            } else {
                Some(quotient)
            },
    {
        if at_least(ZERO, variance) || not_a_number(quotient) {
            None
        } else {
            Some(quotient)
        }
    }

    /// Get alpha, the excess return that is left beside the last beta; none without one
    pub fn calculate_alpha(&self, excess: u64) -> (r: Option<u64>)
        ensures
            r == match self.last_beta {
                Some(_) => Some(excess),
                None => None,
            },
    {
        match self.last_beta {
            Some(_) => Some(excess),
            None => None,
        }
    }

    /// Get R-squared, the square of a correlation, where both variances are above zero
    pub fn r_squared(asset_variance: u64, benchmark_variance: u64, square: u64) -> (r: u64)
        ensures
            r == if crate::doubles::no_less(ZERO, asset_variance) || crate::doubles::no_less(
                ZERO,
                benchmark_variance,
            ) {
                ZERO
            } else {
                square
            },
    {
        if at_least(ZERO, asset_variance) || at_least(ZERO, benchmark_variance) {
            ZERO
        } else {
            square
        }
    }

    /// Keeps the beta that the statistics give after an update; none where it is no number
    pub fn record_beta(&mut self, beta: Option<u64>, now_ns: u64)
        ensures
            *final(self) == (RollingBetaCalculator {
                last_beta: beta,
                last_update: now_ns,
                ..*old(self)
            }),
    {
        self.last_beta = beta;
        self.last_update = now_ns;
    }

    /// Get current beta
    pub fn beta(&self) -> (r: Option<u64>)
        ensures
            r == self.last_beta,
    {
        self.last_beta
    }

    /// Get number of observations in window
    pub fn observation_count(&self) -> (n: u64)
        ensures
            n == if self.is_full {
                self.window_size
            } else {
                self.current_idx
            },
    {
        if self.is_full {
            self.window_size as u64
        } else {
            self.current_idx as u64
        }
    }

    /// Reset the calculator
    pub fn reset(&mut self)
        requires
            old(self).inv(),
        ensures
            final(self).inv(),
            *final(self) == (RollingBetaCalculator {
                current_idx: 0,
                is_full: false,
                last_beta: None,
                last_update: 0,
                ..*old(self)
            }),
    {
        self.current_idx = 0;
        self.is_full = false;
        self.last_beta = None;
        self.last_update = 0;
    }
}

/// A window keeps the last pairs that came: one more pair pushes out the oldest of them, once the
/// window is full.
pub proof fn law_window_forgets_the_oldest(
    window: BetaWindow,
    history: Seq<(u64, u64)>,
    pair: (u64, u64),
)
    requires
        window.pairs.len() > 0,
        window.follows(history),
        history.len() < usize::MAX,
    ensures
        window.pushed(pair).follows(history.push(pair)),
        window.leaving() == if history.len() >= window.pairs.len() {
            Some(history[history.len() - window.pairs.len()])
        } else {
            None
        },
{
    let w = window.pairs.len() as int;
    let n = history.len() as int;
    if n >= w {
        assert((n - w) % w == n % w) by (nonlinear_arith)
            requires
                w > 0,
        ;
        assert(window.pairs[(n - w) % w] == history[n - w]);
    }
    let after = window.pushed(pair);
    let longer = history.push(pair);
    assert forall|i: int| longer.len() - w <= i < longer.len() && 0 <= i implies after.pairs[i % w]
        == #[trigger] longer[i] by {
        if i < n {
            assert(window.pairs[i % w] == history[i]);
            lemma_slots_differ(i, n, w);
        }
        vstd::arithmetic::div_mod::lemma_mod_bound(i, w);
        vstd::arithmetic::div_mod::lemma_mod_bound(n, w);
    }
}

/// Places less than a window apart are different.
proof fn lemma_slots_differ(i: int, n: int, w: int)
    requires
        w > 0,
        n - w < i < n,
    ensures
        i % w != n % w,
{
    if i % w == n % w {
        vstd::arithmetic::div_mod::lemma_fundamental_div_mod(i, w);
        vstd::arithmetic::div_mod::lemma_fundamental_div_mod(n, w);
        let a = i / w;
        let b = n / w;
        assert(n - i == w * b - w * a);
        assert(w * b - w * a == w * (b - a)) by (nonlinear_arith);
        assert(b - a >= 1 || b - a <= 0);
        if b - a >= 1 {
            assert(w * (b - a) >= w) by (nonlinear_arith)
                requires
                    w > 0,
                    b - a >= 1,
            ;
        } else {
            assert(w * (b - a) <= 0) by (nonlinear_arith)
                requires
                    w > 0,
                    b - a <= 0,
            ;
        }
    }
}

#[derive(Debug, Clone, Copy, PartialEq, Eq, Default, Structural)]
pub struct BetaTrackerStats {
    pub total_updates: usize,
    pub benchmarks_tracked: usize,
}

/// Multi-asset beta tracker (tracks beta against multiple benchmarks)
pub struct MultiAssetBetaTracker {
    /// Beta calculators for each benchmark
    pub calculators: NamedMap<RollingBetaCalculator>,
    /// Default window size
    pub default_window: usize,
    /// Statistics
    pub stats: BetaTrackerStats,
}

impl MultiAssetBetaTracker {
    pub open spec fn inv(&self) -> bool {
        &&& self.calculators.inv()
        &&& forall|name: Seq<char>| #[trigger]
            self.calculators@.contains_key(name) ==> self.calculators@[name].inv()
                && self.calculators@[name].window_size == self.default_window
    }

    pub fn new(default_window: usize) -> (t: Self)
        ensures
            t.inv(),
            t.calculators@ == Map::<Seq<char>, RollingBetaCalculator>::empty(),
            t.default_window == default_window,
            t.stats == (BetaTrackerStats { total_updates: 0, benchmarks_tracked: 0 }),
    {
        Self {
            calculators: NamedMap::new(),
            default_window,
            stats: BetaTrackerStats { total_updates: 0, benchmarks_tracked: 0 },
        }
    }

    /// Add or get a beta calculator for a benchmark
    pub fn get_or_create_calculator(&mut self, benchmark: &str) -> (c: &RollingBetaCalculator)
        requires
            old(self).inv(),
        ensures
            final(self).inv(),
            final(self).calculators@.contains_key(benchmark@),
            *c == final(self).calculators@[benchmark@],
            final(self).default_window == old(self).default_window,
            final(self).stats.total_updates == old(self).stats.total_updates,
            old(self).calculators@.contains_key(benchmark@) ==> final(self).calculators@ == old(self).calculators@ && final(self).stats == old(self).stats,
            !old(self).calculators@.contains_key(benchmark@) ==> {
                &&& c.is_fresh(old(self).default_window)
                &&& final(self).calculators@ == old(self).calculators@.insert(benchmark@, *c)
                &&& final(self).stats.benchmarks_tracked == old(self).stats.benchmarks_tracked.wrapping_add(1)
            },
    {
        if self.calculators.find(benchmark).is_none() {
            let calc = RollingBetaCalculator::new(self.default_window);
            self.calculators.insert(benchmark.to_owned(), calc);
            self.stats.benchmarks_tracked = self.stats.benchmarks_tracked.wrapping_add(1);
        }
        match self.calculators.find(benchmark) {
            Some(i) => &self.calculators.entries[i].1,
            None => {
                assert(false);
                &self.calculators.entries[0].1
            },
        }
    }

    /// True where a calculator is what a tracker has for a benchmark, a fresh one where it has
    /// none.
    pub open spec fn starts_from(&self, benchmark: Seq<char>, c: RollingBetaCalculator) -> bool {
        if self.calculators@.contains_key(benchmark) {
            c == self.calculators@[benchmark]
        } else {
            c.is_fresh(self.default_window)
        }
    }

    /// Update beta for a specific benchmark
    ///
    /// Hands back the pair that leaves its window.
    pub fn update_beta(&mut self, benchmark: &str, asset_return: u64, benchmark_return: u64) -> (leaving:
        Option<(u64, u64)>)
        requires
            old(self).inv(),
            old(self).default_window > 0,
        ensures
            final(self).inv(),
            final(self).default_window == old(self).default_window,
            final(self).stats == (BetaTrackerStats {
                total_updates: old(self).stats.total_updates.wrapping_add(1),
                ..old(self).stats
            }),
            final(self).calculators@.contains_key(benchmark@),
            final(self).calculators@ == old(self).calculators@.insert(
                benchmark@,
                final(self).calculators@[benchmark@],
            ),
            exists|before: RollingBetaCalculator|
                {
                    let now = final(self).calculators@[benchmark@];
                    &&& #[trigger] old(self).starts_from(benchmark@, before)
                    &&& now@ == before@.pushed((asset_return, benchmark_return))
                    &&& now.window_size == before.window_size
                    &&& now.last_beta == before.last_beta
                    &&& now.last_update == before.last_update
                    &&& leaving == before@.leaving()
                },
    {
        let ghost all = self.calculators@;
        self.stats.total_updates = self.stats.total_updates.wrapping_add(1);
        let mut calc = match self.calculators.remove(benchmark) {
            Some(calc) => calc,
            None => RollingBetaCalculator::new(self.default_window),
        };
        let ghost before = calc;
        assert(old(self).starts_from(benchmark@, before));
        let leaving = calc.update(asset_return, benchmark_return);
        self.calculators.insert(benchmark.to_owned(), calc);
        assert(all.remove(benchmark@).insert(benchmark@, calc) =~= all.insert(benchmark@, calc));
        leaving
    }

    /// Keeps the beta of a benchmark that was updated
    pub fn record_beta(&mut self, benchmark: &str, beta: Option<u64>, now_ns: u64)
        requires
            old(self).inv(),
        ensures
            final(self).inv(),
            final(self).default_window == old(self).default_window,
            final(self).stats == old(self).stats,
            final(self).calculators@ == if old(self).calculators@.contains_key(benchmark@) {
                old(self).calculators@.insert(
                    benchmark@,
                    RollingBetaCalculator {
                        last_beta: beta,
                        last_update: now_ns,
                        ..old(self).calculators@[benchmark@]
                    },
                )
            } else {
                old(self).calculators@
            },
    {
        if let Some(calc) = self.calculators.get_mut(benchmark) {
            calc.record_beta(beta, now_ns);
        }
    }

    /// Get beta for a specific benchmark; none inside where it is no number
    pub fn get_beta(&self, benchmark: &str) -> (r: Option<Option<u64>>)
        ensures
            r == if self.calculators@.contains_key(benchmark@) {
                Some(self.calculators@[benchmark@].last_beta)
            } else {
                None
            },
    {
        match self.calculators.get(benchmark) {
            Some(calc) => Some(calc.beta()),
            None => None,
        }
    }

    /// Get all betas
    pub fn get_all_betas(&self) -> (r: NamedMap<Option<u64>>)
        requires
            self.inv(),
        ensures
            r.inv(),
            r@ == self.calculators@.map_values(|c: RollingBetaCalculator| c.last_beta),
    {
        let mut entries: Vec<(String, Option<u64>)> = Vec::new();
        let ghost all = self.calculators.entries@;
        let mut i: usize = 0;
        while i < self.calculators.entries.len()
            invariant
                i <= all.len(),
                all == self.calculators.entries@,
                entries@.len() == i,
                forall|j: int|
                    0 <= j < i ==> (#[trigger] entries@[j]).0 == all[j].0 && entries@[j].1
                        == all[j].1.last_beta,
            decreases self.calculators.entries.len() - i,
        {
            let name = self.calculators.entries[i].0.clone();
            entries.push((name, self.calculators.entries[i].1.beta()));
            i = i + 1;
        }
        let r = NamedMap { entries };
        proof {
            let expected = self.calculators@.map_values(|c: RollingBetaCalculator| c.last_beta);
            assert(r.inv()) by {
                assert forall|a: int, b: int| 0 <= a < b < r.entries@.len() implies (
                #[trigger] r.entries@[a]).0@ != (#[trigger] r.entries@[b]).0@ by {
                    assert(all[a].0@ != all[b].0@);
                }
            }
            assert forall|name: Seq<char>|
                #![trigger r@.dom().contains(name)]
                #![trigger expected.dom().contains(name)]
                r@.dom().contains(name) == expected.dom().contains(name) && (r@.dom().contains(
                    name,
                ) ==> r@[name] == expected[name]) by {
                crate::names::lemma_entry(r.entries@, name, 0);
                crate::names::lemma_entry(all, name, 0);
                if let Some(k) = crate::names::entry_at(r.entries@, name, 0) {
                    crate::names::lemma_entry_is(all, k as int);
                }
                if let Some(k) = crate::names::entry_at(all, name, 0) {
                    crate::names::lemma_entry_is(r.entries@, k as int);
                }
            }
            assert(r@ =~= expected);
        }
        r
    }

    /// The weights of those of the first `k` assets that have a beta, each with it.
    pub open spec fn weighted_betas(&self, weights: Seq<(String, u64)>, k: nat) -> Seq<(u64, u64)>
        decreases k,
    {
        if k == 0 {
            seq![]
        } else {
            let before = self.weighted_betas(weights, (k - 1) as nat);
            let name = weights[k - 1].0@;
            if self.calculators@.contains_key(name) {
                match self.calculators@[name].last_beta {
                    Some(beta) => before.push((weights[k - 1].1, beta)),
                    None => before,
                }
            } else {
                before
            }
        }
    }

    /// What the portfolio beta given weights is the sum of products of: the weights with the betas
    /// that they belong to
    pub fn portfolio_beta_terms(&self, weights: &Vec<(String, u64)>) -> (terms: Vec<(u64, u64)>)
        ensures
            terms@ == self.weighted_betas(weights@, weights@.len()),
    {
        let mut terms: Vec<(u64, u64)> = Vec::new();
        let mut k: usize = 0;
        while k < weights.len()
            invariant
                k <= weights@.len(),
                terms@ == self.weighted_betas(weights@, k as nat),
            decreases weights@.len() - k,
        {
            if let Some(Some(beta)) = self.get_beta(weights[k].0.as_str()) {
                terms.push((weights[k].1, beta));
            }
            k = k + 1;
        }
        terms
    }

    /// Get statistics
    pub fn stats(&self) -> (s: &BetaTrackerStats)
        ensures
            *s == self.stats,
    {
        &self.stats
    }
}

/// Beta-adjusted return
#[derive(Debug, Clone, Copy, PartialEq, Eq, Structural)]
pub struct BetaAdjustedReturn {
    /// Raw return
    pub raw_return: u64,
    /// Benchmark return
    pub benchmark_return: u64,
    /// Beta
    pub beta: u64,
    /// Beta-adjusted (alpha) return
    pub alpha: u64,
}

impl BetaAdjustedReturn {
    /// The return with its beta, and with what is left of it beside the beta; all of it is left
    /// where the beta is no number
    pub fn new(raw_return: u64, benchmark_return: u64, beta: u64, adjusted: u64) -> (r: Self)
        ensures
            r == (BetaAdjustedReturn {
                raw_return,
                benchmark_return,
                beta,
                alpha: if crate::doubles::is_nan(beta) {
                    raw_return
                } else {
                    adjusted
                },
            }),
    {
        let alpha: u64 = if not_a_number(beta) {
            raw_return
        } else {
            adjusted
        };
        Self { raw_return, benchmark_return, beta, alpha }
    }

    /// Get the portion of return explained by beta, none where that is no number
    pub fn beta_contribution(&self, product: u64) -> (c: u64)
        ensures
            c == if crate::doubles::is_nan(self.beta) {
                ZERO
            } else {
                product
            },
    {
        if not_a_number(self.beta) {
            ZERO
        } else {
            product
        }
    }
}

/// Taking a value out undoes the count of adding one: with the last value everything is empty again,
/// and no moment ever falls below zero.
pub proof fn law_removal_counts_down(s: OnlineStats, c: OnlineCovariance, a: u64, b: u64, m: u64)
    requires
        !crate::doubles::is_nan(m),
    ensures
        s.n > 0 ==> s.without(a, m).n == s.n - 1,
        s.n == 0 ==> s.without(a, m) == s,
        s.n == 1 ==> s.without(a, m) == OnlineStats::empty(),
        s.n > 1 ==> s.without(a, m).mean == a && crate::doubles::no_less(s.without(a, m).m2, ZERO),
        s.n > 1 && crate::doubles::no_less(m, ZERO) ==> s.without(a, m).m2 == m,
        c.n > 0 ==> c.without(a, b, m).n == c.n - 1,
        c.n == 0 ==> c.without(a, b, m) == c,
        c.n == 1 ==> c.without(a, b, m) == OnlineCovariance::empty(),
        c.n > 1 ==> c.without(a, b, m).mean_x == a && c.without(a, b, m).mean_y == b
            && crate::doubles::no_less(c.without(a, b, m).co_moment, ZERO),
        c.n > 1 && crate::doubles::no_less(m, ZERO) ==> c.without(a, b, m).co_moment == m,
{
}

/// Each weight of an asset with a beta is paired with that asset's beta, in the order of the
/// weights; assets without a beta are passed over.
pub proof fn law_weights_meet_their_betas(
    t: MultiAssetBetaTracker,
    weights: Seq<(String, u64)>,
    k: nat,
    i: int,
)
    requires
        k <= weights.len(),
        0 <= i < t.weighted_betas(weights, k).len(),
    ensures
        exists|j: int|
            0 <= j < k && (#[trigger] weights[j]).1 == t.weighted_betas(weights, k)[i].0
                && t.calculators@.contains_key(weights[j].0@)
                && t.calculators@[weights[j].0@].last_beta == Some(
                t.weighted_betas(weights, k)[i].1,
            ),
        t.weighted_betas(weights, k).len() == crate::tally::count(
            k,
            |j: int|
                t.calculators@.contains_key(weights[j].0@)
                    && t.calculators@[weights[j].0@].last_beta is Some,
        ),
    decreases k,
{
    lemma_weighted_count(t, weights, k);
    lemma_weighted_count(t, weights, (k - 1) as nat);
    let before = t.weighted_betas(weights, (k - 1) as nat);
    if i < before.len() {
        law_weights_meet_their_betas(t, weights, (k - 1) as nat, i);
        let j = choose|j: int|
            0 <= j < k - 1 && (#[trigger] weights[j]).1 == before[i].0
                && t.calculators@.contains_key(weights[j].0@)
                && t.calculators@[weights[j].0@].last_beta == Some(before[i].1);
        assert(weights[j].1 == t.weighted_betas(weights, k)[i].0);
    } else {
        assert(weights[k - 1].1 == t.weighted_betas(weights, k)[i].0);
    }
}

proof fn lemma_weighted_count(t: MultiAssetBetaTracker, weights: Seq<(String, u64)>, k: nat)
    ensures
        t.weighted_betas(weights, k).len() == crate::tally::count(
            k,
            |j: int|
                t.calculators@.contains_key(weights[j].0@)
                    && t.calculators@[weights[j].0@].last_beta is Some,
        ),
    decreases k,
{
    if k > 0 {
        lemma_weighted_count(t, weights, (k - 1) as nat);
    }
}

} // verus!
