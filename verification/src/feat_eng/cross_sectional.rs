//! Rankings of assets against each other. Prices, returns and scores stand as the bits of doubles.
use crate::doubles::{above, at_least, negated, ZERO};
use vstd::prelude::*;

verus! {

/// Asset identifier for cross-sectional analysis
#[derive(Debug, Clone, Copy, PartialEq, Eq, Hash, Structural)]
pub struct AssetId(pub u32);

/// Configuration for cross-sectional ranking
#[derive(Debug, Clone, Copy, PartialEq, Eq, Structural)]
pub struct CrossSectionalConfig {
    /// Lookback period for momentum calculation (in ticks)
    pub momentum_lookback: usize,
    /// Lookback period for mean reversion
    pub mean_reversion_lookback: usize,
    /// Minimum number of assets required for ranking
    pub min_assets: usize,
}

impl Default for CrossSectionalConfig {
    fn default() -> (c: Self)
        ensures
            c == (CrossSectionalConfig {
                momentum_lookback: 100,
                mean_reversion_lookback: 50,
                min_assets: 3,
            }),
    {
        Self { momentum_lookback: 100, mean_reversion_lookback: 50, min_assets: 3 }
    }
}

impl CrossSectionalConfig {
    /// The longer of both lookback periods.
    pub open spec fn longest(&self) -> usize {
        if self.momentum_lookback >= self.mean_reversion_lookback {
            self.momentum_lookback
        } else {
            self.mean_reversion_lookback
        }
    }

    /// The longer of both lookback periods
    pub fn max_lookback(&self) -> (r: usize)
        ensures
            r == self.longest(),
    {
        if self.momentum_lookback >= self.mean_reversion_lookback {
            self.momentum_lookback
        } else {
            self.mean_reversion_lookback
        }
    }

    /// True where there are enough assets to rank
    pub fn can_rank(&self, assets: usize) -> (r: bool)
        ensures
            r == (assets >= self.min_assets),
    {
        assets >= self.min_assets
    }
}

/// The price that momentum starts from: the one a lookback period before the end, or the first;
/// none where there are fewer than two prices or no period.
pub fn momentum_start(prices: usize, lookback: usize) -> (r: Option<usize>)
    ensures
        r == if prices < 2 || lookback == 0 {
            None
        } else if prices >= lookback {
            Some((prices - lookback) as usize)
        } else {
            Some(0usize)
        },
{
    if prices < 2 {
        return None;
    }
    let start: usize = prices.saturating_sub(lookback);
    if start >= prices {
        return None;
    }
    Some(start)
}

/// Where a score goes among sorted ones: behind those that are not higher.
pub open spec fn score_place(sorted: Seq<(AssetId, u64)>, key: u64, from: int) -> int
    decreases sorted.len() - from,
{
    if from >= sorted.len() {
        sorted.len() as int
    } else if crate::doubles::no_less(key, sorted[from].1) {
        score_place(sorted, key, from + 1)
    } else {
        from
    }
}

/// Assets by score, lowest first, and as given where scores are equal.
pub open spec fn ascending(scores: Seq<(AssetId, u64)>) -> Seq<(AssetId, u64)>
    decreases scores.len(),
{
    if scores.len() == 0 {
        Seq::empty()
    } else {
        let before = ascending(scores.drop_last());
        let s = scores.last();
        before.insert(score_place(before, s.1, 0), s)
    }
}

/// The first assets of a ranking, at most `n`.
pub open spec fn first_n(
    ranked: Seq<(AssetId, RankPlace)>,
    n: usize,
) -> Seq<(AssetId, RankPlace)> {
    if ranked.len() <= n {
        ranked
    } else {
        ranked.take(n as int)
    }
}

/// True where every score is a number.
pub open spec fn all_numbers(scores: Seq<(AssetId, u64)>) -> bool {
    forall|i: int| 0 <= i < scores.len() ==> !crate::doubles::is_nan((#[trigger] scores[i]).1)
}

/// Assets by score, lowest first, and as given where scores are equal
pub fn rank_assets(scores: &Vec<(AssetId, u64)>) -> (r: Vec<(AssetId, u64)>)
    requires
        all_numbers(scores@),
    ensures
        r@ == ascending(scores@),
{
    let ghost all = scores@;
    let mut sorted: Vec<(AssetId, u64)> = Vec::new();
    let mut i: usize = 0;
    assert(all.take(0) =~= Seq::<(AssetId, u64)>::empty());
    while i < scores.len()
        invariant
            i <= scores@.len(),
            all == scores@,
            sorted@ == ascending(all.take(i as int)),
        decreases scores.len() - i,
    {
        let s = scores[i];
        assert(all.take(i + 1).drop_last() =~= all.take(i as int));
        let mut k: usize = 0;
        while k < sorted.len() && at_least(s.1, sorted[k].1)
            invariant
                k <= sorted@.len(),
                score_place(sorted@, s.1, 0) == score_place(sorted@, s.1, k as int),
            decreases sorted.len() - k,
        {
            k = k + 1;
        }
        sorted.insert(k, s);
        i = i + 1;
    }
    assert(all.take(i as int) =~= all);
    sorted
}

/// A window with one more value; the oldest leaves where there are more than are kept.
pub open spec fn pushed(window: Seq<u64>, value: u64, max_len: usize) -> Seq<u64> {
    if window.len() >= max_len {
        window.push(value).skip(1)
    } else {
        window.push(value)
    }
}

/// The value that leaves a window where another comes, if one does.
pub open spec fn leaving(window: Seq<u64>, value: u64, max_len: usize) -> Option<u64> {
    if window.len() >= max_len {
        Some(window.push(value)[0])
    } else {
        None
    }
}

/// Adds a value to a window and takes the oldest out where there are more than are kept
fn push_bounded(window: &mut Vec<u64>, value: u64, max_len: usize) -> (r: Option<u64>)
    ensures
        final(window)@ == pushed(old(window)@, value, max_len),
        r == leaving(old(window)@, value, max_len),
{
    window.push(value);
    if window.len() > max_len {
        let oldest: u64 = window.remove(0);
        assert(window@ =~= old(window)@.push(value).skip(1));
        Some(oldest)
    } else {
        None
    }
}

/// What an update takes into the sums of an asset and what it takes out of them
#[derive(Debug, Clone, Copy, PartialEq, Eq, Structural)]
pub struct StatsUpdate {
    /// The return counts
    pub return_added: bool,
    pub old_return: Option<u64>,
    pub old_price: Option<u64>,
}

/// Rolling windows of a single asset
#[derive(Debug)]
pub struct RollingStats {
    pub prices: Vec<u64>,
    pub returns: Vec<u64>,
}

/// What a rolling window holds.
#[verifier::ext_equal]
pub struct StatsView {
    pub prices: Seq<u64>,
    pub returns: Seq<u64>,
}

impl StatsView {
    /// No prices and no returns.
    pub open spec fn empty() -> StatsView {
        StatsView { prices: Seq::empty(), returns: Seq::empty() }
    }

    /// True where there is a last price and it is positive, so that a return can be taken.
    pub open spec fn is_comparable(self) -> bool {
        self.prices.len() > 0 && crate::doubles::greater(self.prices.last(), ZERO)
    }

    /// The windows after a price.
    pub open spec fn after(self, price: u64, ret: u64, max_len: usize) -> StatsView {
        StatsView {
            prices: pushed(self.prices, price, max_len),
            returns: if self.is_comparable() {
                pushed(self.returns, ret, max_len)
            } else {
                self.returns
            },
        }
    }

    /// What a price takes into the sums and out of them.
    pub open spec fn change(self, price: u64, ret: u64, max_len: usize) -> StatsUpdate {
        StatsUpdate {
            return_added: self.is_comparable(),
            old_return: if self.is_comparable() {
                leaving(self.returns, ret, max_len)
            } else {
                None
            },
            old_price: leaving(self.prices, price, max_len),
        }
    }

    /// The prices that momentum is taken between: none where it counts as zero.
    pub open spec fn span(self, lookback: usize) -> Option<(u64, u64)> {
        let n = self.prices.len();
        let start = if n >= lookback {
            n - lookback
        } else {
            0
        };
        if n < 2 || lookback == 0 || crate::doubles::no_less(ZERO, self.prices[start]) {
            None
        } else {
            Some((self.prices[start], self.prices.last()))
        }
    }

    /// The mean return, for the sum over the count: zero where there is no return.
    pub open spec fn mean_of(self, quotient: u64) -> u64 {
        if self.returns.len() == 0 {
            ZERO
        } else {
            quotient
        }
    }

    /// The volatility, for the deviation of the returns: zero where there are fewer than two.
    pub open spec fn volatility_of(self, deviation: u64) -> u64 {
        if self.returns.len() < 2 {
            ZERO
        } else {
            deviation
        }
    }

    /// The momentum over a period, for the growth between its prices: zero where there are none.
    pub open spec fn momentum_of(self, lookback: usize, growth: u64) -> u64 {
        if self.span(lookback) is None {
            ZERO
        } else {
            growth
        }
    }

    /// The score of a value, for its distance from the mean over the volatility: zero where that is
    /// next to nothing.
    pub open spec fn z_score_of(self, volatility: u64, distance: u64) -> u64 {
        if self.returns.len() < 2 || crate::doubles::greater(SMALL_VOLATILITY, volatility) {
            ZERO
        } else {
            distance
        }
    }
}

/// The bits of one thousand-millionth, below which a volatility counts as none.
pub const SMALL_VOLATILITY: u64 = 0x3e11_2e0b_e826_d695;

impl View for RollingStats {
    type V = StatsView;

    open spec fn view(&self) -> StatsView {
        StatsView { prices: self.prices@, returns: self.returns@ }
    }
}

impl RollingStats {
    fn new() -> (s: Self)
        ensures
            s@ == StatsView::empty(),
    {
        Self { prices: Vec::new(), returns: Vec::new() }
    }

    fn update(&mut self, price: u64, ret: u64, max_len: usize) -> (r: StatsUpdate)
        ensures
            final(self)@ == old(self)@.after(price, ret, max_len),
            r == old(self)@.change(price, ret, max_len),
    {
        let return_added = self.prices.len() > 0 && above(
            self.prices[self.prices.len() - 1],
            ZERO,
        );
        let old_return = if return_added {
            push_bounded(&mut self.returns, ret, max_len)
        } else {
            None
        };
        let old_price = push_bounded(&mut self.prices, price, max_len);
        StatsUpdate { return_added, old_return, old_price }
    }

    /// The prices that momentum is taken between: none where there are fewer than two, no period,
    /// or the first is not positive, where momentum counts as zero
    pub fn momentum_span(&self, lookback: usize) -> (r: Option<(u64, u64)>)
        ensures
            r == self@.span(lookback),
    {
        match momentum_start(self.prices.len(), lookback) {
            Some(start) => {
                let first: u64 = self.prices[start];
                if at_least(ZERO, first) {
                    None
                } else {
                    Some((first, self.prices[self.prices.len() - 1]))
                }
            },
            None => None,
        }
    }

    /// Mean return, for the sum of the returns over their number
    pub fn mean_return(&self, quotient: u64) -> (r: u64)
        ensures
            r == self@.mean_of(quotient),
    {
        if self.returns.len() == 0 {
            return ZERO;
        }
        quotient
    }

    /// Volatility, for the deviation of the returns
    pub fn volatility(&self, deviation: u64) -> (r: u64)
        ensures
            r == self@.volatility_of(deviation),
    {
        if self.returns.len() < 2 {
            return ZERO;
        }
        deviation
    }

    /// Momentum over a period, for the growth between its prices
    pub fn momentum(&self, lookback: usize, growth: u64) -> (r: u64)
        ensures
            r == self@.momentum_of(lookback, growth),
    {
        match self.momentum_span(lookback) {
            Some(_) => growth,
            None => ZERO,
        }
    }

    /// Score of a value, for its distance from the mean over the volatility
    pub fn z_score(&self, volatility: u64, distance: u64) -> (r: u64)
        ensures
            r == self@.z_score_of(volatility, distance),
    {
        if self.returns.len() < 2 || above(SMALL_VOLATILITY, volatility) {
            return ZERO;
        }
        distance
    }
}

/// The windows of an asset
#[derive(Debug)]
pub struct AssetStats {
    pub asset: AssetId,
    pub stats: RollingStats,
}

/// The windows of assets, in the order of their first prices.
pub open spec fn windows(assets: Seq<AssetStats>) -> Seq<(AssetId, StatsView)> {
    Seq::new(assets.len(), |i: int| (assets[i].asset, assets[i].stats@))
}

/// Where an asset stands.
pub open spec fn place_of(all: Seq<(AssetId, StatsView)>, asset: AssetId, from: int) -> Option<int>
    decreases all.len() - from,
{
    if from >= all.len() {
        None
    } else if all[from].0 == asset {
        Some(from)
    } else {
        place_of(all, asset, from + 1)
    }
}

/// The windows of an asset, empty ones where it is new.
pub open spec fn window_of(all: Seq<(AssetId, StatsView)>, asset: AssetId) -> StatsView {
    match place_of(all, asset, 0) {
        Some(i) => all[i].1,
        None => StatsView::empty(),
    }
}

/// The windows with those of an asset replaced, or added where it is new.
pub open spec fn with_window(
    all: Seq<(AssetId, StatsView)>,
    asset: AssetId,
    window: StatsView,
) -> Seq<(AssetId, StatsView)> {
    match place_of(all, asset, 0) {
        Some(i) => all.update(i, (asset, window)),
        None => all.push((asset, window)),
    }
}

/// The place of an asset in a ranking, counted from zero for the lowest.
pub open spec fn rank_in(ranking: Seq<(AssetId, u64)>, asset: AssetId, from: int) -> Option<int>
    decreases ranking.len() - from,
{
    if from >= ranking.len() {
        None
    } else if ranking[from].0 == asset {
        Some(from)
    } else {
        rank_in(ranking, asset, from + 1)
    }
}

/// A place in a ranking, and the last place of it; their quotient is the rank between zero and one
#[derive(Debug, Clone, Copy, PartialEq, Eq, Structural)]
pub struct RankPlace {
    pub place: usize,
    pub last: usize,
}

/// The asset at a place of a ranking, with that place.
pub open spec fn ranked_at(ranking: Seq<(AssetId, u64)>, i: int) -> (AssetId, RankPlace) {
    (ranking[i].0, RankPlace { place: i as usize, last: (ranking.len() - 1) as usize })
}

/// The place of an asset in a ranking
fn find_rank(ranking: &Vec<(AssetId, u64)>, asset: AssetId) -> (r: Option<RankPlace>)
    ensures
        match (r, rank_in(ranking@, asset, 0)) {
            (Some(p), Some(i)) => p.place == i && p.last == ranking@.len() - 1,
            (None, None) => true,
            _ => false,
        },
{
    let mut i: usize = 0;
    while i < ranking.len()
        invariant
            i <= ranking@.len(),
            rank_in(ranking@, asset, 0) == rank_in(ranking@, asset, i as int),
        decreases ranking.len() - i,
    {
        if ranking[i].0.0 == asset.0 {
            return Some(RankPlace { place: i, last: ranking.len() - 1 });
        }
        i = i + 1;
    }
    None
}

/// The score of an asset in a ranking
fn find_score(ranking: &Vec<(AssetId, u64)>, asset: AssetId) -> (r: Option<u64>)
    ensures
        r == score_in(ranking@, asset),
{
    proof {
        lemma_rank_in(ranking@, asset, 0);
    }
    match find_rank(ranking, asset) {
        Some(p) => Some(ranking[p.place].1),
        None => None,
    }
}

/// The score of an asset in a ranking.
pub open spec fn score_in(ranking: Seq<(AssetId, u64)>, asset: AssetId) -> Option<u64> {
    match rank_in(ranking, asset, 0) {
        Some(i) => Some(ranking[i].1),
        None => None,
    }
}

/// What the place of an asset in a ranking is.
proof fn lemma_rank_in(ranking: Seq<(AssetId, u64)>, asset: AssetId, from: int)
    requires
        0 <= from <= ranking.len(),
    ensures
        match rank_in(ranking, asset, from) {
            Some(i) => from <= i < ranking.len() && ranking[i].0 == asset,
            None => true,
        },
    decreases ranking.len() - from,
{
    if from < ranking.len() && ranking[from].0 != asset {
        lemma_rank_in(ranking, asset, from + 1);
    }
}

/// Cross-sectional ranker for momentum and mean-reversion
#[derive(Debug)]
pub struct CrossSectionalRanker {
    pub config: CrossSectionalConfig,
    pub asset_stats: Vec<AssetStats>,
    /// Assets by momentum, weakest first
    pub momentum_ranks: Vec<(AssetId, u64)>,
    /// Assets by mean-reversion signal, least oversold first
    pub mr_ranks: Vec<(AssetId, u64)>,
}

impl CrossSectionalRanker {
    /// The windows of the assets.
    pub open spec fn assets(&self) -> Seq<(AssetId, StatsView)> {
        windows(self.asset_stats@)
    }

    pub fn new(config: CrossSectionalConfig) -> (r: Self)
        ensures
            r.config == config,
            r.assets() == Seq::<(AssetId, StatsView)>::empty(),
            r.momentum_ranks@.len() == 0,
            r.mr_ranks@.len() == 0,
    {
        let r = Self {
            config,
            asset_stats: Vec::new(),
            momentum_ranks: Vec::new(),
            mr_ranks: Vec::new(),
        };
        assert(r.assets() =~= Seq::<(AssetId, StatsView)>::empty());
        r
    }

    /// Where an asset stands
    fn find(&self, asset: AssetId) -> (r: Option<usize>)
        ensures
            match (r, place_of(self.assets(), asset, 0)) {
                (Some(i), Some(k)) => i == k && i < self.asset_stats@.len()
                    && self.asset_stats@[i as int].asset == asset,
                (None, None) => true,
                _ => false,
            },
    {
        let mut i: usize = 0;
        while i < self.asset_stats.len()
            invariant
                i <= self.asset_stats@.len(),
                place_of(self.assets(), asset, 0) == place_of(self.assets(), asset, i as int),
            decreases self.asset_stats.len() - i,
        {
            if self.asset_stats[i].asset.0 == asset.0 {
                return Some(i);
            }
            i = i + 1;
        }
        None
    }

    /// The last price of an asset, if it has one
    pub fn last_price(&self, asset: AssetId) -> (r: Option<u64>)
        ensures
            r == if window_of(self.assets(), asset).prices.len() == 0 {
                None
            } else {
                Some(window_of(self.assets(), asset).prices.last())
            },
    {
        match self.find(asset) {
            Some(i) => {
                let n: usize = self.asset_stats[i].stats.prices.len();
                if n == 0 {
                    None
                } else {
                    Some(self.asset_stats[i].stats.prices[n - 1])
                }
            },
            None => None,
        }
    }

    /// Update with new price for an asset, and the return since its last one
    ///
    /// Says what the sums of the asset have to take in and out.
    pub fn update_price(&mut self, asset: AssetId, price: u64, ret: u64) -> (r: StatsUpdate)
        ensures
            ({
                let before = window_of(old(self).assets(), asset);
                let max_len = old(self).config.longest();
                &&& final(self).assets() == with_window(
                    old(self).assets(),
                    asset,
                    before.after(price, ret, max_len),
                )
                &&& r == before.change(price, ret, max_len)
            }),
            final(self).config == old(self).config,
            final(self).momentum_ranks == old(self).momentum_ranks,
            final(self).mr_ranks == old(self).mr_ranks,
    {
        let max_len: usize = self.config.max_lookback();
        let ghost before = self.assets();
        match self.find(asset) {
            Some(i) => {
                let r = self.asset_stats[i].stats.update(price, ret, max_len);
                assert(self.assets() =~= with_window(
                    before,
                    asset,
                    window_of(before, asset).after(price, ret, max_len),
                ));
                r
            },
            None => {
                let mut stats = RollingStats::new();
                let r = stats.update(price, ret, max_len);
                self.asset_stats.push(AssetStats { asset, stats });
                assert(self.assets() =~= with_window(
                    before,
                    asset,
                    window_of(before, asset).after(price, ret, max_len),
                ));
                r
            },
        }
    }

    /// The momentum of each asset, for the growth of its prices over the period.
    pub open spec fn momentums(&self, growths: Seq<u64>) -> Seq<(AssetId, u64)> {
        Seq::new(
            self.assets().len(),
            |i: int|
                (
                    self.assets()[i].0,
                    self.assets()[i].1.momentum_of(self.config.momentum_lookback, growths[i]),
                ),
        )
    }

    /// The mean-reversion signal of each asset, for the sum of its returns over their number: the
    /// mean return, negated.
    pub open spec fn mr_signals(&self, means: Seq<u64>) -> Seq<(AssetId, u64)> {
        Seq::new(
            self.assets().len(),
            |i: int|
                (
                    self.assets()[i].0,
                    crate::doubles::negative(self.assets()[i].1.mean_of(means[i])),
                ),
        )
    }

    /// The momentum of each asset, for the growth of its prices over the period
    pub fn momentum_scores(&self, growths: &Vec<u64>) -> (r: Vec<(AssetId, u64)>)
        requires
            growths@.len() == self.assets().len(),
        ensures
            r@ == self.momentums(growths@),
    {
        let mut r: Vec<(AssetId, u64)> = Vec::new();
        let mut i: usize = 0;
        while i < self.asset_stats.len()
            invariant
                i <= self.asset_stats@.len(),
                growths@.len() == self.asset_stats@.len(),
                r@ == self.momentums(growths@).take(i as int),
            decreases self.asset_stats.len() - i,
        {
            let a = &self.asset_stats[i];
            r.push((a.asset, a.stats.momentum(self.config.momentum_lookback, growths[i])));
            i = i + 1;
            assert(r@ =~= self.momentums(growths@).take(i as int));
        }
        assert(r@ =~= self.momentums(growths@));
        r
    }

    /// The mean-reversion signal of each asset, for the sum of its returns over their number
    pub fn reversion_scores(&self, means: &Vec<u64>) -> (r: Vec<(AssetId, u64)>)
        requires
            means@.len() == self.assets().len(),
        ensures
            r@ == self.mr_signals(means@),
    {
        let mut r: Vec<(AssetId, u64)> = Vec::new();
        let mut i: usize = 0;
        while i < self.asset_stats.len()
            invariant
                i <= self.asset_stats@.len(),
                means@.len() == self.asset_stats@.len(),
                r@ == self.mr_signals(means@).take(i as int),
            decreases self.asset_stats.len() - i,
        {
            let a = &self.asset_stats[i];
            r.push((a.asset, negated(a.stats.mean_return(means[i]))));
            i = i + 1;
            assert(r@ =~= self.mr_signals(means@).take(i as int));
        }
        assert(r@ =~= self.mr_signals(means@));
        r
    }

    /// True where there are enough assets to rank.
    pub open spec fn ranks(&self) -> bool {
        self.assets().len() >= self.config.min_assets
    }

    /// Ranks the assets by their momentum and by their mean-reversion signals, where there are
    /// enough of them
    pub fn recalculate_scores(&mut self, growths: &Vec<u64>, means: &Vec<u64>)
        requires
            growths@.len() == old(self).assets().len(),
            means@.len() == old(self).assets().len(),
            old(self).ranks() ==> all_numbers(old(self).momentums(growths@)),
            old(self).ranks() ==> all_numbers(old(self).mr_signals(means@)),
        ensures
            final(self).config == old(self).config,
            final(self).asset_stats == old(self).asset_stats,
            !old(self).ranks() ==> *final(self) == *old(self),
            old(self).ranks() ==> {
                &&& final(self).momentum_ranks@ == ascending(old(self).momentums(growths@))
                &&& final(self).mr_ranks@ == ascending(old(self).mr_signals(means@))
            },
    {
        if !self.config.can_rank(self.asset_stats.len()) {
            return ;
        }
        let momentums = self.momentum_scores(growths);
        let signals = self.reversion_scores(means);
        self.momentum_ranks = rank_assets(&momentums);
        self.mr_ranks = rank_assets(&signals);
    }

    /// Get momentum rank for an asset
    pub fn get_momentum_rank(&self, asset: AssetId) -> (r: Option<RankPlace>)
        ensures
            match (r, rank_in(self.momentum_ranks@, asset, 0)) {
                (Some(p), Some(i)) => p.place == i && p.last == self.momentum_ranks@.len() - 1,
                (None, None) => true,
                _ => false,
            },
    {
        find_rank(&self.momentum_ranks, asset)
    }

    /// Get mean-reversion rank for an asset
    pub fn get_mr_rank(&self, asset: AssetId) -> (r: Option<RankPlace>)
        ensures
            match (r, rank_in(self.mr_ranks@, asset, 0)) {
                (Some(p), Some(i)) => p.place == i && p.last == self.mr_ranks@.len() - 1,
                (None, None) => true,
                _ => false,
            },
    {
        find_rank(&self.mr_ranks, asset)
    }

    /// Get combined score, for the weighted sum of both ranks
    pub fn get_combined_signal(&self, asset: AssetId, weighted: u64) -> (r: Option<u64>)
        ensures
            r == if rank_in(self.momentum_ranks@, asset, 0) is Some && rank_in(
                self.mr_ranks@,
                asset,
                0,
            ) is Some {
                Some(weighted)
            } else {
                None
            },
    {
        if self.get_momentum_rank(asset).is_some() && self.get_mr_rank(asset).is_some() {
            Some(weighted)
        } else {
            None
        }
    }

    /// Get top N assets by momentum with their ranks, strongest first
    pub fn top_momentum(&self, n: usize) -> (r: Vec<(AssetId, RankPlace)>)
        ensures
            r@ == first_n(
                Seq::new(
                    self.momentum_ranks@.len(),
                    |i: int| ranked_at(self.momentum_ranks@, self.momentum_ranks@.len() - 1 - i),
                ),
                n,
            ),
    {
        let len: usize = self.momentum_ranks.len();
        let count: usize = if len <= n {
            len
        } else {
            n
        };
        let mut r: Vec<(AssetId, RankPlace)> = Vec::new();
        let mut i: usize = 0;
        while i < count
            invariant
                i <= count,
                len == self.momentum_ranks@.len(),
                count <= len,
                r@.len() == i,
                forall|j: int|
                    0 <= j < i ==> #[trigger] r@[j] == ranked_at(
                        self.momentum_ranks@,
                        len - 1 - j,
                    ),
            decreases count - i,
        {
            let place: usize = len - 1 - i;
            r.push((self.momentum_ranks[place].0, RankPlace { place, last: len - 1 }));
            i = i + 1;
        }
        assert(r@ =~= first_n(
            Seq::new(
                self.momentum_ranks@.len(),
                |i: int| ranked_at(self.momentum_ranks@, self.momentum_ranks@.len() - 1 - i),
            ),
            n,
        ));
        r
    }

    /// Get bottom N assets by momentum with their ranks (best for mean-reversion longs)
    pub fn bottom_momentum(&self, n: usize) -> (r: Vec<(AssetId, RankPlace)>)
        ensures
            r@ == first_n(
                Seq::new(
                    self.momentum_ranks@.len(),
                    |i: int| ranked_at(self.momentum_ranks@, i),
                ),
                n,
            ),
    {
        let len: usize = self.momentum_ranks.len();
        let count: usize = if len <= n {
            len
        } else {
            n
        };
        let mut r: Vec<(AssetId, RankPlace)> = Vec::new();
        let mut i: usize = 0;
        while i < count
            invariant
                i <= count,
                len == self.momentum_ranks@.len(),
                count <= len,
                r@.len() == i,
                forall|j: int|
                    0 <= j < i ==> #[trigger] r@[j] == ranked_at(self.momentum_ranks@, j),
            decreases count - i,
        {
            r.push((self.momentum_ranks[i].0, RankPlace { place: i, last: len - 1 }));
            i = i + 1;
        }
        assert(r@ =~= first_n(
            Seq::new(self.momentum_ranks@.len(), |i: int| ranked_at(self.momentum_ranks@, i)),
            n,
        ));
        r
    }

    /// Get the number of assets
    pub fn asset_count(&self) -> (n: usize)
        ensures
            n == self.assets().len(),
    {
        self.asset_stats.len()
    }

    /// True where there are enough assets, each with at least half of the momentum period of prices.
    pub open spec fn has_data(&self) -> bool {
        &&& self.assets().len() >= self.config.min_assets
        &&& forall|i: int|
            0 <= i < self.assets().len() ==> (#[trigger] self.assets()[i]).1.prices.len()
                >= self.config.momentum_lookback / 2
    }

    /// Check if we have enough data for reliable rankings: enough assets, each with at least half of
    /// the momentum period of prices
    pub fn is_ready(&self) -> (r: bool)
        ensures
            r == self.has_data(),
    {
        if self.asset_stats.len() < self.config.min_assets {
            return false;
        }
        let mut i: usize = 0;
        while i < self.asset_stats.len()
            invariant
                i <= self.asset_stats@.len(),
                forall|j: int|
                    0 <= j < i ==> (#[trigger] self.assets()[j]).1.prices.len()
                        >= self.config.momentum_lookback / 2,
            decreases self.asset_stats.len() - i,
        {
            if self.asset_stats[i].stats.prices.len() < self.config.momentum_lookback / 2 {
                assert(self.assets()[i as int].1.prices.len() < self.config.momentum_lookback / 2);
                return false;
            }
            i = i + 1;
        }
        true
    }

    /// Clear all data
    pub fn clear(&mut self)
        ensures
            final(self).config == old(self).config,
            final(self).assets() == Seq::<(AssetId, StatsView)>::empty(),
            final(self).momentum_ranks@.len() == 0,
            final(self).mr_ranks@.len() == 0,
    {
        self.asset_stats.clear();
        self.momentum_ranks.clear();
        self.mr_ranks.clear();
        assert(self.assets() =~= Seq::<(AssetId, StatsView)>::empty());
    }
}

/// Feature vector for ML model consumption
#[derive(Debug, Clone, Copy, PartialEq, Eq, Structural)]
pub struct FeatureVector {
    pub asset: AssetId,
    pub momentum_z: u64,
    pub mr_z: u64,
    pub momentum_rank: u64,
    pub mr_rank: u64,
    pub volatility: u64,
    pub recent_return: u64,
}

impl FeatureVector {
    pub fn new(asset: AssetId) -> (f: Self)
        ensures
            f == (FeatureVector {
                asset,
                momentum_z: ZERO,
                mr_z: ZERO,
                momentum_rank: ZERO,
                mr_rank: ZERO,
                volatility: ZERO,
                recent_return: ZERO,
            }),
    {
        Self {
            asset,
            momentum_z: ZERO,
            mr_z: ZERO,
            momentum_rank: ZERO,
            mr_rank: ZERO,
            volatility: ZERO,
            recent_return: ZERO,
        }
    }
}

/// What arithmetic makes of an asset
#[derive(Debug, Clone, Copy, PartialEq, Eq, Structural)]
pub struct AssetFigures {
    /// The place by momentum over the last one
    pub momentum_rank: u64,
    /// The place by mean reversion over the last one
    pub mr_rank: u64,
    /// The deviation of the returns
    pub deviation: u64,
    /// The sum of the returns over their number
    pub mean_return: u64,
}

/// Feature extractor that generates vectors for IPC serialization
#[derive(Debug)]
pub struct FeatureExtractor<'a> {
    pub ranker: &'a CrossSectionalRanker,
}

/// The features of an asset; none of one without prices or ranks.
pub open spec fn features_of(
    ranker: &CrossSectionalRanker,
    asset: AssetId,
    f: AssetFigures,
) -> Option<FeatureVector> {
    match (score_in(ranker.momentum_ranks@, asset), score_in(ranker.mr_ranks@, asset)) {
        (Some(momentum_z), Some(mr_z)) => if place_of(ranker.assets(), asset, 0) is Some {
            Some(
                FeatureVector {
                    asset,
                    momentum_z,
                    mr_z,
                    momentum_rank: f.momentum_rank,
                    mr_rank: f.mr_rank,
                    volatility: window_of(ranker.assets(), asset).volatility_of(f.deviation),
                    recent_return: window_of(ranker.assets(), asset).mean_of(f.mean_return),
                },
            )
        } else {
            None
        },
        _ => None,
    }
}

/// The features of the first assets, without those that have none.
pub open spec fn first_features(
    ranker: &CrossSectionalRanker,
    figures: Seq<AssetFigures>,
    n: int,
) -> Seq<FeatureVector>
    decreases n,
{
    if n <= 0 {
        Seq::empty()
    } else {
        let before = first_features(ranker, figures, n - 1);
        match features_of(ranker, ranker.assets()[n - 1].0, figures[n - 1]) {
            Some(f) => before.push(f),
            None => before,
        }
    }
}

impl<'a> FeatureExtractor<'a> {
    pub fn new(ranker: &'a CrossSectionalRanker) -> (e: Self)
        ensures
            e.ranker == ranker,
    {
        Self { ranker }
    }

    /// Generate feature vector for an asset
    pub fn extract_features(&self, asset: AssetId, figures: AssetFigures) -> (r: Option<FeatureVector>)
        ensures
            r == features_of(self.ranker, asset, figures),
    {
        let place: usize = match self.ranker.find(asset) {
            Some(i) => i,
            None => {
                return None;
            },
        };
        let stats = &self.ranker.asset_stats[place].stats;
        let momentum_z: u64 = match find_score(&self.ranker.momentum_ranks, asset) {
            Some(z) => z,
            None => {
                return None;
            },
        };
        let mr_z: u64 = match find_score(&self.ranker.mr_ranks, asset) {
            Some(z) => z,
            None => {
                return None;
            },
        };
        Some(
            FeatureVector {
                asset,
                momentum_z,
                mr_z,
                momentum_rank: figures.momentum_rank,
                mr_rank: figures.mr_rank,
                volatility: stats.volatility(figures.deviation),
                recent_return: stats.mean_return(figures.mean_return),
            },
        )
    }

    /// Generate feature vectors for all assets
    pub fn extract_all(&self, figures: &Vec<AssetFigures>) -> (r: Vec<FeatureVector>)
        requires
            figures@.len() == self.ranker.assets().len(),
        ensures
            r@ == first_features(self.ranker, figures@, self.ranker.assets().len() as int),
    {
        let mut r: Vec<FeatureVector> = Vec::new();
        let mut i: usize = 0;
        while i < self.ranker.asset_stats.len()
            invariant
                i <= self.ranker.asset_stats@.len(),
                figures@.len() == self.ranker.asset_stats@.len(),
                r@ == first_features(self.ranker, figures@, i as int),
            decreases self.ranker.asset_stats.len() - i,
        {
            match self.extract_features(self.ranker.asset_stats[i].asset, figures[i]) {
                Some(f) => {
                    r.push(f);
                },
                None => {},
            }
            i = i + 1;
        }
        r
    }
}

/// A window never grows past what is kept, and ends with the newest value where any is kept.
pub proof fn law_windows_are_bounded(window: Seq<u64>, value: u64, max_len: usize)
    requires
        window.len() <= max_len,
    ensures
        pushed(window, value, max_len).len() <= max_len,
        max_len > 0 ==> pushed(window, value, max_len).last() == value,
{
}

/// A price of one asset leaves the windows of the others alone.
pub proof fn law_assets_are_independent(
    all: Seq<(AssetId, StatsView)>,
    asset: AssetId,
    window: StatsView,
    other: AssetId,
)
    ensures
        window_of(with_window(all, asset, window), asset) == window,
        other != asset ==> window_of(with_window(all, asset, window), other) == window_of(
            all,
            other,
        ),
{
    lemma_place_of(all, asset, 0);
    lemma_place_of(all, other, 0);
    let now = with_window(all, asset, window);
    lemma_place_of(now, asset, 0);
    lemma_place_of(now, other, 0);
    match place_of(all, asset, 0) {
        Some(i) => {
            assert(now[i].0 == asset);
            match place_of(all, other, 0) {
                Some(k) => {
                    assert(now[k].0 == other);
                },
                None => {},
            }
            match place_of(now, asset, 0) {
                Some(k) => {
                    assert(all[k].0 == asset || k == i);
                },
                None => {},
            }
            match place_of(now, other, 0) {
                Some(k) => {
                    assert(other != asset ==> all[k].0 == other);
                },
                None => {},
            }
        },
        None => {
            assert(now[all.len() as int].0 == asset);
            match place_of(all, other, 0) {
                Some(k) => {
                    assert(now[k].0 == other);
                },
                None => {},
            }
            match place_of(now, asset, 0) {
                Some(k) => {
                    assert(k < all.len() ==> all[k].0 == asset);
                },
                None => {},
            }
            match place_of(now, other, 0) {
                Some(k) => {
                    assert(k < all.len() ==> all[k].0 == other);
                },
                None => {},
            }
        },
    }
}

/// What the place of an asset is.
proof fn lemma_place_of(all: Seq<(AssetId, StatsView)>, asset: AssetId, from: int)
    requires
        0 <= from <= all.len(),
    ensures
        match place_of(all, asset, from) {
            Some(i) => from <= i < all.len() && all[i].0 == asset && forall|j: int|
                from <= j < i ==> (#[trigger] all[j]).0 != asset,
            None => forall|j: int| from <= j < all.len() ==> (#[trigger] all[j]).0 != asset,
        },
    decreases all.len() - from,
{
    if from < all.len() && all[from].0 != asset {
        lemma_place_of(all, asset, from + 1);
    }
}

/// Once the assets are ranked, every asset has features, and its scores are those that it was ranked
/// by.
pub proof fn law_ranked_assets_have_features(
    ranker: &CrossSectionalRanker,
    growths: Seq<u64>,
    means: Seq<u64>,
    asset: AssetId,
    figures: AssetFigures,
)
    requires
        place_of(ranker.assets(), asset, 0) is Some,
        all_numbers(ranker.momentums(growths)),
        all_numbers(ranker.mr_signals(means)),
        ranker.momentum_ranks@ == ascending(ranker.momentums(growths)),
        ranker.mr_ranks@ == ascending(ranker.mr_signals(means)),
    ensures
        features_of(ranker, asset, figures) matches Some(f) && {
            &&& ranker.momentums(growths).contains((asset, f.momentum_z))
            &&& ranker.mr_signals(means).contains((asset, f.mr_z))
        },
{
    lemma_place_of(ranker.assets(), asset, 0);
    let i = place_of(ranker.assets(), asset, 0)->0;
    lemma_ranked(ranker.momentums(growths), asset, i);
    lemma_ranked(ranker.mr_signals(means), asset, i);
}

/// An asset that has a score has one in the ranking, and it is one of its scores.
proof fn lemma_ranked(scores: Seq<(AssetId, u64)>, asset: AssetId, i: int)
    requires
        all_numbers(scores),
        0 <= i < scores.len(),
        scores[i].0 == asset,
    ensures
        score_in(ascending(scores), asset) matches Some(z) && scores.contains((asset, z)),
{
    law_ranking_is_sorted_and_complete(scores);
    let ranked = ascending(scores);
    scores.to_multiset_ensures();
    ranked.to_multiset_ensures();
    assert(scores.contains(scores[i]));
    assert(ranked.to_multiset().count(scores[i]) > 0);
    assert(ranked.contains(scores[i]));
    let k = ranked.index_of(scores[i]);
    lemma_rank_found(ranked, asset, 0, k);
    lemma_rank_in(ranked, asset, 0);
    let j = rank_in(ranked, asset, 0)->0;
    assert(ranked.contains(ranked[j]));
    assert(scores.to_multiset().count(ranked[j]) > 0);
    assert(scores.contains(ranked[j]));
}

proof fn lemma_rank_found(ranking: Seq<(AssetId, u64)>, asset: AssetId, from: int, k: int)
    requires
        0 <= from <= k < ranking.len(),
        ranking[k].0 == asset,
    ensures
        rank_in(ranking, asset, from) is Some,
    decreases ranking.len() - from,
{
    if ranking[from].0 != asset {
        lemma_rank_found(ranking, asset, from + 1, k);
    }
}

/// A ranking holds every asset that was given, and no other, by rising scores.
pub proof fn law_ranking_is_sorted_and_complete(scores: Seq<(AssetId, u64)>)
    requires
        all_numbers(scores),
    ensures
        ascending(scores).to_multiset() == scores.to_multiset(),
        ascending(scores).len() == scores.len(),
        all_numbers(ascending(scores)),
        forall|i: int, j: int|
            0 <= i <= j < ascending(scores).len() ==> crate::doubles::no_less(
                (#[trigger] ascending(scores)[j]).1,
                (#[trigger] ascending(scores)[i]).1,
            ),
    decreases scores.len(),
{
    if scores.len() > 0 {
        let before = ascending(scores.drop_last());
        assert(all_numbers(scores.drop_last())) by {
            assert forall|i: int| 0 <= i < scores.len() - 1 implies !crate::doubles::is_nan(
                (#[trigger] scores.drop_last()[i]).1,
            ) by {
                assert(!crate::doubles::is_nan(scores[i].1));
            }
        }
        assert(!crate::doubles::is_nan(scores[scores.len() - 1].1));
        let s = scores.last();
        law_ranking_is_sorted_and_complete(scores.drop_last());
        lemma_score_place(before, s.1, 0);
        let k = score_place(before, s.1, 0);
        let after = before.insert(k, s);
        assert(scores =~= scores.drop_last().push(s));
        vstd::seq_lib::to_multiset_insert(before, k, s);
        vstd::seq_lib::to_multiset_build(scores.drop_last(), s);
        assert(all_numbers(after)) by {
            assert forall|i: int| 0 <= i < after.len() implies !crate::doubles::is_nan(
                (#[trigger] after[i]).1,
            ) by {
                if i < k {
                    assert(!crate::doubles::is_nan(before[i].1));
                } else if i > k {
                    assert(!crate::doubles::is_nan(before[i - 1].1));
                }
            }
        }
        assert forall|i: int, j: int| 0 <= i <= j < after.len() implies crate::doubles::no_less(
            (#[trigger] after[j]).1,
            (#[trigger] after[i]).1,
        ) by {
            if i < k {
                assert(after[i] == before[i]);
            } else if i > k {
                assert(after[i] == before[i - 1]);
            }
            if j < k {
                assert(after[j] == before[j]);
            } else if j > k {
                assert(after[j] == before[j - 1]);
            }
            if i == k && j > k {
                assert(!crate::doubles::is_nan(before[k].1));
                assert(crate::doubles::no_less(before[j - 1].1, before[k].1));
            }
            if j == k && i < k {
                assert(crate::doubles::no_less(s.1, before[i].1));
            }
            assert(!crate::doubles::is_nan(after[i].1));
        }
    } else {
        assert(ascending(scores) =~= scores);
    }
}

proof fn lemma_score_place(sorted: Seq<(AssetId, u64)>, key: u64, from: int)
    requires
        0 <= from <= sorted.len(),
    ensures
        ({
            let k = score_place(sorted, key, from);
            &&& from <= k <= sorted.len()
            &&& forall|i: int|
                from <= i < k ==> crate::doubles::no_less(key, (#[trigger] sorted[i]).1)
            &&& k < sorted.len() ==> !crate::doubles::no_less(key, sorted[k].1)
        }),
    decreases sorted.len() - from,
{
    if from < sorted.len() && crate::doubles::no_less(key, sorted[from].1) {
        lemma_score_place(sorted, key, from + 1);
    }
}

/// A window keeps the latest values in the order in which they came; what leaves is the oldest.
pub proof fn law_windows_forget_the_oldest(window: Seq<u64>, value: u64, max_len: usize, i: int)
    requires
        0 <= i,
        window.len() <= max_len,
        max_len > 0,
    ensures
        window.len() < max_len ==> pushed(window, value, max_len).len() == window.len() + 1
            && leaving(window, value, max_len) is None,
        window.len() < max_len && i < window.len() ==> pushed(window, value, max_len)[i]
            == window[i],
        window.len() == max_len ==> leaving(window, value, max_len) == Some(window[0])
            && pushed(window, value, max_len).len() == max_len,
        window.len() == max_len && i + 1 < window.len() ==> pushed(window, value, max_len)[i]
            == window[i + 1],
        pushed(window, value, max_len).last() == value,
{
}

/// Momentum is measured from the price so many steps back as the lookback says, or from the first
/// one that is kept, to the last; it takes two prices and a positive first one.
pub proof fn law_momentum_looks_back(w: StatsView, lookback: usize)
    requires
        w.prices.len() >= 2,
        lookback > 0,
        crate::doubles::is_finite(w.prices[0]),
        lookback <= w.prices.len() ==> crate::doubles::is_finite(
            w.prices[w.prices.len() - lookback],
        ),
    ensures
        ({
            let first = if lookback <= w.prices.len() {
                w.prices[w.prices.len() - lookback]
            } else {
                w.prices[0]
            };
            &&& crate::doubles::units(first) > 0 ==> w.span(lookback) == Some(
                (first, w.prices[w.prices.len() - 1]),
            )
            &&& crate::doubles::units(first) <= 0 ==> w.span(lookback) is None
        }),
{
    let first = if lookback <= w.prices.len() {
        w.prices[w.prices.len() - lookback]
    } else {
        w.prices[0]
    };
    crate::doubles::law_values_are_ordered(ZERO, first);
}

/// A return is kept with a price exactly where the price before it was positive; the sums are told
/// what came and what left.
pub proof fn law_returns_need_a_positive_price(w: StatsView, price: u64, ret: u64, max_len: usize)
    requires
        w.prices.len() > 0,
        crate::doubles::is_finite(w.prices.last()),
        max_len > 0,
    ensures
        w.change(price, ret, max_len).return_added <==> crate::doubles::units(w.prices.last()) > 0,
        !w.change(price, ret, max_len).return_added ==> w.after(price, ret, max_len).returns
            == w.returns,
        w.change(price, ret, max_len).return_added ==> w.after(price, ret, max_len).returns.last()
            == ret,
        w.after(price, ret, max_len).prices.last() == price,
        StatsView::empty().change(price, ret, max_len).return_added == false,
{
    crate::doubles::law_values_are_ordered(w.prices.last(), ZERO);
}

/// Statistics count for nothing where there is too little to take them from: the mean of no returns,
/// the volatility of fewer than two, and a distance in terms of next to no volatility.
pub proof fn law_statistics_need_enough_returns(w: StatsView, value: u64, volatility: u64)
    requires
        crate::doubles::is_finite(volatility),
    ensures
        w.mean_of(value) == if w.returns.len() > 0 {
            value
        } else {
            ZERO
        },
        w.volatility_of(value) == if w.returns.len() > 1 {
            value
        } else {
            ZERO
        },
        w.z_score_of(volatility, value) == if w.returns.len() > 1 && crate::doubles::units(
            volatility,
        ) >= crate::doubles::units(SMALL_VOLATILITY) {
            value
        } else {
            ZERO
        },
{
    crate::doubles::law_values_are_ordered(SMALL_VOLATILITY, volatility);
}

/// Assets are ranked for mean reversion against their mean return: of two assets with returns the
/// one that gained less is ranked no lower.
pub proof fn law_losers_revert(ranker: CrossSectionalRanker, means: Seq<u64>, i: int, j: int)
    requires
        0 <= i < ranker.assets().len(),
        0 <= j < ranker.assets().len(),
        means.len() == ranker.assets().len(),
        ranker.assets()[i].1.returns.len() > 0,
        ranker.assets()[j].1.returns.len() > 0,
        crate::doubles::greater(means[i], means[j]),
    ensures
        crate::doubles::greater(ranker.mr_signals(means)[j].1, ranker.mr_signals(means)[i].1),
        ranker.mr_signals(means)[i].0 == ranker.assets()[i].0,
{
}

/// Assets are ranked for momentum by their growth, where it can be measured.
pub proof fn law_winners_have_momentum(ranker: CrossSectionalRanker, growths: Seq<u64>, i: int)
    requires
        0 <= i < ranker.assets().len(),
    ensures
        ranker.momentums(growths)[i].0 == ranker.assets()[i].0,
        ranker.assets()[i].1.span(ranker.config.momentum_lookback) is Some
            ==> ranker.momentums(growths)[i].1 == growths[i],
        ranker.assets()[i].1.span(ranker.config.momentum_lookback) is None
            ==> ranker.momentums(growths)[i].1 == ZERO,
{
}

/// The rank of an asset is the place of its first entry in the ranking.
pub proof fn law_rank_is_the_place(ranking: Seq<(AssetId, u64)>, asset: AssetId, from: int)
    requires
        0 <= from <= ranking.len(),
    ensures
        match rank_in(ranking, asset, from) {
            Some(i) => from <= i < ranking.len() && ranking[i].0 == asset && forall|j: int|
                from <= j < i ==> (#[trigger] ranking[j]).0 != asset,
            None => forall|j: int| from <= j < ranking.len() ==> (#[trigger] ranking[j]).0 != asset,
        },
    decreases ranking.len() - from,
{
    if from < ranking.len() && ranking[from].0 != asset {
        law_rank_is_the_place(ranking, asset, from + 1);
    }
}

/// The features of an asset are its two scores, its two ranks and the statistics of its window.
pub proof fn law_features_are_those_of_the_asset(
    ranker: CrossSectionalRanker,
    asset: AssetId,
    f: AssetFigures,
)
    requires
        features_of(&ranker, asset, f) is Some,
    ensures
        ({
            let v = features_of(&ranker, asset, f)->0;
            &&& v.asset == asset
            &&& Some(v.momentum_z) == score_in(ranker.momentum_ranks@, asset)
            &&& Some(v.mr_z) == score_in(ranker.mr_ranks@, asset)
            &&& v.momentum_rank == f.momentum_rank
            &&& v.mr_rank == f.mr_rank
            &&& window_of(ranker.assets(), asset).returns.len() > 1 ==> v.volatility == f.deviation
            &&& window_of(ranker.assets(), asset).returns.len() > 0 ==> v.recent_return
                == f.mean_return
        }),
{
}

/// The first of a ranking, as many as were asked for or as there are; windows are as long as the
/// longer of the two lookbacks.
pub proof fn law_first_of_a_ranking(
    ranked: Seq<(AssetId, RankPlace)>,
    n: usize,
    i: int,
    config: CrossSectionalConfig,
)
    requires
        0 <= i < ranked.len(),
        i < n,
    ensures
        first_n(ranked, n).len() <= n && first_n(ranked, n).len() <= ranked.len(),
        first_n(ranked, n).len() == n || first_n(ranked, n).len() == ranked.len(),
        first_n(ranked, n)[i] == ranked[i],
        config.longest() >= config.momentum_lookback,
        config.longest() >= config.mean_reversion_lookback,
        config.longest() == config.momentum_lookback || config.longest()
            == config.mean_reversion_lookback,
{
}

/// There are data enough where there are assets enough and each has at least half a lookback of prices.
pub proof fn law_data_suffice(r: CrossSectionalRanker, i: int)
    ensures
        r.has_data() ==> r.assets().len() >= r.config.min_assets && r.ranks(),
        r.has_data() && 0 <= i < r.assets().len() ==> 2 * r.assets()[i].1.prices.len() + 1
            >= r.config.momentum_lookback,
        r.ranks() <==> r.assets().len() >= r.config.min_assets,
        r.ranks() && !r.has_data() ==> exists|k: int|
            0 <= k < r.assets().len() && 2 * (#[trigger] r.assets()[k]).1.prices.len()
                < r.config.momentum_lookback,
{
}

/// The features of all are those of the assets that have some, in the order of the assets.
pub proof fn law_features_of_all(
    ranker: CrossSectionalRanker,
    figures: Seq<AssetFigures>,
    n: int,
)
    requires
        0 <= n <= ranker.assets().len(),
        figures.len() == ranker.assets().len(),
    ensures
        first_features(&ranker, figures, n) == Seq::new(
            n as nat,
            |i: int| features_of(&ranker, ranker.assets()[i].0, figures[i]),
        ).filter(|f: Option<FeatureVector>| f is Some).map_values(
            |f: Option<FeatureVector>| f->0,
        ),
    decreases n,
{
    reveal(Seq::filter);
    let all = Seq::new(
        n as nat,
        |i: int| features_of(&ranker, ranker.assets()[i].0, figures[i]),
    );
    let p = |f: Option<FeatureVector>| f is Some;
    let g = |f: Option<FeatureVector>| f->0;
    if n > 0 {
        law_features_of_all(ranker, figures, n - 1);
        assert(all.drop_last() =~= Seq::new(
            (n - 1) as nat,
            |i: int| features_of(&ranker, ranker.assets()[i].0, figures[i]),
        ));
        assert(all.last() == features_of(&ranker, ranker.assets()[n - 1].0, figures[n - 1]));
    }
    assert(first_features(&ranker, figures, n) =~= all.filter(p).map_values(g));
}

} // verus!
