//! Ring buffers of numbers, each as the bits of a double, and the windows that indicators are taken
//! from.
use crate::doubles::{above, equal, larger, smaller, INFINITY, MINUS_INFINITY, ZERO};
use crate::features::normalization::SINGLE_ZERO;
use vstd::prelude::*;

verus! {

/// Maximum window size for rolling calculations
pub const MAX_WINDOW_SIZE: usize = 1024;

/// Ring buffer for rolling window operations
#[derive(Debug)]
pub struct RingBuffer {
    /// Underlying data storage
    pub data: Vec<u64>,
    /// Current write position
    pub write_pos: usize,
    /// Number of valid elements
    pub count: usize,
    /// Maximum capacity
    pub capacity: usize,
}

/// Returns that the relative strength index is taken from.
pub const RSI_PERIOD: usize = 14;

/// Prices that the moving averages need.
pub const MACD_PERIOD: usize = 26;

/// The bits of 100, the relative strength of returns without losses.
pub const HUNDRED: u64 = 0x4059_0000_0000_0000;

/// True of the least number among values, or of infinity where none is a number.
pub open spec fn is_least(r: u64, values: Seq<u64>) -> bool {
    &&& !crate::doubles::is_nan(r)
    &&& r == INFINITY || values.contains(r)
    &&& forall|k: int|
        0 <= k < values.len() && !crate::doubles::is_nan(#[trigger] values[k])
            ==> crate::doubles::no_less(values[k], r)
}

/// True of the greatest number among values, or of minus infinity where none is a number.
pub open spec fn is_greatest(r: u64, values: Seq<u64>) -> bool {
    &&& !crate::doubles::is_nan(r)
    &&& r == MINUS_INFINITY || values.contains(r)
    &&& forall|k: int|
        0 <= k < values.len() && !crate::doubles::is_nan(#[trigger] values[k])
            ==> crate::doubles::no_less(r, values[k])
}

/// The smaller of a window size and the largest one.
pub open spec fn bounded(capacity: usize) -> usize {
    if capacity <= MAX_WINDOW_SIZE {
        capacity
    } else {
        MAX_WINDOW_SIZE
    }
}

impl RingBuffer {
    pub open spec fn inv(&self) -> bool {
        &&& self.data@.len() == self.capacity
        &&& self.capacity <= MAX_WINDOW_SIZE
        &&& self.count <= self.capacity
        &&& self.count <= self.write_pos
    }

    /// The slot of the element that was pushed `offset` pushes before the latest.
    pub open spec fn slot(&self, offset: int) -> int {
        (self.write_pos - 1 - offset) % self.capacity as int
    }

    /// The elements, latest first.
    pub open spec fn elements(&self) -> Seq<u64> {
        Seq::new(self.count as nat, |i: int| self.data@[self.slot(i)])
    }

    /// Create a new ring buffer with specified capacity
    pub fn new(capacity: usize) -> (b: Self)
        ensures
            b.inv(),
            b.capacity == bounded(capacity),
            b.count == 0,
            b.write_pos == 0,
            b.data@ == Seq::new(bounded(capacity) as nat, |i: int| 0u64),
    {
        let capacity: usize = if capacity <= MAX_WINDOW_SIZE {
            capacity
        } else {
            MAX_WINDOW_SIZE
        };
        let mut data: Vec<u64> = Vec::new();
        let mut i: usize = 0;
        while i < capacity
            invariant
                i <= capacity,
                data@.len() == i,
                forall|j: int| 0 <= j < i ==> #[trigger] data@[j] == 0,
            decreases capacity - i,
        {
            data.push(0);
            i = i + 1;
        }
        assert(data@ =~= Seq::new(capacity as nat, |i: int| 0u64));
        Self { data, write_pos: 0, count: 0, capacity }
    }

    /// Push a new value to the buffer
    /// Returns what stood in its slot
    pub fn push(&mut self, value: u64) -> (old_value: u64)
        requires
            old(self).inv(),
            old(self).capacity > 0,
            old(self).write_pos < usize::MAX,
        ensures
            final(self).inv(),
            final(self).capacity == old(self).capacity,
            final(self).write_pos == old(self).write_pos + 1,
            final(self).elements() == seq![value] + if old(self).count < old(self).capacity {
                old(self).elements()
            } else {
                old(self).elements().drop_last()
            },
            old_value == old(self).data@[old(self).write_pos as int % old(self).capacity as int],
            old(self).count == old(self).capacity ==> old_value == old(self).elements().last(),
    {
        let pos: usize = self.write_pos % self.capacity;
        let old_value: u64 = self.data[pos];
        self.data.set(pos, value);
        self.write_pos = self.write_pos + 1;
        if self.count < self.capacity {
            self.count = self.count + 1;
        }
        proof {
            let c = self.capacity as int;
            let w = old(self).write_pos as int;
            let before = old(self).elements();
            let expected = seq![value] + if old(self).count < old(self).capacity {
                before
            } else {
                before.drop_last()
            };
            assert forall|i: int| 0 <= i < expected.len() implies self.elements()[i]
                == expected[i] by {
                lemma_slots_differ(w, i, c);
                if i > 0 {
                    assert(expected[i] == before[i - 1]);
                    assert(before[i - 1] == old(self).data@[(w - 1 - (i - 1)) % c]);
                }
            }
            assert(self.elements() =~= expected);
            if old(self).count == old(self).capacity {
                assert((w - 1 - (c - 1)) % c == w % c) by {
                    vstd::arithmetic::div_mod::lemma_mod_sub_multiples_vanish(w, c);
                }
            }
        }
        old_value
    }

    /// Get the minimum value; zero where there is none
    pub fn min(&self) -> (r: u64)
        requires
            self.inv(),
        ensures
            self.count == 0 ==> r == ZERO,
            self.count > 0 ==> is_least(r, self.elements()),
    {
        if self.count == 0 {
            return ZERO;
        }
        let mut r: u64 = INFINITY;
        let mut i: usize = 0;
        while i < self.count
            invariant
                self.inv(),
                i <= self.count,
                is_least(r, self.elements().take(i as int)),
            decreases self.count - i,
        {
            let pos: usize = (self.write_pos - 1 - i) % self.capacity;
            let value: u64 = self.data[pos];
            let ghost before = self.elements().take(i as int);
            let ghost now = self.elements().take(i + 1);
            let ghost old_r = r;
            r = smaller(r, value);
            i = i + 1;
            proof {
                assert(now =~= before.push(value));
                assert(now[before.len() as int] == value);
                if before.contains(old_r) {
                    let k = choose|k: int| 0 <= k < before.len() && before[k] == old_r;
                    assert(now[k] == old_r);
                }
                assert forall|k: int| 0 <= k < now.len() && !crate::doubles::is_nan(
                    #[trigger] now[k],
                ) implies crate::doubles::no_less(now[k], r) by {
                    if k < before.len() {
                        assert(now[k] == before[k]);
                    }
                }
            }
        }
        assert(self.elements().take(i as int) =~= self.elements());
        r
    }

    /// Get the maximum value; zero where there is none
    pub fn max(&self) -> (r: u64)
        requires
            self.inv(),
        ensures
            self.count == 0 ==> r == ZERO,
            self.count > 0 ==> is_greatest(r, self.elements()),
    {
        if self.count == 0 {
            return ZERO;
        }
        let mut r: u64 = MINUS_INFINITY;
        let mut i: usize = 0;
        while i < self.count
            invariant
                self.inv(),
                i <= self.count,
                is_greatest(r, self.elements().take(i as int)),
            decreases self.count - i,
        {
            let pos: usize = (self.write_pos - 1 - i) % self.capacity;
            let value: u64 = self.data[pos];
            let ghost before = self.elements().take(i as int);
            let ghost now = self.elements().take(i + 1);
            let ghost old_r = r;
            r = larger(r, value);
            i = i + 1;
            proof {
                assert(now =~= before.push(value));
                assert(now[before.len() as int] == value);
                if before.contains(old_r) {
                    let k = choose|k: int| 0 <= k < before.len() && before[k] == old_r;
                    assert(now[k] == old_r);
                }
                assert forall|k: int| 0 <= k < now.len() && !crate::doubles::is_nan(
                    #[trigger] now[k],
                ) implies crate::doubles::no_less(r, now[k]) by {
                    if k < before.len() {
                        assert(now[k] == before[k]);
                    }
                }
            }
        }
        assert(self.elements().take(i as int) =~= self.elements());
        r
    }

    /// Get the current mean, for the sum over the count: zero where there is none
    pub fn mean(&self, quotient: u64) -> (r: u64)
        ensures
            r == self.moment(1, quotient),
    {
        if self.count == 0 {
            return ZERO;
        }
        quotient
    }

    /// Get the current variance, for the mean of the squares less the square of the mean: zero where
    /// there are fewer than two values
    pub fn variance(&self, difference: u64) -> (r: u64)
        ensures
            r == self.moment(2, difference),
    {
        if self.count < 2 {
            return ZERO;
        }
        difference
    }

    /// Get the current standard deviation, for the root of the variance: zero where there are fewer
    /// than two values
    pub fn std_dev(&self, root: u64) -> (r: u64)
        ensures
            r == self.moment(2, root),
    {
        if self.count < 2 {
            return ZERO;
        }
        root
    }

    /// A moment that needs some values, and is zero where there are fewer.
    pub open spec fn moment(&self, needed: nat, value: u64) -> u64 {
        if self.count < needed {
            ZERO
        } else {
            value
        }
    }

    /// A moment over the deviation that needs some values: none where there are fewer, zero where
    /// there is no deviation.
    pub open spec fn standardized(&self, needed: nat, std_dev: u64, value: u64) -> Option<u64> {
        if self.count < needed {
            None
        } else if crate::doubles::same(std_dev, ZERO) {
            Some(ZERO)
        } else {
            Some(value)
        }
    }

    /// Calculate skewness, for the deviation and what the sum of cubes comes to
    pub fn skewness(&self, std_dev: u64, cubes: u64) -> (r: Option<u64>)
        ensures
            r == self.standardized(3, std_dev, cubes),
    {
        if self.count < 3 {
            return None;
        }
        if equal(std_dev, ZERO) {
            return Some(ZERO);
        }
        Some(cubes)
    }

    /// Calculate kurtosis, for the deviation and what the sum of fourth powers comes to
    pub fn kurtosis(&self, std_dev: u64, fourths: u64) -> (r: Option<u64>)
        ensures
            r == self.standardized(4, std_dev, fourths),
    {
        if self.count < 4 {
            return None;
        }
        if equal(std_dev, ZERO) {
            return Some(ZERO);
        }
        Some(fourths)
    }

    /// Get the latest value; zero where there is none
    pub fn latest(&self) -> (r: u64)
        requires
            self.inv(),
        ensures
            r == if self.count == 0 {
                0
            } else {
                self.elements()[0]
            },
    {
        if self.count == 0 {
            return 0;
        }
        let pos: usize = (self.write_pos - 1) % self.capacity;
        self.data[pos]
    }

    /// Get value at offset from latest (0 = latest, 1 = previous, etc.)
    pub fn get_offset(&self, offset: usize) -> (r: Option<u64>)
        requires
            self.inv(),
        ensures
            r == if offset >= self.count {
                None
            } else {
                Some(self.elements()[offset as int])
            },
    {
        if offset >= self.count {
            return None;
        }
        let pos: usize = (self.write_pos - 1 - offset) % self.capacity;
        Some(self.data[pos])
    }

    /// The elements, latest first
    pub fn values(&self) -> (r: Vec<u64>)
        requires
            self.inv(),
        ensures
            r@ == self.elements(),
    {
        let mut r: Vec<u64> = Vec::new();
        let mut i: usize = 0;
        while i < self.count
            invariant
                self.inv(),
                i <= self.count,
                r@ == self.elements().take(i as int),
            decreases self.count - i,
        {
            let pos: usize = (self.write_pos - 1 - i) % self.capacity;
            r.push(self.data[pos]);
            assert(r@ =~= self.elements().take(i + 1));
            i = i + 1;
        }
        assert(self.elements().take(i as int) =~= self.elements());
        r
    }

    /// Check if buffer is full
    pub fn is_full(&self) -> (r: bool)
        ensures
            r == (self.count >= self.capacity),
    {
        self.count >= self.capacity
    }

    /// Get current element count
    pub fn len(&self) -> (n: usize)
        ensures
            n == self.count,
    {
        self.count
    }

    /// Check if buffer is empty
    pub fn is_empty(&self) -> (r: bool)
        ensures
            r == (self.count == 0),
    {
        self.count == 0
    }

    /// Clear the buffer
    pub fn clear(&mut self)
        requires
            old(self).inv(),
        ensures
            final(self).inv(),
            *final(self) == (RingBuffer { write_pos: 0, count: 0, ..*old(self) }),
    {
        self.write_pos = 0;
        self.count = 0;
    }
}

/// The values that are positive.
pub open spec fn gains_of(values: Seq<u64>) -> Seq<u64> {
    values.filter(|v: u64| crate::doubles::greater(v, ZERO))
}

/// The values that are not positive.
pub open spec fn losses_of(values: Seq<u64>) -> Seq<u64> {
    values.filter(|v: u64| !crate::doubles::greater(v, ZERO))
}

/// The returns that the relative strength index is taken from
#[derive(Debug)]
pub struct RsiInputs {
    pub gains: Vec<u64>,
    pub losses: Vec<u64>,
}

/// Rolling window feature calculator
#[derive(Debug)]
pub struct RollingFeatures {
    /// Price ring buffer
    pub prices: RingBuffer,
    /// Volume ring buffer
    pub volumes: RingBuffer,
    /// Returns ring buffer (for momentum)
    pub returns: RingBuffer,
    /// Window size
    pub window_size: usize,
    /// Last calculated RSI
    pub rsi: u64,
    /// Last calculated MACD
    pub macd: u64,
    /// Last update timestamp
    pub last_update_ns: u64,
}

impl RollingFeatures {
    pub open spec fn inv(&self) -> bool {
        &&& self.prices.inv()
        &&& self.volumes.inv()
        &&& self.returns.inv()
        &&& self.prices.capacity == bounded(self.window_size)
        &&& self.volumes.capacity == bounded(self.window_size)
        &&& self.returns.capacity == bounded(self.window_size)
        &&& self.volumes.write_pos == self.prices.write_pos
        &&& self.returns.write_pos == self.prices.write_pos
        &&& self.volumes.count == self.prices.count
        &&& self.returns.count == self.prices.count
    }

    /// True of empty windows of a size.
    pub open spec fn is_fresh(&self, window_size: usize) -> bool {
        &&& self.inv()
        &&& self.window_size == window_size
        &&& self.prices.count == 0
        &&& self.prices.write_pos == 0
        &&& self.rsi == ZERO
        &&& self.macd == ZERO
        &&& self.last_update_ns == 0
    }

    /// True where the windows can take a tick.
    pub open spec fn can_update(&self) -> bool {
        &&& self.inv()
        &&& self.window_size > 0
        &&& self.prices.write_pos < usize::MAX
    }

    /// True where the windows are those of before with one tick more.
    pub open spec fn is_updated(
        &self,
        before: RollingFeatures,
        price: u64,
        volume: u64,
        change: u64,
        now_ns: u64,
    ) -> bool {
        &&& self.inv()
        &&& self.prices.elements() == after_push(before.prices, price)
        &&& self.volumes.elements() == after_push(before.volumes, volume)
        &&& self.returns.elements() == after_push(before.returns, before.return_of(change))
        &&& self.prices.write_pos == before.prices.write_pos + 1
        &&& self.window_size == before.window_size
        &&& self.rsi == before.rsi
        &&& self.macd == before.macd
        &&& self.last_update_ns == now_ns
    }

    /// The windows with indicators: the relative strength index where there are enough returns, the
    /// difference of averages where there are enough prices.
    pub open spec fn with_indicators(&self, rsi: u64, macd: u64) -> RollingFeatures {
        RollingFeatures {
            rsi: if self.returns.count >= RSI_PERIOD {
                rsi
            } else {
                self.rsi
            },
            macd: if self.prices.count >= MACD_PERIOD {
                macd
            } else {
                self.macd
            },
            ..*self
        }
    }

    /// Create new rolling features calculator
    pub fn new(window_size: usize) -> (f: Self)
        ensures
            f.is_fresh(window_size),
    {
        Self {
            prices: RingBuffer::new(window_size),
            volumes: RingBuffer::new(window_size),
            returns: RingBuffer::new(window_size),
            window_size,
            rsi: ZERO,
            macd: ZERO,
            last_update_ns: 0,
        }
    }

    /// The return of a price, for its change over the last price: zero where that is zero.
    pub open spec fn return_of(&self, change: u64) -> u64 {
        if crate::doubles::same(self.last_price(), ZERO) {
            ZERO
        } else {
            change
        }
    }

    /// The last price; zero where there is none.
    pub open spec fn last_price(&self) -> u64 {
        if self.prices.count == 0 {
            ZERO
        } else {
            self.prices.elements()[0]
        }
    }

    /// Update with new price and volume, and the change since the last price over that price
    pub fn update(&mut self, price: u64, volume: u64, change: u64, now_ns: u64)
        requires
            old(self).can_update(),
        ensures
            final(self).is_updated(*old(self), price, volume, change, now_ns),
    {
        let ret: u64 = if equal(self.prices.latest(), ZERO) {
            ZERO
        } else {
            change
        };
        let _ = self.prices.push(price);
        let _ = self.volumes.push(volume);
        let _ = self.returns.push(ret);
        self.last_update_ns = now_ns;
        proof {
            lemma_counts(old(self).prices, self.prices, price);
            lemma_counts(old(self).volumes, self.volumes, volume);
            lemma_counts(old(self).returns, self.returns, ret);
        }
    }

    /// The gains and the losses among the latest returns, the latest first; none where there are too
    /// few returns
    pub fn rsi_inputs(&self) -> (r: Option<RsiInputs>)
        requires
            self.inv(),
        ensures
            match r {
                Some(parts) => {
                    &&& self.returns.count >= RSI_PERIOD
                    &&& parts.gains@ == gains_of(self.returns.elements().take(RSI_PERIOD as int))
                    &&& parts.losses@ == losses_of(self.returns.elements().take(RSI_PERIOD as int))
                },
                None => self.returns.count < RSI_PERIOD,
            },
    {
        if self.returns.len() < RSI_PERIOD {
            return None;
        }
        let ghost all = self.returns.elements();
        let mut gains: Vec<u64> = Vec::new();
        let mut losses: Vec<u64> = Vec::new();
        let mut i: usize = 0;
        proof {
            assert(all.take(0) =~= Seq::<u64>::empty());
            reveal(Seq::filter);
        }
        while i < RSI_PERIOD
            invariant
                self.inv(),
                self.returns.count >= RSI_PERIOD,
                all == self.returns.elements(),
                i <= RSI_PERIOD,
                gains@ == gains_of(all.take(i as int)),
                losses@ == losses_of(all.take(i as int)),
            decreases RSI_PERIOD - i,
        {
            let found = self.returns.get_offset(i);
            if let Some(ret) = found {
                proof {
                    reveal(Seq::filter);
                    assert(all.take(i + 1).drop_last() =~= all.take(i as int));
                    assert(all.take(i + 1).last() == ret);
                }
                if above(ret, ZERO) {
                    gains.push(ret);
                } else {
                    losses.push(ret);
                }
            }
            i = i + 1;
        }
        Some(RsiInputs { gains, losses })
    }

    /// Relative strength, for the gains over the losses: a hundred where there are no losses
    pub fn relative_strength(losses: u64, ratio: u64) -> (r: u64)
        ensures
            r == if crate::doubles::same(losses, ZERO) {
                HUNDRED
            } else {
                ratio
            },
    {
        if equal(losses, ZERO) {
            HUNDRED
        } else {
            ratio
        }
    }

    /// The latest prices for an average over a period, the latest first; none where there are too
    /// few, where the latest price stands for the average
    pub fn ema_inputs(&self, period: usize) -> (r: Option<Vec<u64>>)
        requires
            self.inv(),
        ensures
            match r {
                Some(values) => self.prices.count >= period && values@
                    == self.prices.elements().take(period as int),
                None => self.prices.count < period,
            },
    {
        if self.prices.len() < period {
            return None;
        }
        let mut values: Vec<u64> = Vec::new();
        let mut i: usize = 0;
        while i < period
            invariant
                self.inv(),
                i <= period <= self.prices.count,
                values@ == self.prices.elements().take(i as int),
            decreases period - i,
        {
            if let Some(price) = self.prices.get_offset(i) {
                values.push(price);
                assert(values@ =~= self.prices.elements().take(i + 1));
            }
            i = i + 1;
        }
        Some(values)
    }

    /// Keeps the indicators that the windows give: the relative strength index where there are
    /// enough returns, the difference of averages where there are enough prices
    pub fn set_indicators(&mut self, rsi: u64, macd: u64)
        ensures
            *final(self) == old(self).with_indicators(rsi, macd),
    {
        if self.returns.len() >= RSI_PERIOD {
            self.rsi = rsi;
        }
        if self.prices.len() >= MACD_PERIOD {
            self.macd = macd;
        }
    }

    /// Get current RSI
    pub fn get_rsi(&self) -> (r: u64)
        ensures
            r == self.rsi,
    {
        self.rsi
    }

    /// Get current MACD
    pub fn get_macd(&self) -> (r: u64)
        ensures
            r == self.macd,
    {
        self.macd
    }

    /// Get current price
    pub fn get_price(&self) -> (r: u64)
        requires
            self.inv(),
        ensures
            r == self.last_price(),
    {
        self.prices.latest()
    }

    /// Get current volume
    pub fn get_volume(&self) -> (r: u64)
        requires
            self.inv(),
        ensures
            r == if self.volumes.count == 0 {
                ZERO
            } else {
                self.volumes.elements()[0]
            },
    {
        self.volumes.latest()
    }

    /// Get price volatility (std dev of returns), for the root of their variance
    pub fn get_volatility(&self, root: u64) -> (r: u64)
        ensures
            r == self.returns.moment(2, root),
    {
        self.returns.std_dev(root)
    }

    /// Get price momentum (mean of returns), for their sum over the count
    pub fn get_momentum(&self, quotient: u64) -> (r: u64)
        ensures
            r == self.returns.moment(1, quotient),
    {
        self.returns.mean(quotient)
    }

    /// The prices and volumes of the window, latest first
    pub fn vwap_terms(&self) -> (r: Vec<(u64, u64)>)
        requires
            self.inv(),
        ensures
            r@ == Seq::new(
                self.prices.count as nat,
                |i: int| (self.prices.elements()[i], self.volumes.elements()[i]),
            ),
    {
        let prices = self.prices.values();
        let volumes = self.volumes.values();
        let mut r: Vec<(u64, u64)> = Vec::new();
        let mut i: usize = 0;
        while i < prices.len()
            invariant
                i <= prices@.len(),
                volumes@.len() == prices@.len(),
                r@.len() == i,
                forall|j: int| 0 <= j < i ==> #[trigger] r@[j] == (prices@[j], volumes@[j]),
            decreases prices.len() - i,
        {
            r.push((prices[i], volumes[i]));
            i = i + 1;
        }
        assert(r@ =~= Seq::new(
            self.prices.count as nat,
            |i: int| (self.prices.elements()[i], self.volumes.elements()[i]),
        ));
        r
    }

    /// Get VWAP approximation, for the volume of the window and what it traded for over it: zero
    /// where nothing was traded
    pub fn get_vwap(&self, volume: u64, quotient: u64) -> (r: u64)
        ensures
            r == if self.prices.count == 0 || self.volumes.count == 0 || crate::doubles::same(
                volume,
                ZERO,
            ) {
                ZERO
            } else {
                quotient
            },
    {
        if self.prices.len() == 0 || self.volumes.len() == 0 || equal(volume, ZERO) {
            return ZERO;
        }
        quotient
    }

    /// Export all features as vector for ML; a moment that there are too few returns for counts as
    /// zero
    pub fn export_features(parts: ExportParts) -> (r: Vec<u32>)
        ensures
            r@ == parts.listed(),
    {
        let mut r: Vec<u32> = Vec::new();
        r.push(parts.rsi);
        r.push(parts.macd);
        r.push(parts.volatility);
        r.push(parts.momentum);
        r.push(parts.price_over_vwap);
        r.push(parts.mean_price);
        r.push(parts.price_deviation);
        r.push(parts.mean_volume);
        r.push(parts.skewness.unwrap_or(SINGLE_ZERO));
        r.push(parts.kurtosis.unwrap_or(SINGLE_ZERO));
        r
    }
}

/// The features of a symbol, as the bits of singles
#[derive(Debug, Clone, Copy, PartialEq, Eq)]
pub struct ExportParts {
    /// The relative strength index as a share
    pub rsi: u32,
    pub macd: u32,
    pub volatility: u32,
    pub momentum: u32,
    /// By how much the price exceeds the volume-weighted one, as a share of it
    pub price_over_vwap: u32,
    pub mean_price: u32,
    pub price_deviation: u32,
    pub mean_volume: u32,
    pub skewness: Option<u32>,
    pub kurtosis: Option<u32>,
}

impl ExportParts {
    /// The features one after the other; a moment that is missing counts as zero.
    pub open spec fn listed(&self) -> Seq<u32> {
        seq![
            self.rsi,
            self.macd,
            self.volatility,
            self.momentum,
            self.price_over_vwap,
            self.mean_price,
            self.price_deviation,
            self.mean_volume,
            self.skewness.unwrap_or(SINGLE_ZERO),
            self.kurtosis.unwrap_or(SINGLE_ZERO),
        ]
    }
}

/// The elements of a buffer after a push, latest first.
pub open spec fn after_push(buffer: RingBuffer, value: u64) -> Seq<u64> {
    seq![value] + if buffer.count < buffer.capacity {
        buffer.elements()
    } else {
        buffer.elements().drop_last()
    }
}

/// A push adds to the count until a buffer is full.
proof fn lemma_counts(before: RingBuffer, now: RingBuffer, value: u64)
    requires
        before.inv(),
        now.inv(),
        before.capacity > 0,
        now.elements() == after_push(before, value),
    ensures
        now.count == if before.count < before.capacity {
            before.count + 1
        } else {
            before.count as int
        },
{
    assert(now.elements().len() == now.count);
    assert(before.elements().len() == before.count);
}

/// A buffer keeps the newest values: a value is found until as many as fit have come after it.
pub proof fn law_newest_values_are_kept(buffer: RingBuffer, value: u64, offset: int)
    requires
        buffer.inv(),
        buffer.capacity > 0,
        0 <= offset,
        offset + 1 < after_push(buffer, value).len(),
    ensures
        after_push(buffer, value)[0] == value,
        after_push(buffer, value)[offset + 1] == buffer.elements()[offset],
        after_push(buffer, value).len() <= buffer.capacity,
{
}

/// The latest element stands in a slot of its own among as many as there are slots.
proof fn lemma_slots_differ(w: int, i: int, c: int)
    requires
        0 <= i < c,
        w >= 0,
    ensures
        0 <= (w - i) % c < c,
        i > 0 ==> (w - i) % c != w % c,
{
    assert(0 <= (w - i) % c < c) by (nonlinear_arith)
        requires
            c > 0,
    ;
    if i > 0 && (w - i) % c == w % c {
        vstd::arithmetic::div_mod::lemma_fundamental_div_mod(w, c);
        vstd::arithmetic::div_mod::lemma_fundamental_div_mod(w - i, c);
        let a = w / c;
        let b = (w - i) / c;
        assert(i == c * a - c * b);
        assert(i == c * (a - b)) by (nonlinear_arith)
            requires
                i == c * a - c * b,
        ;
        assert(false) by (nonlinear_arith)
            requires
                i == c * (a - b),
                0 < i < c,
        ;
    }
}

/// A tick comes first in the windows and moves what is there back by one place; what does not fit is
/// dropped. Its return is the change that it was given, or zero where there is no price before it.
pub proof fn law_tick_moves_the_windows(
    now: RollingFeatures,
    was: RollingFeatures,
    price: u64,
    volume: u64,
    change: u64,
    now_ns: u64,
    i: int,
)
    requires
        was.can_update(),
        now.is_updated(was, price, volume, change, now_ns),
        0 < i < now.prices.count,
    ensures
        now.prices.elements()[0] == price,
        now.volumes.elements()[0] == volume,
        now.prices.elements()[i] == was.prices.elements()[i - 1],
        now.volumes.elements()[i] == was.volumes.elements()[i - 1],
        now.returns.elements()[i] == was.returns.elements()[i - 1],
        crate::doubles::is_finite(was.prices.elements()[0]) ==> now.returns.elements()[0] == if crate::doubles::units(
            was.prices.elements()[0],
        ) == 0 {
            0
        } else {
            change
        },
        was.prices.count < 1024 && was.prices.count < was.window_size ==> now.prices.count
            == was.prices.count + 1,
        was.prices.count == 1024 || was.prices.count == was.window_size ==> now.prices.count
            == was.prices.count,
        now.last_update_ns == now_ns,
        now.rsi == was.rsi && now.macd == was.macd,
{
    assert(now.prices.elements().len() == now.prices.count);
    assert(now.volumes.elements().len() == now.volumes.count);
    assert(now.returns.elements().len() == now.returns.count);
    let p = was.prices.elements()[0];
    if crate::doubles::is_finite(p) {
        crate::doubles::law_values_are_ordered(p, ZERO);
        crate::doubles::law_values_are_ordered(ZERO, p);
    }
    lemma_counts(was.prices, now.prices, price);
}

/// The first tick of a window has a return of zero.
pub proof fn law_first_return_is_zero(
    now: RollingFeatures,
    was: RollingFeatures,
    price: u64,
    volume: u64,
    change: u64,
    now_ns: u64,
)
    requires
        was.can_update(),
        was.prices.count == 0,
        now.is_updated(was, price, volume, change, now_ns),
    ensures
        now.prices.elements() == seq![price],
        now.volumes.elements() == seq![volume],
        now.returns.elements() == seq![0u64],
{
    assert(now.prices.elements() =~= seq![price]);
    assert(now.volumes.elements() =~= seq![volume]);
    assert(now.returns.elements() =~= seq![0u64]);
}

/// The relative strength is set from fourteen returns on and the moving averages from twenty-six
/// prices on; nothing else changes.
pub proof fn law_indicators_wait_for_their_prices(f: RollingFeatures, rsi: u64, macd: u64)
    ensures
        f.returns.count >= 14 ==> f.with_indicators(rsi, macd).rsi == rsi,
        f.returns.count < 14 ==> f.with_indicators(rsi, macd).rsi == f.rsi,
        f.prices.count >= 26 ==> f.with_indicators(rsi, macd).macd == macd,
        f.prices.count < 26 ==> f.with_indicators(rsi, macd).macd == f.macd,
        f.with_indicators(rsi, macd).prices == f.prices,
        f.with_indicators(rsi, macd).volumes == f.volumes,
        f.with_indicators(rsi, macd).returns == f.returns,
        f.with_indicators(rsi, macd).window_size == f.window_size,
        f.with_indicators(rsi, macd).last_update_ns == f.last_update_ns,
{
}

/// A moment that there are too few values for is zero, or missing where it is a standardized one; a
/// standardized one of values that do not deviate is zero.
pub proof fn law_moments_need_values(b: RingBuffer, needed: nat, std_dev: u64, value: u64)
    requires
        crate::doubles::is_finite(std_dev),
    ensures
        b.count >= needed ==> b.moment(needed, value) == value,
        b.count < needed ==> b.moment(needed, value) == 0,
        b.standardized(needed, std_dev, value) is Some <==> b.count >= needed,
        b.count >= needed && crate::doubles::units(std_dev) == 0 ==> b.standardized(
            needed,
            std_dev,
            value,
        ) == Some(0u64),
        b.count >= needed && crate::doubles::units(std_dev) != 0 ==> b.standardized(
            needed,
            std_dev,
            value,
        ) == Some(value),
{
    crate::doubles::law_values_are_ordered(std_dev, ZERO);
    crate::doubles::law_values_are_ordered(ZERO, std_dev);
}

/// Among finite values the least is one of them and none is below it; the greatest is one of them and
/// none is above it.
pub proof fn law_extremes_bound_the_window(values: Seq<u64>, least: u64, greatest: u64)
    requires
        values.len() > 0,
        forall|i: int| 0 <= i < values.len() ==> crate::doubles::is_finite(#[trigger] values[i]),
        is_least(least, values),
        is_greatest(greatest, values),
    ensures
        values.contains(least),
        values.contains(greatest),
        forall|i: int|
            0 <= i < values.len() ==> crate::doubles::units(least) <= crate::doubles::units(
                #[trigger] values[i],
            ) <= crate::doubles::units(greatest),
{
    assert(crate::doubles::is_finite(values[0]));
    crate::doubles::law_infinity_is_above_all(values[0]);
    assert(values.contains(least));
    assert(values.contains(greatest));
    let a = choose|k: int| 0 <= k < values.len() && values[k] == least;
    let b = choose|k: int| 0 <= k < values.len() && values[k] == greatest;
    assert(crate::doubles::is_finite(values[a]) && crate::doubles::is_finite(values[b]));
    assert forall|i: int| 0 <= i < values.len() implies crate::doubles::units(least)
        <= crate::doubles::units(#[trigger] values[i]) <= crate::doubles::units(greatest) by {
        assert(crate::doubles::is_finite(values[i]));
        crate::doubles::law_values_are_ordered(values[i], least);
        crate::doubles::law_values_are_ordered(greatest, values[i]);
    }
}

/// Each return is a gain or a loss: a gain where it is above zero. Both keep the order of the returns.
pub proof fn law_returns_are_gains_or_losses(values: Seq<u64>, value: u64)
    requires
        crate::doubles::is_finite(value),
    ensures
        gains_of(values.push(value)) == if crate::doubles::units(value) > 0 {
            gains_of(values).push(value)
        } else {
            gains_of(values)
        },
        losses_of(values.push(value)) == if crate::doubles::units(value) > 0 {
            losses_of(values)
        } else {
            losses_of(values).push(value)
        },
        gains_of(Seq::empty()) == Seq::<u64>::empty(),
        losses_of(Seq::empty()) == Seq::<u64>::empty(),
{
    reveal(Seq::filter);
    crate::doubles::law_values_are_ordered(value, ZERO);
    assert(values.push(value).drop_last() =~= values);
    assert(values.push(value).last() == value);
}

/// The places of the exported features, ten in all.
pub proof fn law_features_have_their_places(p: ExportParts)
    ensures
        p.listed().len() == 10,
        p.listed()[0] == p.rsi,
        p.listed()[1] == p.macd,
        p.listed()[2] == p.volatility,
        p.listed()[3] == p.momentum,
        p.listed()[4] == p.price_over_vwap,
        p.listed()[5] == p.mean_price,
        p.listed()[6] == p.price_deviation,
        p.listed()[7] == p.mean_volume,
        p.skewness is Some ==> p.listed()[8] == p.skewness->0,
        p.skewness is None ==> p.listed()[8] == 0,
        p.kurtosis is Some ==> p.listed()[9] == p.kurtosis->0,
        p.kurtosis is None ==> p.listed()[9] == 0,
{
}

/// Returns without losses have a relative strength of a hundred; windows hold no more than 1024
/// values.
pub proof fn law_window_constants(capacity: usize)
    ensures
        crate::doubles::units(HUNDRED) == 100 * crate::doubles::units(crate::doubles::ONE_BITS),
        bounded(capacity) <= capacity,
        bounded(capacity) <= 1024,
        bounded(capacity) == capacity || bounded(capacity) == 1024,
{
    crate::doubles::lemma_units_at(HUNDRED, 1029, 0x9_0000_0000_0000);
    crate::doubles::lemma_units_at(crate::doubles::ONE_BITS, 1023, 0);
    vstd::arithmetic::power2::lemma_pow2_unfold(1023);
    vstd::arithmetic::power2::lemma_pow2_unfold(1024);
    vstd::arithmetic::power2::lemma_pow2_unfold(1025);
    vstd::arithmetic::power2::lemma_pow2_unfold(1026);
    vstd::arithmetic::power2::lemma_pow2_unfold(1027);
    vstd::arithmetic::power2::lemma_pow2_unfold(1028);
}

} // verus!
