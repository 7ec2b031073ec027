//! Past values of a series, by their lag.
use vstd::prelude::*;

verus! {

/// Circular buffer of the last values of a series; zeros stand for what has not come yet
#[derive(Debug)]
pub struct LagBuffer {
    pub values: Vec<u64>,
    /// Where the next value goes
    pub next: usize,
}

/// Where the value of a lag stands, for a lag of one more than `k`.
pub open spec fn slot(len: int, next: int, k: int) -> int {
    if k < next {
        next - 1 - k
    } else {
        len + next - 1 - k
    }
}

impl View for LagBuffer {
    type V = Seq<u64>;

    /// The values, the last one first.
    open spec fn view(&self) -> Seq<u64> {
        Seq::new(
            self.values@.len(),
            |k: int| self.values@[slot(self.values@.len() as int, self.next as int, k)],
        )
    }
}

/// So many zeros.
pub open spec fn zeros(n: nat) -> Seq<u64> {
    Seq::new(n, |i: int| 0u64)
}

/// A vector of zeros
pub fn zero_vec(n: usize) -> (r: Vec<u64>)
    ensures
        r@ == zeros(n as nat),
{
    let mut r: Vec<u64> = Vec::new();
    let mut i: usize = 0;
    while i < n
        invariant
            i <= n,
            r@ == zeros(i as nat),
        decreases n - i,
    {
        r.push(0);
        i = i + 1;
        assert(r@ =~= zeros(i as nat));
    }
    r
}

impl LagBuffer {
    pub open spec fn inv(&self) -> bool {
        self.next < self.values@.len()
    }

    pub fn new(size: usize) -> (b: Self)
        requires
            size > 0,
        ensures
            b.inv(),
            b@ == zeros(size as nat),
    {
        let b = Self { values: zero_vec(size), next: 0 };
        assert(b@ =~= zeros(size as nat));
        b
    }

    /// How many values are kept
    pub fn len(&self) -> (n: usize)
        ensures
            n == self@.len(),
    {
        self.values.len()
    }

    /// Adds a value; the oldest leaves
    pub fn push(&mut self, value: u64)
        requires
            old(self).inv(),
        ensures
            final(self).inv(),
            final(self)@ == seq![value] + old(self)@.drop_last(),
    {
        self.values.set(self.next, value);
        if self.next < self.values.len() - 1 {
            self.next = self.next + 1;
        } else {
            self.next = 0;
        }
        assert(self@ =~= seq![value] + old(self)@.drop_last());
    }

    /// The value of a lag; a lag of one is the last value
    pub fn at_lag(&self, lag: usize) -> (v: u64)
        requires
            self.inv(),
            1 <= lag <= self@.len(),
        ensures
            v == self@[lag - 1],
    {
        if lag <= self.next {
            self.values[self.next - lag]
        } else {
            self.values[self.values.len() - (lag - self.next)]
        }
    }

    /// The last values, the last one first
    pub fn recent(&self, count: usize) -> (r: Vec<u64>)
        requires
            self.inv(),
            count <= self@.len(),
        ensures
            r@ == self@.take(count as int),
    {
        let mut r: Vec<u64> = Vec::new();
        let mut i: usize = 0;
        while i < count
            invariant
                self.inv(),
                i <= count <= self@.len(),
                r@ == self@.take(i as int),
            decreases count - i,
        {
            r.push(self.at_lag(i + 1));
            i = i + 1;
            assert(r@ =~= self@.take(i as int));
        }
        r
    }

    /// Forgets every value
    pub fn clear(&mut self)
        requires
            old(self).inv(),
        ensures
            final(self).inv(),
            final(self)@ == zeros(old(self)@.len()),
    {
        let n: usize = self.values.len();
        self.values = zero_vec(n);
        assert(self@ =~= zeros(old(self)@.len()));
    }
}

/// Where a forecast takes the value of a lag from
#[derive(Debug, Clone, Copy, PartialEq, Eq, Structural)]
pub enum LagSource {
    /// An earlier forecast, by its place
    Forecast(usize),
    /// The series, by its lag
    Past(usize),
}

/// Where a forecast so many steps ahead takes the value of a lag from: forecasts cover the steps
/// before it, and the series what came before them.
pub open spec fn source_of(step: int, lag: int) -> LagSource {
    if lag < step {
        LagSource::Forecast((step - lag - 1) as usize)
    } else {
        LagSource::Past((lag - step + 1) as usize)
    }
}

/// Where a forecast so many steps ahead takes the value of a lag from
pub fn lag_source(step: usize, lag: usize) -> (s: LagSource)
    requires
        1 <= step,
        1 <= lag,
    ensures
        s == source_of(step as int, lag as int),
{
    if lag < step {
        LagSource::Forecast(step - lag - 1)
    } else {
        LagSource::Past(lag - step + 1)
    }
}

/// A value pushed so many steps ago is the value of that lag, until the buffer has turned over.
pub proof fn law_lags_are_shifted(before: Seq<u64>, value: u64, lag: int)
    requires
        before.len() > 0,
        1 <= lag <= before.len(),
    ensures
        (seq![value] + before.drop_last())[0] == value,
        lag < before.len() ==> (seq![value] + before.drop_last())[lag] == before[lag - 1],
        (seq![value] + before.drop_last()).len() == before.len(),
{
}

/// A forecast only ever uses forecasts that were made before it.
pub proof fn law_forecast_uses_earlier_ones(step: usize, lag: usize)
    requires
        1 <= step,
        1 <= lag,
    ensures
        match source_of(step as int, lag as int) {
            LagSource::Forecast(i) => i < step - 1 && i + 1 + lag == step,
            LagSource::Past(l) => 1 <= l <= lag && l + step == lag + 1,
        },
{
}

} // verus!
