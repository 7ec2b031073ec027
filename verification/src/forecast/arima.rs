//! The state of an ARFIMA model.
use crate::doubles::{above, at_least, larger, smaller, HALF_BITS, ONE_BITS, ZERO};
use crate::forecast::arma::{one_at_least, EXTRA_LAGS};
use crate::forecast::lags::{zero_vec, LagBuffer};
use vstd::prelude::*;

verus! {

/// The longest lag of fractional differencing.
pub const MAX_LAG: usize = 2048;

/// The most values that an order of differencing is estimated from.
pub const ESTIMATE_LIMIT: usize = 500;

/// The bits of infinity, in double precision.
pub const INFINITY_BITS: u64 = 0x7ff0_0000_0000_0000;

/// ARFIMA(p, d, q) model with fractional integration
#[derive(Debug)]
pub struct ARFIMA {
    /// AR order
    pub ar_order: usize,
    /// Fractional integration order (d)
    pub diff_order: u64,
    /// MA order
    pub ma_order: usize,
    /// AR coefficients
    pub ar_coeffs: Vec<u64>,
    /// MA coefficients
    pub ma_coeffs: Vec<u64>,
    /// Past values (for fractional differencing)
    pub y_buffer: LagBuffer,
    /// How many of them have come
    pub y_buffer_len: usize,
    /// Past values of the differenced series
    pub diff_buffer: LagBuffer,
    /// Past residuals for the MA component
    pub residual_buffer: LagBuffer,
    /// Maximum lag for fractional differencing approximation
    pub max_diff_lag: usize,
    /// Number of observations processed
    pub n_obs: u64,
    /// Last value for differencing
    pub last_y: u64,
}

impl ARFIMA {
    pub open spec fn inv(&self) -> bool {
        &&& self.y_buffer.inv()
        &&& self.diff_buffer.inv()
        &&& self.residual_buffer.inv()
        &&& self.max_diff_lag <= MAX_LAG
        &&& self.y_buffer@.len() == self.max_diff_lag + EXTRA_LAGS
        &&& self.y_buffer_len <= self.y_buffer@.len()
        &&& self.diff_buffer@.len() == crate::forecast::arma::at_least_one(self.ar_order)
            + crate::forecast::arma::at_least_one(self.ma_order) + EXTRA_LAGS
        &&& self.residual_buffer@.len() == crate::forecast::arma::at_least_one(self.ma_order)
            + EXTRA_LAGS
        &&& self.ar_coeffs@.len() == crate::forecast::arma::at_least_one(self.ar_order)
        &&& self.ma_coeffs@.len() == crate::forecast::arma::at_least_one(self.ma_order)
    }

    /// True of a model that has seen nothing.
    pub open spec fn is_blank(&self) -> bool {
        &&& self.y_buffer@ == crate::forecast::lags::zeros(self.y_buffer@.len())
        &&& self.diff_buffer@ == crate::forecast::lags::zeros(self.diff_buffer@.len())
        &&& self.residual_buffer@ == crate::forecast::lags::zeros(self.residual_buffer@.len())
        &&& self.ar_coeffs@ == crate::forecast::lags::zeros(self.ar_coeffs@.len())
        &&& self.ma_coeffs@ == crate::forecast::lags::zeros(self.ma_coeffs@.len())
        &&& self.y_buffer_len == 0
        &&& self.n_obs == 0
        &&& self.last_y == 0
    }

    /// Create a new ARFIMA(p, d, q) model; the longest lag is cut to what is kept at most
    pub fn new(ar_order: usize, diff_order: u64, ma_order: usize, max_diff_lag: usize) -> (m: Self)
        requires
            ar_order + ma_order + EXTRA_LAGS + 2 <= usize::MAX,
        ensures
            m.inv(),
            m.is_blank(),
            m.ar_order == ar_order,
            m.diff_order == diff_order,
            m.ma_order == ma_order,
            m.max_diff_lag == if max_diff_lag < MAX_LAG {
                max_diff_lag
            } else {
                MAX_LAG
            },
    {
        let p: usize = one_at_least(ar_order);
        let q: usize = one_at_least(ma_order);
        let longest: usize = if max_diff_lag < MAX_LAG {
            max_diff_lag
        } else {
            MAX_LAG
        };
        Self {
            ar_order,
            diff_order,
            ma_order,
            ar_coeffs: zero_vec(p),
            ma_coeffs: zero_vec(q),
            y_buffer: LagBuffer::new(longest + EXTRA_LAGS),
            y_buffer_len: 0,
            diff_buffer: LagBuffer::new(p + q + EXTRA_LAGS),
            residual_buffer: LagBuffer::new(q + EXTRA_LAGS),
            max_diff_lag: longest,
            n_obs: 0,
            last_y: 0,
        }
    }

    /// How many past values fractional differencing adds up: one fewer than there are, up to the
    /// longest lag.
    pub open spec fn difference_terms(&self) -> int {
        let available = if self.y_buffer_len < self.max_diff_lag {
            self.y_buffer_len as int
        } else {
            self.max_diff_lag as int
        };
        if available == 0 {
            0
        } else {
            available - 1
        }
    }

    /// The past values that fractional differencing adds up, the last one first
    pub fn past_values(&self) -> (r: Vec<u64>)
        requires
            self.inv(),
        ensures
            r@ == self.y_buffer@.take(self.difference_terms()),
    {
        let available: usize = if self.y_buffer_len < self.max_diff_lag {
            self.y_buffer_len
        } else {
            self.max_diff_lag
        };
        if available == 0 {
            self.y_buffer.recent(0)
        } else {
            self.y_buffer.recent(available - 1)
        }
    }

    /// Takes a new observation and what differencing makes of it
    pub fn observe(&mut self, y_t: u64, y_diff: u64)
        requires
            old(self).inv(),
        ensures
            final(self).inv(),
            final(self).y_buffer@ == seq![y_t] + old(self).y_buffer@.drop_last(),
            final(self).y_buffer_len == if old(self).y_buffer_len < old(self).y_buffer@.len() {
                old(self).y_buffer_len + 1
            } else {
                old(self).y_buffer_len as int
            },
            final(self).diff_buffer@ == seq![y_diff] + old(self).diff_buffer@.drop_last(),
            final(self).last_y == y_t,
            final(self).residual_buffer == old(self).residual_buffer,
            final(self).ar_coeffs == old(self).ar_coeffs,
            final(self).ma_coeffs == old(self).ma_coeffs,
            final(self).n_obs == old(self).n_obs,
            final(self).ar_order == old(self).ar_order,
            final(self).ma_order == old(self).ma_order,
            final(self).diff_order == old(self).diff_order,
            final(self).max_diff_lag == old(self).max_diff_lag,
    {
        self.y_buffer.push(y_t);
        if self.y_buffer_len < self.y_buffer.len() {
            self.y_buffer_len = self.y_buffer_len + 1;
        }
        self.diff_buffer.push(y_diff);
        self.last_y = y_t;
    }

    /// What the AR component is applied to, the last value first
    pub fn ar_inputs(&self) -> (r: Vec<u64>)
        requires
            self.inv(),
        ensures
            r@ == self.diff_buffer@.take(self.ar_order as int),
    {
        self.diff_buffer.recent(self.ar_order)
    }

    /// What the MA component is applied to, the last residual first
    pub fn ma_inputs(&self) -> (r: Vec<u64>)
        requires
            self.inv(),
        ensures
            r@ == self.residual_buffer@.take(self.ma_order as int),
    {
        self.residual_buffer.recent(self.ma_order)
    }

    /// Takes the prediction error of an observation
    pub fn record_error(&mut self, error: u64)
        requires
            old(self).inv(),
        ensures
            final(self).inv(),
            final(self).residual_buffer@ == seq![error] + old(self).residual_buffer@.drop_last(),
            *final(self) == (ARFIMA {
                residual_buffer: final(self).residual_buffer,
                ..*old(self)
            }),
    {
        self.residual_buffer.push(error);
    }

    /// Keeps what the coefficients have become, which ends an observation
    pub fn learn(&mut self, ar_coeffs: Vec<u64>, ma_coeffs: Vec<u64>)
        requires
            old(self).inv(),
            ar_coeffs@.len() == old(self).ar_coeffs@.len(),
            ma_coeffs@.len() == old(self).ma_coeffs@.len(),
        ensures
            final(self).inv(),
            *final(self) == (ARFIMA {
                ar_coeffs,
                ma_coeffs,
                n_obs: old(self).n_obs.wrapping_add(1),
                ..*old(self)
            }),
    {
        self.ar_coeffs = ar_coeffs;
        self.ma_coeffs = ma_coeffs;
        self.n_obs = self.n_obs.wrapping_add(1);
    }

    /// Get the fractional differencing parameter
    pub fn diff_order(&self) -> (d: u64)
        ensures
            d == self.diff_order,
    {
        self.diff_order
    }

    /// Set the fractional differencing parameter
    pub fn set_diff_order(&mut self, d: u64)
        ensures
            *final(self) == (ARFIMA { diff_order: d, ..*old(self) }),
    {
        self.diff_order = d;
    }

    /// Get AR coefficients
    pub fn ar_coefficients(&self) -> (r: &[u64])
        ensures
            r@ == self.ar_coeffs@,
    {
        self.ar_coeffs.as_slice()
    }

    /// Get MA coefficients
    pub fn ma_coefficients(&self) -> (r: &[u64])
        ensures
            r@ == self.ma_coeffs@,
    {
        self.ma_coeffs.as_slice()
    }

    /// Check if series exhibits long memory (0 < d < 0.5)
    pub fn has_long_memory(&self) -> (r: bool)
        ensures
            r == (crate::doubles::greater(self.diff_order, ZERO) && crate::doubles::greater(
                HALF_BITS,
                self.diff_order,
            )),
    {
        above(self.diff_order, ZERO) && above(HALF_BITS, self.diff_order)
    }

    /// The Hurst exponent, from the order of differencing plus a half: that between zero and one
    pub fn hurst_exponent(order_and_half: u64) -> (h: u64)
        ensures
            h == crate::doubles::max_of(crate::doubles::min_of(order_and_half, ONE_BITS), ZERO),
    {
        larger(smaller(order_and_half, ONE_BITS), ZERO)
    }

    /// True where AR coefficients whose sizes sum up to this have to be scaled down for the process
    /// to be stationary
    pub fn needs_scaling(&self, sum_of_sizes: u64) -> (r: bool)
        ensures
            r == (self.ar_order > 0 && crate::doubles::no_less(sum_of_sizes, ONE_BITS)),
    {
        self.ar_order > 0 && at_least(sum_of_sizes, ONE_BITS)
    }

    /// Get number of observations processed
    pub fn observation_count(&self) -> (n: u64)
        ensures
            n == self.n_obs,
    {
        self.n_obs
    }

    /// Get current stationary (differenced) value
    pub fn current_differenced(&self) -> (d: u64)
        requires
            self.inv(),
        ensures
            d == self.diff_buffer@[0],
    {
        self.diff_buffer.at_lag(1)
    }

    /// Reset model state
    pub fn reset(&mut self)
        requires
            old(self).inv(),
        ensures
            final(self).inv(),
            final(self).is_blank(),
            final(self).ar_order == old(self).ar_order,
            final(self).ma_order == old(self).ma_order,
            final(self).diff_order == old(self).diff_order,
            final(self).max_diff_lag == old(self).max_diff_lag,
    {
        self.y_buffer.clear();
        self.y_buffer_len = 0;
        self.diff_buffer.clear();
        self.residual_buffer.clear();
        self.ar_coeffs = zero_vec(self.ar_coeffs.len());
        self.ma_coeffs = zero_vec(self.ma_coeffs.len());
        self.n_obs = 0;
        self.last_y = 0;
    }

    /// How many values an order of differencing is estimated from, none where too few have come
    pub fn estimate_size(&self) -> (r: Option<usize>)
        ensures
            r == if self.y_buffer_len < self.max_diff_lag {
                None
            } else if self.y_buffer_len < ESTIMATE_LIMIT {
                Some(self.y_buffer_len)
            } else {
                Some(ESTIMATE_LIMIT)
            },
    {
        if self.y_buffer_len < self.max_diff_lag {
            None
        } else if self.y_buffer_len < ESTIMATE_LIMIT {
            Some(self.y_buffer_len)
        } else {
            Some(ESTIMATE_LIMIT)
        }
    }

    /// Which of some candidates has the smallest variance, the first where several have; none where
    /// no variance is finite
    ///
    /// Variances are doubles that are not negative, whose bits order as they do.
    pub fn best_candidate(variances: &[u64]) -> (r: Option<usize>)
        ensures
            match r {
                Some(b) => {
                    &&& b < variances@.len()
                    &&& variances@[b as int] < INFINITY_BITS
                    &&& forall|i: int|
                        0 <= i < variances@.len() ==> variances@[b as int]
                            <= #[trigger] variances@[i]
                    &&& forall|i: int|
                        0 <= i < b ==> variances@[b as int] < #[trigger] variances@[i]
                },
                None => forall|i: int|
                    0 <= i < variances@.len() ==> #[trigger] variances@[i] >= INFINITY_BITS,
            },
    {
        let mut best: Option<usize> = None;
        let mut least: u64 = INFINITY_BITS;
        let mut i: usize = 0;
        while i < variances.len()
            invariant
                i <= variances@.len(),
                match best {
                    Some(b) => {
                        &&& b < i
                        &&& least == variances@[b as int]
                        &&& least < INFINITY_BITS
                        &&& forall|j: int| 0 <= j < i ==> least <= #[trigger] variances@[j]
                        &&& forall|j: int| 0 <= j < b ==> least < #[trigger] variances@[j]
                    },
                    None => least == INFINITY_BITS && forall|j: int|
                        0 <= j < i ==> #[trigger] variances@[j] >= INFINITY_BITS,
                },
            decreases variances.len() - i,
        {
            if variances[i] < least {
                least = variances[i];
                best = Some(i);
            }
            i = i + 1;
        }
        best
    }
}

/// Differencing adds up one term less than there are values, and less than the longest lag.
pub proof fn law_differencing_uses_what_is_there(m: ARFIMA)
    ensures
        m.y_buffer_len == 0 || m.max_diff_lag == 0 ==> m.difference_terms() == 0,
        m.y_buffer_len > 0 && m.max_diff_lag > 0 ==> {
            &&& m.difference_terms() < m.y_buffer_len
            &&& m.difference_terms() < m.max_diff_lag
            &&& m.difference_terms() + 1 == m.y_buffer_len || m.difference_terms() + 1
                == m.max_diff_lag
        },
{
}

} // verus!
