//! The state of an online ARMA model.
use crate::doubles::{above, larger, magnitude, negated, smaller, ZERO};
use crate::forecast::lags::{zero_vec, LagBuffer};
use vstd::prelude::*;

verus! {

/// Past values that are kept beyond the order of a model.
pub const EXTRA_LAGS: usize = 10;

/// The bits of 1e-10, under which a value is about zero.
pub const VANISHING_BITS: u64 = 0x3ddb_7cdf_d9d7_bdbb;

/// The bits of one hundred-millionth, the least denominator of a gain.
pub const REGULARIZATION: u64 = 0x3e45_798e_e230_8c3a;

/// The bits of 0.9, the least forgetting factor.
pub const MIN_LAMBDA_BITS: u64 = 0x3fec_cccc_cccc_cccd;

/// The bits of 1, the largest forgetting factor.
pub const MAX_LAMBDA_BITS: u64 = 0x3ff0_0000_0000_0000;

/// Observations before which a model has not converged.
pub const CONVERGENCE_MINIMUM: u64 = 100;

/// ARMA(p, q) model state for online learning
#[derive(Debug)]
pub struct OnlineARMA {
    /// AR order (p)
    pub ar_order: usize,
    /// MA order (q)
    pub ma_order: usize,
    /// AR coefficients [phi_1, phi_2, ..., phi_p]
    pub ar_coeffs: Vec<u64>,
    /// MA coefficients [theta_1, theta_2, ..., theta_q]
    pub ma_coeffs: Vec<u64>,
    /// Past values (y_t)
    pub y_buffer: LagBuffer,
    /// Past residuals (epsilon_t)
    pub epsilon_buffer: LagBuffer,
    /// Combined parameter vector [phi_1..phi_p, theta_1..theta_q]
    pub params: Vec<u64>,
    /// Forgetting factor (0.9 to 1)
    pub lambda: u64,
    /// Last prediction error
    pub last_error: u64,
    /// Number of observations processed
    pub n_obs: u64,
}

/// The order of a part, one at least.
pub open spec fn at_least_one(order: usize) -> usize {
    if order == 0 {
        1
    } else {
        order
    }
}

/// The larger of an order and one
pub fn one_at_least(order: usize) -> (r: usize)
    ensures
        r == at_least_one(order),
{
    if order == 0 {
        1
    } else {
        order
    }
}

impl OnlineARMA {
    pub open spec fn inv(&self) -> bool {
        &&& self.ar_order + self.ma_order <= usize::MAX
        &&& self.y_buffer.inv()
        &&& self.epsilon_buffer.inv()
        &&& self.y_buffer@.len() == at_least_one(self.ar_order) + EXTRA_LAGS
        &&& self.epsilon_buffer@.len() == at_least_one(self.ma_order) + EXTRA_LAGS
        &&& self.ar_coeffs@.len() == at_least_one(self.ar_order)
        &&& self.ma_coeffs@.len() == at_least_one(self.ma_order)
        &&& self.params@.len() == at_least_one((self.ar_order + self.ma_order) as usize)
    }

    /// True of a model that has learnt nothing.
    pub open spec fn is_blank(&self) -> bool {
        &&& self.y_buffer@ == crate::forecast::lags::zeros(self.y_buffer@.len())
        &&& self.epsilon_buffer@ == crate::forecast::lags::zeros(self.epsilon_buffer@.len())
        &&& self.ar_coeffs@ == crate::forecast::lags::zeros(self.ar_coeffs@.len())
        &&& self.ma_coeffs@ == crate::forecast::lags::zeros(self.ma_coeffs@.len())
        &&& self.params@ == crate::forecast::lags::zeros(self.params@.len())
        &&& self.last_error == 0
        &&& self.n_obs == 0
    }

    /// Create a new online ARMA(p, q) model
    pub fn new(ar_order: usize, ma_order: usize, lambda: u64) -> (m: Self)
        requires
            ar_order + ma_order + EXTRA_LAGS + 1 <= usize::MAX,
        ensures
            m.inv(),
            m.is_blank(),
            m.ar_order == ar_order,
            m.ma_order == ma_order,
            m.lambda == crate::doubles::min_of(
                crate::doubles::max_of(lambda, MIN_LAMBDA_BITS),
                MAX_LAMBDA_BITS,
            ),
    {
        let p: usize = one_at_least(ar_order);
        let q: usize = one_at_least(ma_order);
        Self {
            ar_order,
            ma_order,
            ar_coeffs: zero_vec(p),
            ma_coeffs: zero_vec(q),
            y_buffer: LagBuffer::new(p + EXTRA_LAGS),
            epsilon_buffer: LagBuffer::new(q + EXTRA_LAGS),
            params: zero_vec(one_at_least(ar_order + ma_order)),
            lambda: smaller(larger(lambda, MIN_LAMBDA_BITS), MAX_LAMBDA_BITS),
            last_error: 0,
            n_obs: 0,
        }
    }

    /// The regressor: the last values, negated, and the last residuals.
    pub open spec fn regressor(&self) -> Seq<u64> {
        Seq::new(self.ar_order as nat, |i: int| crate::doubles::negative(self.y_buffer@[i]))
            + self.epsilon_buffer@.take(self.ma_order as int)
    }

    /// Build the regressor vector for current time step
    pub fn build_regressor(&self) -> (phi: Vec<u64>)
        requires
            self.inv(),
        ensures
            phi@ == self.regressor(),
    {
        let mut phi: Vec<u64> = Vec::new();
        let mut i: usize = 0;
        while i < self.ar_order
            invariant
                self.inv(),
                i <= self.ar_order,
                phi@ == Seq::new(i as nat, |k: int| crate::doubles::negative(self.y_buffer@[k])),
            decreases self.ar_order - i,
        {
            let y: u64 = self.y_buffer.at_lag(i + 1);
            phi.push(negated(y));
            i = i + 1;
            assert(phi@ =~= Seq::new(i as nat, |k: int| crate::doubles::negative(self.y_buffer@[k])));
        }
        let ghost first = phi@;
        let mut k: usize = 0;
        assert(phi@ =~= first + self.epsilon_buffer@.take(0));
        while k < self.ma_order
            invariant
                self.inv(),
                k <= self.ma_order,
                phi@ == first + self.epsilon_buffer@.take(k as int),
            decreases self.ma_order - k,
        {
            phi.push(self.epsilon_buffer.at_lag(k + 1));
            k = k + 1;
            assert(phi@ =~= first + self.epsilon_buffer@.take(k as int));
        }
        phi
    }

    /// True once there are more observations than parameters, from when on a model learns
    pub fn learns(&self) -> (r: bool)
        requires
            self.inv(),
        ensures
            r == (self.n_obs > self.ar_order + self.ma_order),
    {
        self.n_obs > (self.ar_order + self.ma_order) as u64
    }

    /// Keeps what the parameters have become, and the coefficients that are parts of them
    pub fn store_params(&mut self, params: Vec<u64>)
        requires
            old(self).inv(),
            params@.len() == old(self).params@.len(),
        ensures
            final(self).inv(),
            final(self).params@ == params@,
            final(self).ar_coeffs@ == if old(self).ar_order == 0 {
                old(self).ar_coeffs@
            } else {
                params@.take(old(self).ar_order as int)
            },
            final(self).ma_coeffs@ == if old(self).ma_order == 0 {
                old(self).ma_coeffs@
            } else {
                params@.skip(old(self).ar_order as int)
            },
            final(self).ar_order == old(self).ar_order,
            final(self).ma_order == old(self).ma_order,
            final(self).y_buffer == old(self).y_buffer,
            final(self).epsilon_buffer == old(self).epsilon_buffer,
            final(self).last_error == old(self).last_error,
            final(self).n_obs == old(self).n_obs,
            final(self).lambda == old(self).lambda,
    {
        let p: usize = self.ar_order;
        let q: usize = self.ma_order;
        let mut i: usize = 0;
        while i < p
            invariant
                i <= p,
                p == self.ar_order,
                q == self.ma_order,
                p + q <= usize::MAX,
                params@.len() == at_least_one((p + q) as usize),
                self.ar_coeffs@.len() == at_least_one(p),
                forall|k: int| 0 <= k < i ==> #[trigger] self.ar_coeffs@[k] == params@[k],
                p == 0 ==> self.ar_coeffs == old(self).ar_coeffs,
                self.ma_coeffs == old(self).ma_coeffs,
                self.ar_order == old(self).ar_order,
                self.ma_order == old(self).ma_order,
                self.y_buffer == old(self).y_buffer,
                self.epsilon_buffer == old(self).epsilon_buffer,
                self.params == old(self).params,
                self.last_error == old(self).last_error,
                self.lambda == old(self).lambda,
                self.n_obs == old(self).n_obs,
            decreases p - i,
        {
            self.ar_coeffs.set(i, params[i]);
            i = i + 1;
        }
        let mut k: usize = 0;
        let ghost ar = self.ar_coeffs;
        while k < q
            invariant
                k <= q,
                p == self.ar_order,
                q == self.ma_order,
                p + q <= usize::MAX,
                params@.len() == at_least_one((p + q) as usize),
                self.ma_coeffs@.len() == at_least_one(q),
                forall|j: int| 0 <= j < k ==> #[trigger] self.ma_coeffs@[j] == params@[p + j],
                q == 0 ==> self.ma_coeffs == old(self).ma_coeffs,
                self.ar_coeffs == ar,
                self.ar_order == old(self).ar_order,
                self.ma_order == old(self).ma_order,
                self.y_buffer == old(self).y_buffer,
                self.epsilon_buffer == old(self).epsilon_buffer,
                self.params == old(self).params,
                self.last_error == old(self).last_error,
                self.lambda == old(self).lambda,
                self.n_obs == old(self).n_obs,
            decreases q - k,
        {
            self.ma_coeffs.set(k, params[p + k]);
            k = k + 1;
        }
        proof {
            if p > 0 {
                assert(self.ar_coeffs@ =~= params@.take(p as int));
            }
            if q > 0 {
                assert(self.ma_coeffs@ =~= params@.skip(p as int));
            }
        }
        self.params = params;
    }

    /// Update model with new observation and its prediction error
    pub fn update(&mut self, y_t: u64, error: u64)
        requires
            old(self).inv(),
        ensures
            final(self).inv(),
            final(self).y_buffer@ == seq![y_t] + old(self).y_buffer@.drop_last(),
            final(self).epsilon_buffer@ == seq![error] + old(self).epsilon_buffer@.drop_last(),
            final(self).last_error == error,
            final(self).n_obs == old(self).n_obs.wrapping_add(1),
            final(self).ar_order == old(self).ar_order,
            final(self).ma_order == old(self).ma_order,
            final(self).ar_coeffs == old(self).ar_coeffs,
            final(self).ma_coeffs == old(self).ma_coeffs,
            final(self).params == old(self).params,
            final(self).lambda == old(self).lambda,
    {
        self.last_error = error;
        self.y_buffer.push(y_t);
        self.epsilon_buffer.push(error);
        self.n_obs = self.n_obs.wrapping_add(1);
    }

    /// The last value
    pub fn last_value(&self) -> (y: u64)
        requires
            self.inv(),
        ensures
            y == self.y_buffer@[0],
    {
        self.y_buffer.at_lag(1)
    }

    /// Get current AR coefficients
    pub fn ar_coefficients(&self) -> (r: &[u64])
        ensures
            r@ == self.ar_coeffs@,
    {
        self.ar_coeffs.as_slice()
    }

    /// Get current MA coefficients
    pub fn ma_coefficients(&self) -> (r: &[u64])
        ensures
            r@ == self.ma_coeffs@,
    {
        self.ma_coeffs.as_slice()
    }

    /// Get last prediction error (innovation)
    pub fn last_prediction_error(&self) -> (e: u64)
        ensures
            e == self.last_error,
    {
        self.last_error
    }

    /// Get number of observations processed
    pub fn observation_count(&self) -> (n: u64)
        ensures
            n == self.n_obs,
    {
        self.n_obs
    }

    /// The residuals that a variance is estimated from, the last one first: none before the second
    /// observation
    pub fn residuals(&self) -> (r: Vec<u64>)
        requires
            self.inv(),
        ensures
            r@ == self.epsilon_buffer@.take(
                if self.n_obs < 2 {
                    0
                } else if self.n_obs < self.epsilon_buffer@.len() {
                    self.n_obs as int
                } else {
                    self.epsilon_buffer@.len() as int
                },
            ),
    {
        if self.n_obs < 2 {
            return self.epsilon_buffer.recent(0);
        }
        let len: usize = self.epsilon_buffer.len();
        if self.n_obs < len as u64 {
            self.epsilon_buffer.recent(self.n_obs as usize)
        } else {
            self.epsilon_buffer.recent(len)
        }
    }

    /// Residual variance, for the sum of the weights and the weighted sum of the squares over it: zero
    /// before the second observation, and where the weights are about zero
    pub fn residual_variance(&self, weights: u64, quotient: u64) -> (r: u64)
        ensures
            r == if self.n_obs < 2 || crate::doubles::greater(VANISHING_BITS, weights) {
                ZERO
            } else {
                quotient
            },
    {
        if self.n_obs < 2 || above(VANISHING_BITS, weights) {
            return ZERO;
        }
        quotient
    }

    /// True where a step of learning has a gain: the size of its denominator is no less than the least
    /// one
    pub fn has_gain(denominator: u64) -> (r: bool)
        ensures
            r == !crate::doubles::greater(
                REGULARIZATION,
                crate::doubles::size_of(denominator),
            ),
    {
        !above(REGULARIZATION, magnitude(denominator))
    }

    /// Check if model has converged: it has seen enough, and its last value is about zero or its
    /// last error, as a share of that, is under a threshold
    pub fn has_converged(&self, error_share: u64, threshold: u64) -> (r: bool)
        requires
            self.inv(),
        ensures
            r == (self.n_obs >= CONVERGENCE_MINIMUM && (crate::doubles::greater(
                VANISHING_BITS,
                crate::doubles::size_of(self.y_buffer@[0]),
            ) || crate::doubles::greater(threshold, crate::doubles::size_of(error_share)))),
    {
        if self.n_obs < CONVERGENCE_MINIMUM {
            return false;
        }
        above(VANISHING_BITS, magnitude(self.last_value())) || above(
            threshold,
            magnitude(error_share),
        )
    }

    /// Reset model state
    pub fn reset(&mut self)
        requires
            old(self).inv(),
        ensures
            final(self).inv(),
            final(self).is_blank(),
            final(self).ar_order == old(self).ar_order,
            final(self).ma_order == old(self).ma_order,
            final(self).lambda == old(self).lambda,
    {
        self.params = zero_vec(self.params.len());
        self.ar_coeffs = zero_vec(self.ar_coeffs.len());
        self.ma_coeffs = zero_vec(self.ma_coeffs.len());
        self.y_buffer.clear();
        self.epsilon_buffer.clear();
        self.n_obs = 0;
        self.last_error = 0;
    }
}

/// The regressor holds the latest values with the other sign, the last one first, and behind them
/// the latest errors.
pub proof fn law_regressor_holds_values_and_errors(m: OnlineARMA, i: int)
    requires
        m.inv(),
        0 <= i < m.regressor().len(),
    ensures
        m.regressor().len() == m.ar_order + m.ma_order,
        i < m.ar_order ==> m.regressor()[i] == crate::doubles::negative(m.y_buffer@[i]),
        i >= m.ar_order ==> m.regressor()[i] == m.epsilon_buffer@[i - m.ar_order],
{
}

/// A model keeps room for one coefficient at least.
pub proof fn law_orders_count_as_one_at_least(order: usize)
    ensures
        at_least_one(order) >= 1,
        order >= 1 ==> at_least_one(order) == order,
        order == 0 ==> at_least_one(order) == 1,
{
}

} // verus!
