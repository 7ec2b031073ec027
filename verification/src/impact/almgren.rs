//! Almgren-Chriss optimal execution trajectories in fixed-point arithmetic.
use crate::numbers::divide;
use vstd::prelude::*;

verus! {

/// Scale factor of fixed-point numbers: twelve decimals.
pub const SCALE: i128 = 1_000_000_000_000;

/// Fixed-point number: the value times `SCALE`.
#[derive(Debug, Clone, Copy, PartialEq, Eq, Structural)]
pub struct FixedPoint(pub i128);

/// Product of two fixed-point numbers.
pub open spec fn product(a: int, b: int) -> int {
    crate::numbers::quotient(a * b, SCALE as int)
}

/// Ratio of two fixed-point numbers; zero where the divisor is.
pub open spec fn ratio(a: int, b: int) -> int {
    if b == 0 {
        0
    } else {
        crate::numbers::quotient(a * SCALE, b)
    }
}

/// True where the ratio of two fixed-point numbers is calculated without overflow.
pub open spec fn ratio_fits(a: int, b: int) -> bool {
    b == 0 || (crate::numbers::fits(a * SCALE) && crate::numbers::fits(ratio(a, b)))
}

/// True of the integer square root of a number.
pub open spec fn is_root(r: int, v: int) -> bool {
    0 <= r && r * r <= v < (r + 1) * (r + 1)
}

/// The integer square root of a number.
pub open spec fn root_of(v: int) -> int {
    choose|r: int| is_root(r, v)
}

/// Square root of a fixed-point number, rounded down; zero where the number is not positive.
pub open spec fn root(x: int) -> int {
    if x <= 0 {
        0
    } else {
        root_of(x * SCALE)
    }
}

/// A number has one integer square root.
proof fn lemma_root_unique(r: int, s: int, v: int)
    requires
        is_root(r, v),
        is_root(s, v),
    ensures
        r == s,
{
    if r < s {
        assert((r + 1) * (r + 1) <= s * s) by (nonlinear_arith)
            requires
                0 <= r,
                r + 1 <= s,
        ;
    }
    if s < r {
        assert((s + 1) * (s + 1) <= r * r) by (nonlinear_arith)
            requires
                0 <= s,
                s + 1 <= r,
        ;
    }
}

/// Integer square root, found bit by bit.
fn integer_root(v: u128) -> (r: u128)
    ensures
        is_root(r as int, v as int),
{
    let mut r: u128 = 0;
    let mut b: u128 = 0x1_0000_0000_0000_0000;
    assert(0x1_0000_0000_0000_0000int * 0x1_0000_0000_0000_0000int > v) by (nonlinear_arith)
        requires
            v <= 0xffff_ffff_ffff_ffff_ffff_ffff_ffff_ffffu128,
    ;
    assert(is_power(0x1_0000_0000_0000_0000)) by {
        reveal_with_fuel(is_power, 65);
    }
    while b > 1
        invariant
            r + b <= 0x1_0000_0000_0000_0000,
            1 <= b,
            b > 1 ==> b % 2 == 0,
            is_power(b as int),
            r * r <= v < (r + b) * (r + b),
        decreases b,
    {
        proof {
            lemma_half_power(b as int);
        }
        let h: u128 = b / 2;
        let c: u128 = r + h;
        assert(c * c <= 0xffff_ffff_ffff_ffff_ffff_ffff_ffff_ffff) by (nonlinear_arith)
            requires
                0 <= c < 0x1_0000_0000_0000_0000,
        ;
        assert(c + h == r + b);
        if c * c <= v {
            r = c;
        }
        b = h;
    }
    r
}

/// Integer square root of a number times the scale: the root of the number times the root of the
/// scale, and what can be added to that.
fn scaled_root(x: u128) -> (r: u128)
    requires
        x <= i128::MAX,
    ensures
        is_root(r as int, x * SCALE),
        r <= i128::MAX,
{
    let a: u128 = integer_root(x);
    proof {
        assert(a < 0x1_0000_0000_0000_0000) by (nonlinear_arith)
            requires
                a * a <= x,
                x <= 0x7fff_ffff_ffff_ffff_ffff_ffff_ffff_ffffu128,
        ;
        assert((a + 1) * (a + 1) == a * a + 2 * a + 1) by (nonlinear_arith);
    }
    let rest: u128 = (x - a * a) * 1_000_000_000_000;
    let mut b: u128 = 0;
    let mut top: u128 = 1_000_000;
    assert(top * (2 * a * 1_000_000 + top) > rest) by (nonlinear_arith)
        requires
            top == 1_000_000,
            rest <= 2 * a * 1_000_000_000_000,
    ;
    while b + 1 < top
        invariant
            a < 0x1_0000_0000_0000_0000,
            b < top <= 1_000_000,
            b * (2 * a * 1_000_000 + b) <= rest < top * (2 * a * 1_000_000 + top),
        decreases top - b,
    {
        let mid: u128 = b + (top - b) / 2;
        let side: u128 = 2 * a * 1_000_000 + mid;
        assert(mid * side <= 0xffff_ffff_ffff_ffff_ffff_ffff_ffff_ffff) by (nonlinear_arith)
            requires
                0 <= mid <= 1_000_000,
                0 <= side <= 0x1_0000_0000_0000_0000int * 2_000_000 + 1_000_000,
        ;
        if mid * side <= rest {
            b = mid;
        } else {
            top = mid;
        }
    }
    let r: u128 = a * 1_000_000 + b;
    proof {
        lemma_split_square(a as int, b as int);
        lemma_split_square(a as int, b + 1);
        assert(x * SCALE == (a * a) * 1_000_000_000_000 + rest);
    }
    r
}

/// The square of a sum of millions and units.
proof fn lemma_split_square(a: int, b: int)
    ensures
        (a * 1_000_000 + b) * (a * 1_000_000 + b) == (a * a) * 1_000_000_000_000 + b * (2 * a
            * 1_000_000 + b),
{
    assert((a * 1_000_000 + b) * (a * 1_000_000 + b) == (a * a) * 1_000_000_000_000 + b * (2 * a
        * 1_000_000 + b)) by (nonlinear_arith);
}

/// True of the powers of two.
spec fn is_power(b: int) -> bool
    decreases b,
{
    b == 1 || (b > 1 && b % 2 == 0 && is_power(b / 2))
}

/// Half of a power of two is one.
proof fn lemma_half_power(b: int)
    requires
        is_power(b),
        b > 1,
    ensures
        is_power(b / 2),
        b % 2 == 0,
        b / 2 >= 1,
        b / 2 > 1 ==> (b / 2) % 2 == 0,
{
}

impl FixedPoint {
    pub fn from_i64(val: i64) -> (r: Self)
        ensures
            r.0 == val * SCALE,
    {
        assert(crate::numbers::fits(val * SCALE)) by (nonlinear_arith)
            requires
                -0x8000_0000_0000_0000 <= val <= 0x7fff_ffff_ffff_ffff,
                SCALE == 1_000_000_000_000,
        ;
        FixedPoint(val as i128 * SCALE)
    }

    /// The integer part, rounded towards zero.
    pub fn to_i64(self) -> (r: i64)
        ensures
            r == #[verifier::truncate] (crate::numbers::quotient(self.0 as int, SCALE as int) as i64),
    {
        proof {
            crate::numbers::lemma_quotient_bound(self.0 as int, SCALE as int);
        }
        let whole: i128 = divide(self.0, SCALE);
        #[verifier::truncate]
        (whole as i64)
    }

    pub fn add(self, other: Self) -> (r: Self)
        requires
            crate::numbers::fits(self.0 + other.0),
        ensures
            r.0 == self.0 + other.0,
    {
        FixedPoint(self.0 + other.0)
    }

    pub fn sub(self, other: Self) -> (r: Self)
        requires
            crate::numbers::fits(self.0 - other.0),
        ensures
            r.0 == self.0 - other.0,
    {
        FixedPoint(self.0 - other.0)
    }

    pub fn mul(self, other: Self) -> (r: Self)
        requires
            crate::numbers::fits(self.0 * other.0),
        ensures
            r.0 == product(self.0 as int, other.0 as int),
    {
        proof {
            crate::numbers::lemma_quotient_bound(self.0 * other.0, SCALE as int);
        }
        FixedPoint(divide(self.0 * other.0, SCALE))
    }

    pub fn div(self, other: Self) -> (r: Self)
        requires
            ratio_fits(self.0 as int, other.0 as int),
        ensures
            r.0 == ratio(self.0 as int, other.0 as int),
    {
        if other.0 == 0 {
            return FixedPoint(0);
        }
        FixedPoint(divide(self.0 * SCALE, other.0))
    }

    pub fn neg(self) -> (r: Self)
        requires
            self.0 > i128::MIN,
        ensures
            r.0 == -self.0,
    {
        FixedPoint(-self.0)
    }

    /// Sum, where it fits.
    pub fn checked_add(self, other: Self) -> (r: Option<Self>)
        ensures
            r == if crate::numbers::fits(self.0 + other.0) {
                Some(FixedPoint((self.0 + other.0) as i128))
            } else {
                None
            },
    {
        match self.0.checked_add(other.0) {
            Some(v) => Some(FixedPoint(v)),
            None => None,
        }
    }

    /// Difference, where it fits.
    pub fn checked_sub(self, other: Self) -> (r: Option<Self>)
        ensures
            r == if crate::numbers::fits(self.0 - other.0) {
                Some(FixedPoint((self.0 - other.0) as i128))
            } else {
                None
            },
    {
        match self.0.checked_sub(other.0) {
            Some(v) => Some(FixedPoint(v)),
            None => None,
        }
    }

    /// Product, where the product before scaling fits.
    pub fn checked_mul(self, other: Self) -> (r: Option<Self>)
        ensures
            r == if crate::numbers::fits(self.0 * other.0) {
                Some(FixedPoint(product(self.0 as int, other.0 as int) as i128))
            } else {
                None
            },
            crate::numbers::fits(self.0 * other.0) ==> crate::numbers::fits(product(self.0 as int, other.0 as int)),
    {
        proof {
            crate::numbers::lemma_quotient_bound(self.0 * other.0, SCALE as int);
        }
        match self.0.checked_mul(other.0) {
            Some(v) => Some(FixedPoint(divide(v, SCALE))),
            None => None,
        }
    }

    /// Ratio, where it is calculated without overflow.
    pub fn checked_div(self, other: Self) -> (r: Option<Self>)
        ensures
            r == if ratio_fits(self.0 as int, other.0 as int) {
                Some(FixedPoint(ratio(self.0 as int, other.0 as int) as i128))
            } else {
                None
            },
            ratio_fits(self.0 as int, other.0 as int) ==> crate::numbers::fits(
                ratio(self.0 as int, other.0 as int),
            ),
    {
        if other.0 == 0 {
            return Some(FixedPoint(0));
        }
        match self.0.checked_mul(SCALE) {
            Some(v) => {
                proof {
                    crate::numbers::lemma_quotient_bound(v as int, other.0 as int);
                    if other.0 < -1 || other.0 > 0 || v > i128::MIN {
                        crate::numbers::lemma_quotient_fits(v as int, other.0 as int);
                    } else {
                        assert((-v) / 1 == -v);
                    }
                }
                if other.0 == -1 && v == i128::MIN {
                    None
                } else {
                    Some(FixedPoint(divide(v, other.0)))
                }
            },
            None => None,
        }
    }

    /// Square root, rounded down; zero where the number is not positive.
    pub fn sqrt_newton(self) -> (r: Self)
        ensures
            r.0 == root(self.0 as int),
            self.0 > 0 ==> is_root(r.0 as int, self.0 * SCALE),
    {
        if self.0 <= 0 {
            return FixedPoint(0);
        }
        let r: u128 = scaled_root(self.0 as u128);
        proof {
            lemma_root_unique(r as int, root_of(self.0 * SCALE), self.0 * SCALE);
        }
        FixedPoint(r as i128)
    }

    pub fn is_positive(&self) -> (r: bool)
        ensures
            r == (self.0 > 0),
    {
        self.0 > 0
    }

    pub fn zero() -> (r: Self)
        ensures
            r.0 == 0,
    {
        FixedPoint(0)
    }

    pub fn one() -> (r: Self)
        ensures
            r.0 == SCALE,
    {
        FixedPoint(SCALE)
    }
}

/// Two, in fixed point.
pub const TWO: i128 = 2_000_000_000_000;

/// Six, in fixed point.
pub const SIX: i128 = 6_000_000_000_000;

/// Parameters of the Almgren-Chriss model.
#[derive(Debug, Clone, Copy)]
pub struct AlmgrenChrissParams {
    /// Total quantity to execute (in base units)
    pub total_quantity: FixedPoint,
    /// Time horizon in seconds
    pub time_horizon: FixedPoint,
    /// Number of trading intervals
    pub num_intervals: u32,
    /// Market impact coefficient (temporary)
    pub eta: FixedPoint,
    /// Volatility (annualized)
    pub sigma: FixedPoint,
    /// Risk aversion parameter
    pub lambda: FixedPoint,
    /// Permanent impact coefficient
    pub gamma: FixedPoint,
}

impl AlmgrenChrissParams {
    /// The number of intervals, in fixed point.
    pub open spec fn intervals(self) -> int {
        self.num_intervals * SCALE
    }

    /// The length of an interval.
    pub open spec fn dt(self) -> int {
        ratio(self.time_horizon.0 as int, self.intervals())
    }

    /// Eta sigma squared.
    pub open spec fn noise(self) -> int {
        product(product(self.eta.0 as int, self.sigma.0 as int), self.sigma.0 as int)
    }

    /// Lambda times the square of the interval.
    pub open spec fn risk(self) -> int {
        product(product(self.lambda.0 as int, self.dt()), self.dt())
    }

    /// The argument of the square root that approximates kappa.
    pub open spec fn kappa_squared(self) -> int {
        ratio(product(self.noise(), self.risk()), product(TWO as int, self.gamma.0 as int))
    }

    /// The urgency of the trajectory.
    pub open spec fn kappa(self) -> int {
        root(self.kappa_squared())
    }

    /// The hyperbolic sine of kappa, to the third power.
    pub open spec fn sinh(self) -> int {
        let k = self.kappa();
        k + ratio(product(product(k, k), k), SIX as int)
    }

    /// The hyperbolic cosine of kappa, to the second power.
    pub open spec fn cosh(self) -> int {
        let k = self.kappa();
        SCALE + ratio(product(k, k), TWO as int)
    }

    /// True where the constants of the solver are calculated without overflow.
    pub open spec fn fits(self) -> bool {
        let k = self.kappa();
        &&& ratio_fits(self.time_horizon.0 as int, self.intervals())
        &&& crate::numbers::fits(self.eta.0 * self.sigma.0)
        &&& crate::numbers::fits(product(self.eta.0 as int, self.sigma.0 as int) * self.sigma.0)
        &&& crate::numbers::fits(self.lambda.0 * self.dt())
        &&& crate::numbers::fits(product(self.lambda.0 as int, self.dt()) * self.dt())
        &&& crate::numbers::fits(self.noise() * self.risk())
        &&& crate::numbers::fits(TWO * self.gamma.0)
        &&& ratio_fits(
            product(self.noise(), self.risk()),
            product(TWO as int, self.gamma.0 as int),
        )
        &&& crate::numbers::fits(k * k)
        &&& crate::numbers::fits(product(k, k) * k)
        &&& ratio_fits(product(product(k, k), k), SIX as int)
        &&& crate::numbers::fits(self.sinh())
        &&& ratio_fits(product(k, k), TWO as int)
        &&& crate::numbers::fits(self.cosh())
    }
}

/// Trajectory that an order is executed along.
#[derive(Debug, Clone)]
pub struct ExecutionTrajectory {
    /// Quantity to trade in each interval
    pub quantities: Vec<FixedPoint>,
    /// Expected cost due to market impact
    pub expected_impact_cost: FixedPoint,
    /// Expected variance of implementation shortfall
    pub variance: FixedPoint,
    /// Optimal trading rate
    pub trading_rate: FixedPoint,
}

/// Almgren-Chriss solver with precomputed constants.
#[derive(Debug, Clone, Copy)]
pub struct AlmgrenChrissSolver {
    pub params: AlmgrenChrissParams,
    pub dt: FixedPoint,
    pub kappa: FixedPoint,
    pub sinh_coeff: FixedPoint,
    pub cosh_coeff: FixedPoint,
}

impl AlmgrenChrissSolver {
    /// Precomputes the constants, where they fit.
    pub fn checked_new(params: AlmgrenChrissParams) -> (r: Option<Self>)
        ensures
            r is Some <==> params.fits(),
            r matches Some(s) ==> {
                &&& s.params == params
                &&& s.dt.0 == params.dt()
                &&& s.kappa.0 == params.kappa()
                &&& s.sinh_coeff.0 == params.sinh()
                &&& s.cosh_coeff.0 == params.cosh()
            },
    {
        let n = FixedPoint::from_i64(params.num_intervals as i64);
        let dt = params.time_horizon.checked_div(n)?;
        let eta_sigma = params.eta.checked_mul(params.sigma)?;
        let noise = eta_sigma.checked_mul(params.sigma)?;
        let lambda_dt = params.lambda.checked_mul(dt)?;
        let risk = lambda_dt.checked_mul(dt)?;
        let numerator = noise.checked_mul(risk)?;
        let denominator = FixedPoint(TWO).checked_mul(params.gamma)?;
        let x = numerator.checked_div(denominator)?;
        let kappa = x.sqrt_newton();
        let kappa_sq = kappa.checked_mul(kappa)?;
        let kappa_cubed = kappa_sq.checked_mul(kappa)?;
        let sinh_part = kappa_cubed.checked_div(FixedPoint(SIX))?;
        let sinh_coeff = kappa.checked_add(sinh_part)?;
        let cosh_part = kappa_sq.checked_div(FixedPoint(TWO))?;
        let cosh_coeff = FixedPoint::one().checked_add(cosh_part)?;
        Some(AlmgrenChrissSolver { params, dt, kappa, sinh_coeff, cosh_coeff })
    }

    /// Precomputes the constants.
    pub fn new(params: AlmgrenChrissParams) -> (s: Self)
        requires
            params.fits(),
        ensures
            s.params == params,
            s.dt.0 == params.dt(),
            s.kappa.0 == params.kappa(),
            s.sinh_coeff.0 == params.sinh(),
            s.cosh_coeff.0 == params.cosh(),
    {
        Self::checked_new(params).unwrap()
    }

    /// The urgency of the trajectory.
    pub fn kappa(&self) -> (r: FixedPoint)
        ensures
            r == self.kappa,
    {
        self.kappa
    }

    /// The length of an interval.
    pub fn dt(&self) -> (r: FixedPoint)
        ensures
            r == self.dt,
    {
        self.dt
    }

    /// The factor of the recurrence.
    pub open spec fn growth(self) -> int {
        product(TWO as int, self.cosh_coeff.0 as int)
    }

    /// The hyperbolic sine of `i` times kappa, by the recurrence
    /// `sinh((i+1) k) = 2 cosh(k) sinh(i k) - sinh((i-1) k)`.
    pub open spec fn sinh_multiple(self, i: nat) -> int
        decreases i,
    {
        if i == 0 {
            0
        } else if i == 1 {
            self.sinh_coeff.0 as int
        } else {
            product(self.growth(), self.sinh_multiple((i - 1) as nat)) - self.sinh_multiple(
                (i - 2) as nat,
            )
        }
    }

    /// True where the recurrence is calculated up to `i` without overflow.
    pub open spec fn sinh_fits(self, i: nat) -> bool
        decreases i,
    {
        i < 2 || {
            &&& self.sinh_fits((i - 1) as nat)
            &&& crate::numbers::fits(self.growth() * self.sinh_multiple((i - 1) as nat))
            &&& crate::numbers::fits(self.sinh_multiple(i))
        }
    }

    /// The quantity to trade in interval `k`: the share that the hyperbolic sine of the remaining
    /// intervals has, or an equal share where there is no urgency.
    pub open spec fn quantity(self, k: int) -> int {
        let n = self.params.num_intervals;
        let denom = self.sinh_multiple((n + 1) as nat);
        let total = self.params.total_quantity.0 as int;
        if denom != 0 {
            ratio(product(total, self.sinh_multiple((n - k) as nat)), denom)
        } else {
            ratio(total, self.params.intervals())
        }
    }

    /// True where the quantity of interval `k` is calculated without overflow.
    pub open spec fn quantity_fits(self, k: int) -> bool {
        let n = self.params.num_intervals;
        let denom = self.sinh_multiple((n + 1) as nat);
        let total = self.params.total_quantity.0 as int;
        let share = self.sinh_multiple((n - k) as nat);
        if denom != 0 {
            crate::numbers::fits(total * share) && ratio_fits(product(total, share), denom)
        } else {
            ratio_fits(total, self.params.intervals())
        }
    }

    /// What is left to trade before interval `k`.
    pub open spec fn remaining(self, k: nat) -> int
        decreases k,
    {
        if k == 0 {
            self.params.total_quantity.0 as int
        } else {
            self.remaining((k - 1) as nat) - self.quantity(k - 1)
        }
    }

    /// The impact cost of interval `k`: eta times the quantity squared, over the interval.
    pub open spec fn impact(self, k: int) -> int {
        ratio(
            product(product(self.params.eta.0 as int, self.quantity(k)), self.quantity(k)),
            self.dt.0 as int,
        )
    }

    /// The variance that interval `k` adds: sigma squared times the interval times what is left,
    /// squared.
    pub open spec fn spread(self, k: nat) -> int {
        product(product(self.sigma_sq_dt(), self.remaining(k)), self.remaining(k))
    }

    /// Sigma squared times the interval.
    pub open spec fn sigma_sq_dt(self) -> int {
        product(
            product(self.params.sigma.0 as int, self.params.sigma.0 as int),
            self.dt.0 as int,
        )
    }

    /// The impact cost of the first `k` intervals.
    pub open spec fn cost(self, k: nat) -> int
        decreases k,
    {
        if k == 0 {
            0
        } else {
            self.cost((k - 1) as nat) + self.impact(k - 1)
        }
    }

    /// The variance of the first `k` intervals.
    pub open spec fn variance(self, k: nat) -> int
        decreases k,
    {
        if k == 0 {
            0
        } else {
            self.variance((k - 1) as nat) + self.spread((k - 1) as nat)
        }
    }

    /// True where interval `k` is calculated without overflow.
    pub open spec fn interval_fits(self, k: nat) -> bool {
        let q = self.quantity(k as int);
        let eta_q = product(self.params.eta.0 as int, q);
        let sigma_sq = product(self.params.sigma.0 as int, self.params.sigma.0 as int);
        let left = self.remaining(k);
        &&& self.quantity_fits(k as int)
        &&& crate::numbers::fits(self.params.eta.0 * q)
        &&& crate::numbers::fits(eta_q * q)
        &&& ratio_fits(product(eta_q, q), self.dt.0 as int)
        &&& crate::numbers::fits(self.cost(k + 1))
        &&& crate::numbers::fits(self.params.sigma.0 * self.params.sigma.0)
        &&& crate::numbers::fits(sigma_sq * self.dt.0)
        &&& crate::numbers::fits(self.sigma_sq_dt() * left)
        &&& crate::numbers::fits(product(self.sigma_sq_dt(), left) * left)
        &&& crate::numbers::fits(self.variance(k + 1))
        &&& crate::numbers::fits(self.remaining(k + 1))
    }

    /// True where the trajectory is calculated without overflow.
    pub open spec fn trajectory_fits(self) -> bool {
        let n = self.params.num_intervals as nat;
        &&& n >= 1 ==> crate::numbers::fits(TWO * self.cosh_coeff.0)
        &&& self.sinh_fits(n + 1)
        &&& forall|k: nat| k < n ==> #[trigger] self.interval_fits(k)
        &&& ratio_fits(
            self.params.total_quantity.0 as int,
            self.params.time_horizon.0 as int,
        )
        &&& ratio_fits(self.cost(n), TWO as int)
    }

    /// True of the trajectory of the solver.
    pub open spec fn is_trajectory(self, t: ExecutionTrajectory) -> bool {
        let n = self.params.num_intervals;
        &&& t.quantities@.len() == n
        &&& forall|k: int| 0 <= k < n ==> (#[trigger] t.quantities@[k]).0 == self.quantity(k)
        &&& t.expected_impact_cost.0 == ratio(self.cost(n as nat), TWO as int)
        &&& t.variance.0 == self.variance(n as nat)
        &&& t.trading_rate.0 == ratio(
            self.params.total_quantity.0 as int,
            self.params.time_horizon.0 as int,
        )
    }

    /// The hyperbolic sine of `i` times kappa, where the recurrence fits.
    fn checked_sinh(&self, i: u32) -> (r: Option<FixedPoint>)
        requires
            i >= 2 ==> crate::numbers::fits(TWO * self.cosh_coeff.0),
        ensures
            r is Some <==> self.sinh_fits(i as nat),
            r matches Some(v) ==> v.0 == self.sinh_multiple(i as nat),
    {
        if i == 0 {
            return Some(FixedPoint(0));
        }
        let mut prev = FixedPoint(0);
        let mut curr = self.sinh_coeff;
        let mut j: u32 = 1;
        while j < i
            invariant
                1 <= j <= i,
                i >= 2 ==> crate::numbers::fits(TWO * self.cosh_coeff.0),
                self.sinh_fits(j as nat),
                curr.0 == self.sinh_multiple(j as nat),
                prev.0 == self.sinh_multiple((j - 1) as nat),
            decreases i - j,
        {
            let growth = FixedPoint(TWO).mul(self.cosh_coeff);
            proof {
                if self.sinh_fits(i as nat) {
                    self.lemma_sinh_fits_below(i as nat, (j + 1) as nat);
                }
            }
            let grown = growth.checked_mul(curr)?;
            let next = grown.checked_sub(prev)?;
            prev = curr;
            curr = next;
            j = j + 1;
        }
        Some(curr)
    }

    /// Where the recurrence fits up to a point it fits before it.
    proof fn lemma_sinh_fits_below(self, i: nat, j: nat)
        requires
            self.sinh_fits(i),
            j <= i,
        ensures
            self.sinh_fits(j),
        decreases i,
    {
        if j < i {
            if i >= 2 {
                self.lemma_sinh_fits_below((i - 1) as nat, j);
            }
        }
    }

    /// The quantity to trade in interval `k`, where it fits.
    fn checked_quantity(&self, k: u32, denom: FixedPoint) -> (r: Option<FixedPoint>)
        requires
            k < self.params.num_intervals,
            self.sinh_fits((self.params.num_intervals + 1) as nat),
            crate::numbers::fits(TWO * self.cosh_coeff.0),
            denom.0 == self.sinh_multiple((self.params.num_intervals + 1) as nat),
        ensures
            r is Some <==> self.quantity_fits(k as int),
            r matches Some(v) ==> v.0 == self.quantity(k as int),
    {
        let n = self.params.num_intervals;
        proof {
            self.lemma_sinh_fits_below((n + 1) as nat, (n - k) as nat);
        }
        if denom.0 != 0 {
            let share = self.checked_sinh(n - k)?;
            let weighted = self.params.total_quantity.checked_mul(share)?;
            weighted.checked_div(denom)
        } else {
            self.params.total_quantity.checked_div(FixedPoint::from_i64(n as i64))
        }
    }

    /// The optimal trajectory, where it is calculated without overflow.
    pub fn checked_trajectory(&self) -> (r: Option<ExecutionTrajectory>)
        requires
            self.params.num_intervals < u32::MAX,
        ensures
            r is Some <==> self.trajectory_fits(),
            r matches Some(t) ==> self.is_trajectory(t),
    {
        let n = self.params.num_intervals;
        if n >= 1 && TWO.checked_mul(self.cosh_coeff.0).is_none() {
            return None;
        }
        let denom = self.checked_sinh(n + 1)?;
        let mut quantities: Vec<FixedPoint> = Vec::new();
        let mut remaining = self.params.total_quantity;
        let mut cost = FixedPoint(0);
        let mut variance = FixedPoint(0);
        let mut k: u32 = 0;
        while k < n
            invariant
                k <= n,
                n == self.params.num_intervals,
                n < u32::MAX,
                n >= 1 ==> crate::numbers::fits(TWO * self.cosh_coeff.0),
                self.sinh_fits((n + 1) as nat),
                denom.0 == self.sinh_multiple((n + 1) as nat),
                quantities@.len() == k,
                forall|j: int| 0 <= j < k ==> (#[trigger] quantities@[j]).0 == self.quantity(j),
                forall|j: nat| j < k ==> #[trigger] self.interval_fits(j),
                remaining.0 == self.remaining(k as nat),
                cost.0 == self.cost(k as nat),
                variance.0 == self.variance(k as nat),
            decreases n - k,
        {
            assert(self.trajectory_fits() ==> self.interval_fits(k as nat));
            let q = self.checked_quantity(k, denom)?;
            let eta_q = self.params.eta.checked_mul(q)?;
            let eta_q_sq = eta_q.checked_mul(q)?;
            let impact = eta_q_sq.checked_div(self.dt)?;
            let new_cost = cost.checked_add(impact)?;
            let sigma_sq = self.params.sigma.checked_mul(self.params.sigma)?;
            let sigma_sq_dt = sigma_sq.checked_mul(self.dt)?;
            let once = sigma_sq_dt.checked_mul(remaining)?;
            let spread = once.checked_mul(remaining)?;
            let new_variance = variance.checked_add(spread)?;
            let left = remaining.checked_sub(q)?;
            quantities.push(q);
            cost = new_cost;
            variance = new_variance;
            remaining = left;
            assert(self.interval_fits(k as nat));
            k = k + 1;
        }
        let trading_rate = self.params.total_quantity.checked_div(self.params.time_horizon)?;
        let expected_impact_cost = cost.checked_div(FixedPoint(TWO))?;
        Some(ExecutionTrajectory { quantities, expected_impact_cost, variance, trading_rate })
    }

    /// The optimal trajectory.
    pub fn calculate_trajectory(&self) -> (t: ExecutionTrajectory)
        requires
            self.params.num_intervals < u32::MAX,
            self.trajectory_fits(),
        ensures
            self.is_trajectory(t),
    {
        self.checked_trajectory().unwrap()
    }

    /// Eta times the total quantity squared.
    pub open spec fn eta_q_sq(self) -> int {
        let q = self.params.total_quantity.0 as int;
        product(product(self.params.eta.0 as int, q), q)
    }

    /// Gamma times the total quantity squared.
    pub open spec fn gamma_q_sq(self) -> int {
        let q = self.params.total_quantity.0 as int;
        product(product(self.params.gamma.0 as int, q), q)
    }

    /// Lambda sigma squared times the total quantity.
    pub open spec fn risk_q(self) -> int {
        let sigma = self.params.sigma.0 as int;
        product(
            product(product(self.params.lambda.0 as int, sigma), sigma),
            self.params.total_quantity.0 as int,
        )
    }

    /// The expected shortfall of a liquidation in time `t`: half of gamma times the quantity
    /// squared, eta times the quantity squared over the time, and half of the risk times the time.
    pub open spec fn shortfall(self, t: int) -> int {
        ratio(self.gamma_q_sq(), TWO as int) + ratio(self.eta_q_sq(), t) + ratio(
            product(self.risk_q(), t),
            TWO as int,
        )
    }

    /// The derivative of the expected shortfall by the time.
    pub open spec fn slope(self, t: int) -> int {
        ratio(ratio(-self.eta_q_sq(), t), t) + ratio(self.risk_q(), TWO as int)
    }

    /// One step of Newton's method from time `t`, or nothing where the target is met closely enough
    /// or the shortfall is flat. A time that is shorter than its intervals grows by a tenth; one
    /// that is not positive becomes a thousandth of a second.
    pub open spec fn newton_step(self, target: int, t: int) -> Option<int> {
        let diff = self.shortfall(t) - target;
        let slope = self.slope(t);
        let next = t - ratio(diff, slope);
        if ratio(t, self.params.intervals()) <= 0 {
            Some(product(t, ELEVEN_TENTHS as int))
        } else if -TOLERANCE < diff < TOLERANCE || slope == 0 {
            None
        } else if next <= 0 {
            Some(SHORTEST_TIME as int)
        } else {
            Some(next)
        }
    }

    /// True where a step is calculated without overflow.
    pub open spec fn step_fits(self, target: int, t: int) -> bool {
        let q = self.params.total_quantity.0 as int;
        let sigma = self.params.sigma.0 as int;
        let eta_q = product(self.params.eta.0 as int, q);
        let gamma_q = product(self.params.gamma.0 as int, q);
        let lambda_sigma = product(self.params.lambda.0 as int, sigma);
        let base = ratio(self.gamma_q_sq(), TWO as int);
        let speed = ratio(self.eta_q_sq(), t);
        let diff = self.shortfall(t) - target;
        let slope = self.slope(t);
        &&& ratio_fits(t, self.params.intervals())
        &&& if ratio(t, self.params.intervals()) <= 0 {
            crate::numbers::fits(t * ELEVEN_TENTHS)
        } else {
            &&& crate::numbers::fits(self.params.gamma.0 * q)
            &&& crate::numbers::fits(gamma_q * q)
            &&& ratio_fits(self.gamma_q_sq(), TWO as int)
            &&& crate::numbers::fits(self.params.eta.0 * q)
            &&& crate::numbers::fits(eta_q * q)
            &&& ratio_fits(self.eta_q_sq(), t)
            &&& crate::numbers::fits(self.params.lambda.0 * sigma)
            &&& crate::numbers::fits(lambda_sigma * sigma)
            &&& crate::numbers::fits(product(lambda_sigma, sigma) * q)
            &&& crate::numbers::fits(self.risk_q() * t)
            &&& ratio_fits(product(self.risk_q(), t), TWO as int)
            &&& crate::numbers::fits(base + speed)
            &&& crate::numbers::fits(self.shortfall(t))
            &&& crate::numbers::fits(diff)
            &&& -TOLERANCE < diff < TOLERANCE || {
                &&& ratio_fits(-self.eta_q_sq(), t)
                &&& ratio_fits(ratio(-self.eta_q_sq(), t), t)
                &&& ratio_fits(self.risk_q(), TWO as int)
                &&& crate::numbers::fits(slope)
                &&& slope == 0 || (ratio_fits(diff, slope) && crate::numbers::fits(t - ratio(diff, slope)))
            }
        }
    }

    /// The time that at most `steps` steps of Newton's method lead to from time `t`.
    pub open spec fn newton(self, target: int, t: int, steps: nat) -> int
        decreases steps,
    {
        if steps == 0 {
            t
        } else {
            match self.newton_step(target, t) {
                Some(next) => self.newton(target, next, (steps - 1) as nat),
                None => t,
            }
        }
    }

    /// True where those steps are calculated without overflow.
    pub open spec fn newton_fits(self, target: int, t: int, steps: nat) -> bool
        decreases steps,
    {
        steps == 0 || (self.step_fits(target, t) && match self.newton_step(target, t) {
            Some(next) => self.newton_fits(target, next, (steps - 1) as nat),
            None => true,
        })
    }

    /// One step of Newton's method, where it fits.
    fn checked_step(&self, target: FixedPoint, t: FixedPoint) -> (r: Option<Option<FixedPoint>>)
        ensures
            r is Some <==> self.step_fits(target.0 as int, t.0 as int),
            r matches Some(step) ==> match step {
                Some(next) => self.newton_step(target.0 as int, t.0 as int) == Some(next.0 as int),
                None => self.newton_step(target.0 as int, t.0 as int) is None,
            },
    {
        let n = FixedPoint::from_i64(self.params.num_intervals as i64);
        let dt = t.checked_div(n)?;
        if dt.0 <= 0 {
            let longer = t.checked_mul(FixedPoint(ELEVEN_TENTHS))?;
            return Some(Some(longer));
        }
        let q = self.params.total_quantity;
        let gamma_q = self.params.gamma.checked_mul(q)?;
        let gamma_q_sq = gamma_q.checked_mul(q)?;
        let base = gamma_q_sq.checked_div(FixedPoint(TWO))?;
        let eta_q = self.params.eta.checked_mul(q)?;
        let eta_q_sq = eta_q.checked_mul(q)?;
        let speed = eta_q_sq.checked_div(t)?;
        let lambda_sigma = self.params.lambda.checked_mul(self.params.sigma)?;
        let lambda_sigma_sq = lambda_sigma.checked_mul(self.params.sigma)?;
        let risk_q = lambda_sigma_sq.checked_mul(q)?;
        let risk_q_t = risk_q.checked_mul(t)?;
        let risk = risk_q_t.checked_div(FixedPoint(TWO))?;
        let part = base.checked_add(speed)?;
        let shortfall = part.checked_add(risk)?;
        let diff = shortfall.checked_sub(target)?;
        if -TOLERANCE < diff.0 && diff.0 < TOLERANCE {
            return Some(None);
        }
        proof {
            lemma_product_above_min(eta_q.0 as int, q.0 as int);
        }
        let once = eta_q_sq.neg().checked_div(t)?;
        let twice = once.checked_div(t)?;
        let half_risk = risk_q.checked_div(FixedPoint(TWO))?;
        let slope = twice.checked_add(half_risk)?;
        if slope.0 == 0 {
            return Some(None);
        }
        let step = diff.checked_div(slope)?;
        let next = t.checked_sub(step)?;
        if next.0 <= 0 {
            return Some(Some(FixedPoint(SHORTEST_TIME)));
        }
        Some(Some(next))
    }

    /// The time in which the expected shortfall of a liquidation meets a target, where it is
    /// calculated without overflow.
    pub fn checked_optimal_time(&self, target_cost: FixedPoint) -> (r: Option<FixedPoint>)
        ensures
            r is Some <==> self.newton_fits(
                target_cost.0 as int,
                self.params.time_horizon.0 as int,
                10,
            ),
            r matches Some(t) ==> t.0 == self.newton(
                target_cost.0 as int,
                self.params.time_horizon.0 as int,
                10,
            ),
    {
        let ghost target = target_cost.0 as int;
        let ghost start = self.params.time_horizon.0 as int;
        let mut t = self.params.time_horizon;
        let mut i: u32 = 0;
        while i < 10
            invariant
                i <= 10,
                target == target_cost.0,
                start == self.params.time_horizon.0,
                self.newton_fits(target, start, 10) == self.newton_fits(
                    target,
                    t.0 as int,
                    (10 - i) as nat,
                ),
                self.newton(target, start, 10) == self.newton(target, t.0 as int, (10 - i) as nat),
            decreases 10 - i,
        {
            match self.checked_step(target_cost, t)? {
                Some(next) => {
                    t = next;
                },
                None => {
                    return Some(t);
                },
            }
            i = i + 1;
        }
        Some(t)
    }

    /// The time in which the expected shortfall of a liquidation meets a target, found with at most
    /// ten steps of Newton's method from the time horizon.
    pub fn solve_optimal_time(&self, target_cost: FixedPoint) -> (t: FixedPoint)
        requires
            self.newton_fits(target_cost.0 as int, self.params.time_horizon.0 as int, 10),
        ensures
            t.0 == self.newton(target_cost.0 as int, self.params.time_horizon.0 as int, 10),
    {
        self.checked_optimal_time(target_cost).unwrap()
    }
}

/// Eleven tenths, in fixed point.
pub const ELEVEN_TENTHS: i128 = 1_100_000_000_000;

/// How close to the target the shortfall has to come: a ten-thousandth.
pub const TOLERANCE: i128 = 100_000_000;

/// A thousandth, in fixed point.
pub const SHORTEST_TIME: i128 = 1_000_000_000;

/// A product is scaled down, so it is not the least number.
proof fn lemma_product_above_min(a: int, b: int)
    requires
        crate::numbers::fits(a * b),
    ensures
        product(a, b) > i128::MIN,
        crate::numbers::fits(-product(a, b)),
{
    let x = a * b;
    if x < 0 {
        assert((-x) / 1_000_000_000_000 < -x) by (nonlinear_arith)
            requires
                x < 0,
        ;
    }
    crate::numbers::lemma_quotient_bound(x, SCALE as int);
}

/// A whole number becomes a fixed-point number and back without change.
pub proof fn law_whole_numbers_roundtrip(v: i64)
    ensures
        crate::numbers::quotient(v * SCALE, SCALE as int) == v,
{
    assert((v * SCALE) / (SCALE as int) == v) by (nonlinear_arith)
        requires
            SCALE == 1_000_000_000_000,
    ;
    assert((-v * SCALE) / (SCALE as int) == -v) by (nonlinear_arith)
        requires
            SCALE == 1_000_000_000_000,
    ;
    assert(-(v * SCALE) == -v * SCALE) by (nonlinear_arith);
}

/// One is neutral in products and ratios.
pub proof fn law_one_is_neutral(x: int)
    ensures
        product(x, SCALE as int) == x,
        product(SCALE as int, x) == x,
        ratio(x, SCALE as int) == x,
{
    assert((x * SCALE) / (SCALE as int) == x) by (nonlinear_arith)
        requires
            SCALE == 1_000_000_000_000,
    ;
    assert((-x * SCALE) / (SCALE as int) == -x) by (nonlinear_arith)
        requires
            SCALE == 1_000_000_000_000,
    ;
    assert(-(x * SCALE) == -x * SCALE) by (nonlinear_arith);
    assert(x * SCALE == SCALE * x) by (nonlinear_arith);
    assert(x * SCALE >= 0 <==> x >= 0) by (nonlinear_arith)
        requires
            SCALE == 1_000_000_000_000,
    ;
}

/// The square root of a fixed-point number is the largest fixed-point number whose square is not
/// above it.
pub proof fn law_root_is_the_largest(x: int, r: int, other: int)
    requires
        x > 0,
        is_root(r, x * SCALE),
        other >= 0,
        other * other <= x * SCALE,
    ensures
        root(x) == r,
        other <= r,
{
    lemma_root_unique(r, root_of(x * SCALE), x * SCALE);
    if other > r {
        assert((r + 1) * (r + 1) <= other * other) by (nonlinear_arith)
            requires
                0 <= r,
                r + 1 <= other,
        ;
    }
}

/// From a positive time Newton's method stays at positive times.
pub proof fn law_optimal_time_is_positive(s: AlmgrenChrissSolver, target: int, t: int, steps: nat)
    requires
        t > 0,
    ensures
        s.newton(target, t, steps) > 0,
    decreases steps,
{
    if steps > 0 {
        match s.newton_step(target, t) {
            Some(next) => {
                assert((t * ELEVEN_TENTHS) / (SCALE as int) > 0) by (nonlinear_arith)
                    requires
                        t > 0,
                        ELEVEN_TENTHS == 1_100_000_000_000,
                        SCALE == 1_000_000_000_000,
                ;
                assert(t * ELEVEN_TENTHS > 0) by (nonlinear_arith)
                    requires
                        t > 0,
                        ELEVEN_TENTHS == 1_100_000_000_000,
                ;
                law_optimal_time_is_positive(s, target, next, (steps - 1) as nat);
            },
            None => {},
        }
    }
}

/// What a trajectory trades in its intervals, and what is left after them, is the total quantity.
pub proof fn law_trajectory_accounts_for_the_total(s: AlmgrenChrissSolver, k: nat)
    ensures
        s.remaining(k) + traded(s, k) == s.params.total_quantity.0,
    decreases k,
{
    if k > 0 {
        law_trajectory_accounts_for_the_total(s, (k - 1) as nat);
    }
}

/// What a trajectory trades in its first `k` intervals.
pub open spec fn traded(s: AlmgrenChrissSolver, k: nat) -> int
    decreases k,
{
    if k == 0 {
        0
    } else {
        traded(s, (k - 1) as nat) + s.quantity(k - 1)
    }
}

/// A product is rounded down from the exact one.
proof fn lemma_product(a: int, b: int)
    requires
        a >= 0,
        b >= 0,
    ensures
        product(a, b) >= 0,
        product(a, b) * SCALE <= a * b < (product(a, b) + 1) * SCALE,
{
    assert(a * b >= 0) by (nonlinear_arith)
        requires
            a >= 0,
            b >= 0,
    ;
}

/// A ratio is rounded down from the exact one.
proof fn lemma_ratio(a: int, b: int)
    requires
        a >= 0,
        b > 0,
    ensures
        ratio(a, b) >= 0,
        ratio(a, b) * b <= a * SCALE < (ratio(a, b) + 1) * b,
{
    let v = a * SCALE;
    assert(v >= 0) by (nonlinear_arith)
        requires
            v == a * SCALE,
            a >= 0,
            SCALE == 1_000_000_000_000,
    ;
    assert((v / b) * b <= v < (v / b + 1) * b && v / b >= 0) by (nonlinear_arith)
        requires
            v >= 0,
            b > 0,
    ;
}

/// True of the solver that is made of parameters.
pub open spec fn solves(s: AlmgrenChrissSolver, params: AlmgrenChrissParams) -> bool {
    &&& s.params == params
    &&& s.dt.0 == params.dt()
    &&& s.kappa.0 == params.kappa()
    &&& s.sinh_coeff.0 == params.sinh()
    &&& s.cosh_coeff.0 == params.cosh()
}

/// The constants of the recurrence are no smaller than those of their arguments.
proof fn lemma_constants(params: AlmgrenChrissParams)
    ensures
        params.kappa() >= 0,
        params.cosh() >= SCALE,
        params.sinh() >= params.kappa(),
{
    let k = params.kappa();
    let x = params.kappa_squared();
    if x > 0 {
        assert(x * SCALE > 0) by (nonlinear_arith)
            requires
                x > 0,
                SCALE == 1_000_000_000_000,
        ;
        let r = lemma_has_root(x * SCALE);
        assert(is_root(root_of(x * SCALE), x * SCALE));
    }
    lemma_product(k, k);
    lemma_product(product(k, k), k);
    lemma_ratio(product(product(k, k), k), SIX as int);
    lemma_ratio(product(k, k), TWO as int);
}

/// Every number that is not negative has an integer root.
proof fn lemma_has_root(v: int) -> (r: int)
    requires
        v >= 0,
    ensures
        is_root(r, v),
    decreases v,
{
    if v == 0 {
        assert(is_root(0, 0));
        0
    } else {
        let r = lemma_has_root(v - 1);
        assert((r + 1) * (r + 1) < (r + 2) * (r + 2)) by (nonlinear_arith)
            requires
                r >= 0,
        ;
        if v < (r + 1) * (r + 1) {
            r
        } else {
            r + 1
        }
    }
}

/// With urgency the multiples grow by at least the first one each.
proof fn lemma_sinh_grows(s: AlmgrenChrissSolver, i: nat)
    requires
        s.sinh_coeff.0 > 0,
        s.cosh_coeff.0 >= SCALE,
    ensures
        s.sinh_multiple(i) >= 0,
        s.sinh_multiple(i + 1) - s.sinh_multiple(i) >= s.sinh_coeff.0,
    decreases i,
{
    if i > 0 {
        lemma_sinh_grows(s, (i - 1) as nat);
        let f = s.sinh_multiple(i);
        lemma_growth(s);
        let g = s.growth();
        lemma_product(g, f);
        assert(product(g, f) >= 2 * f) by (nonlinear_arith)
            requires
                g >= 2 * SCALE,
                f >= 0,
                g * f < (product(g, f) + 1) * SCALE,
                SCALE == 1_000_000_000_000,
        ;
    }
}

proof fn lemma_growth(s: AlmgrenChrissSolver)
    requires
        s.cosh_coeff.0 >= 0,
    ensures
        s.growth() == 2 * s.cosh_coeff.0,
{
    let c = s.cosh_coeff.0 as int;
    assert((TWO * c) / (SCALE as int) == 2 * c) by (nonlinear_arith)
        requires
            TWO == 2_000_000_000_000,
            SCALE == 1_000_000_000_000,
    ;
}

proof fn lemma_sinh_ordered(s: AlmgrenChrissSolver, i: nat, j: nat)
    requires
        s.sinh_coeff.0 > 0,
        s.cosh_coeff.0 >= SCALE,
        i <= j,
    ensures
        0 <= s.sinh_multiple(i) <= s.sinh_multiple(j),
        i < j ==> s.sinh_multiple(i) < s.sinh_multiple(j),
    decreases j,
{
    lemma_sinh_grows(s, i);
    if i < j {
        lemma_sinh_ordered(s, i, (j - 1) as nat);
        lemma_sinh_grows(s, (j - 1) as nat);
    }
}

/// What the quantity of interval `k` falls short of the exact share by, times the divisor.
proof fn lemma_quantity(s: AlmgrenChrissSolver, k: int)
    requires
        s.sinh_coeff.0 > 0,
        s.cosh_coeff.0 >= SCALE,
        s.params.total_quantity.0 >= 0,
        0 <= k <= s.params.num_intervals,
    ensures
        ({
            let n = s.params.num_intervals;
            let d = s.sinh_multiple((n + 1) as nat);
            let exact = s.params.total_quantity.0 * s.sinh_multiple((n - k) as nat);
            &&& d > 0
            &&& s.quantity(k) >= 0
            &&& s.quantity(k) * d <= exact
            &&& exact < s.quantity(k) * d + SCALE + d
        }),
{
    let n = s.params.num_intervals;
    let d = s.sinh_multiple((n + 1) as nat);
    let total = s.params.total_quantity.0 as int;
    let f = s.sinh_multiple((n - k) as nat);
    lemma_sinh_ordered(s, 0, (n + 1) as nat);
    lemma_sinh_ordered(s, 0, (n - k) as nat);
    lemma_product(total, f);
    lemma_ratio(product(total, f), d);
    let p = product(total, f);
    let q = ratio(p, d);
    assert((p + 1) * SCALE == p * SCALE + SCALE) by (nonlinear_arith);
    assert((q + 1) * d == q * d + d) by (nonlinear_arith);
}

/// With urgency and something to trade a trajectory is front-loaded: no interval trades more than
/// the one before, none less than nothing or more than the total.
pub proof fn law_trajectory_is_front_loaded(
    s: AlmgrenChrissSolver,
    params: AlmgrenChrissParams,
    t: ExecutionTrajectory,
    j: int,
    k: int,
)
    requires
        solves(s, params),
        s.is_trajectory(t),
        s.kappa.0 > 0,
        params.total_quantity.0 > 0,
        0 <= j <= k < params.num_intervals,
    ensures
        0 <= t.quantities@[k].0 <= t.quantities@[j].0 <= params.total_quantity.0,
        t.quantities@[0].0 != t.quantities@[params.num_intervals - 1].0 ==> t.quantities@[0].0
            > t.quantities@[params.num_intervals - 1].0,
{
    lemma_constants(params);
    let n = params.num_intervals as int;
    lemma_less_traded_later(s, j, k);
    lemma_less_traded_later(s, 0, n - 1);
    lemma_quantity(s, j);
    lemma_quantity(s, k);
    let total = params.total_quantity.0 as int;
    let d = s.sinh_multiple((n + 1) as nat);
    let f = s.sinh_multiple((n - j) as nat);
    lemma_sinh_ordered(s, (n - j) as nat, (n + 1) as nat);
    let q = s.quantity(j);
    assert(q <= total) by (nonlinear_arith)
        requires
            q * d <= total * f,
            0 <= f <= d,
            d > 0,
            total >= 0,
    ;
}

proof fn lemma_less_traded_later(s: AlmgrenChrissSolver, j: int, k: int)
    requires
        s.sinh_coeff.0 > 0,
        s.cosh_coeff.0 >= SCALE,
        s.params.total_quantity.0 >= 0,
        0 <= j <= k < s.params.num_intervals,
    ensures
        s.quantity(k) <= s.quantity(j),
{
    let n = s.params.num_intervals as int;
    let total = s.params.total_quantity.0 as int;
    let d = s.sinh_multiple((n + 1) as nat);
    let (a, b) = (s.sinh_multiple((n - k) as nat), s.sinh_multiple((n - j) as nat));
    lemma_sinh_ordered(s, 0, (n + 1) as nat);
    lemma_sinh_ordered(s, (n - k) as nat, (n - j) as nat);
    lemma_product(total, a);
    lemma_product(total, b);
    let (p, r) = (product(total, a), product(total, b));
    assert(p <= r) by (nonlinear_arith)
        requires
            p * SCALE <= total * a,
            total * b < (r + 1) * SCALE,
            0 <= a <= b,
            total >= 0,
            SCALE == 1_000_000_000_000,
    ;
    lemma_ratio(p, d);
    lemma_ratio(r, d);
    let (x, y) = (ratio(p, d), ratio(r, d));
    assert(x <= y) by (nonlinear_arith)
        requires
            x * d <= p * SCALE,
            r * SCALE < (y + 1) * d,
            p <= r,
            d > 0,
            SCALE == 1_000_000_000_000,
    ;
}

/// The quantity of interval `k`, where the total stands before the first interval and nothing
/// behind the last.
pub open spec fn traded_around(t: ExecutionTrajectory, total: int, k: int) -> int {
    if k < 0 {
        total
    } else if k >= t.quantities@.len() {
        0
    } else {
        t.quantities@[k].0 as int
    }
}

/// A trajectory is optimal: but for what rounding leaves, the quantities before and after an
/// interval add up to twice the hyperbolic cosine of kappa times its own, from the total before
/// the first interval to nothing behind the last.
pub proof fn law_trajectory_is_optimal(
    s: AlmgrenChrissSolver,
    params: AlmgrenChrissParams,
    t: ExecutionTrajectory,
    k: int,
)
    requires
        solves(s, params),
        s.is_trajectory(t),
        s.kappa.0 > 0,
        params.total_quantity.0 > 0,
        0 <= k < params.num_intervals,
    ensures
        ({
            let total = params.total_quantity.0 as int;
            let cosh = s.cosh_coeff.0 as int;
            let d = s.sinh_multiple((params.num_intervals + 1) as nat);
            let around = traded_around(t, total, k - 1) + traded_around(t, total, k + 1);
            let gap = SCALE * around - 2 * cosh * traded_around(t, total, k);
            &&& d > 0
            &&& -(SCALE * total + 2 * SCALE * (SCALE + d)) <= gap * d <= 2 * cosh * (SCALE + d)
        }),
{
    lemma_constants(params);
    let n = params.num_intervals as int;
    let total = params.total_quantity.0 as int;
    let cosh = s.cosh_coeff.0 as int;
    let g = 2 * cosh;
    let d = s.sinh_multiple((n + 1) as nat);
    let i = (n - k) as nat;
    let (lo, mid, hi) = (
        s.sinh_multiple((i - 1) as nat),
        s.sinh_multiple(i),
        s.sinh_multiple(i + 1),
    );
    lemma_growth(s);
    lemma_quantity(s, k);
    lemma_sinh_ordered(s, 0, i);
    lemma_product(g, mid);
    assert(hi == product(g, mid) - lo);
    let (a, b, c) = (
        traded_around(t, total, k - 1),
        traded_around(t, total, k),
        traded_around(t, total, k + 1),
    );
    if k > 0 {
        lemma_quantity(s, k - 1);
    }
    lemma_quantity(s, k + 1);
    if k + 1 == n {
        assert(lo == 0);
    }
    assert(a * d <= total * hi < a * d + SCALE + d) by {
        if k == 0 {
            assert(hi == d);
        }
    }
    assert(b * d <= total * mid < b * d + SCALE + d);
    assert(c * d <= total * lo < c * d + SCALE + d) by {
        if k + 1 == n {
            assert(c == 0 && lo == 0);
            assert(c * d == 0 && total * lo == 0);
        }
    }
    let p = product(g, mid);
    let (ea, eb, ec) = (total * hi - a * d, total * mid - b * d, total * lo - c * d);
    let e = g * mid - p * SCALE;
    let gap = SCALE * (a + c) - g * b;
    assert(gap * d == SCALE * (a * d + c * d) - g * (b * d)) by (nonlinear_arith)
        requires
            gap == SCALE * (a + c) - g * b,
    ;
    assert(g * (b * d) == g * (total * mid) - g * eb) by (nonlinear_arith)
        requires
            eb == total * mid - b * d,
    ;
    assert(g * (total * mid) == total * (g * mid)) by (nonlinear_arith);
    assert(total * e == total * (g * mid) - total * (p * SCALE)) by (nonlinear_arith)
        requires
            e == g * mid - p * SCALE,
    ;
    assert(total * (p * SCALE) == SCALE * (total * hi + total * lo)) by (nonlinear_arith)
        requires
            hi == p - lo,
    ;
    assert(SCALE * (a * d + c * d) == SCALE * (total * hi + total * lo) - SCALE * (ea + ec))
        by (nonlinear_arith)
        requires
            ea == total * hi - a * d,
            ec == total * lo - c * d,
    ;
    assert(0 <= e < SCALE) by {
        assert((p + 1) * SCALE == p * SCALE + SCALE) by (nonlinear_arith);
    }
    assert(0 <= total * e <= SCALE * total) by (nonlinear_arith)
        requires
            0 <= e < SCALE,
            total > 0,
    ;
    assert(0 <= SCALE * (ea + ec) <= 2 * SCALE * (SCALE + d)) by (nonlinear_arith)
        requires
            0 <= ea < SCALE + d,
            0 <= ec < SCALE + d,
            SCALE == 1_000_000_000_000,
    ;
    assert(0 <= g * eb <= g * (SCALE + d)) by (nonlinear_arith)
        requires
            0 <= eb < SCALE + d,
            g >= 0,
    ;
}

/// Without urgency every interval trades the same, the total over their number.
pub proof fn law_patient_trajectory_is_even(
    s: AlmgrenChrissSolver,
    params: AlmgrenChrissParams,
    t: ExecutionTrajectory,
    k: int,
)
    requires
        solves(s, params),
        s.is_trajectory(t),
        s.kappa.0 == 0,
        params.total_quantity.0 >= 0,
        0 <= k < params.num_intervals,
    ensures
        t.quantities@[k].0 * params.num_intervals <= params.total_quantity.0,
        params.total_quantity.0 < (t.quantities@[k].0 + 1) * params.num_intervals,
{
    let n = params.num_intervals as int;
    assert(product(0, 0) == 0);
    assert(ratio(0, SIX as int) == 0);
    lemma_flat(s, (n + 1) as nat);
    let total = params.total_quantity.0 as int;
    lemma_ratio(total, params.intervals());
    let q = ratio(total, params.intervals());
    assert(q * n <= total < (q + 1) * n) by (nonlinear_arith)
        requires
            q * (n * SCALE) <= total * SCALE < (q + 1) * (n * SCALE),
            SCALE == 1_000_000_000_000,
    ;
}

proof fn lemma_flat(s: AlmgrenChrissSolver, i: nat)
    requires
        s.sinh_coeff.0 == 0,
    ensures
        s.sinh_multiple(i) == 0,
    decreases i,
{
    if i >= 2 {
        lemma_flat(s, (i - 1) as nat);
        lemma_flat(s, (i - 2) as nat);
        assert(s.growth() * 0 == 0) by (nonlinear_arith);
    }
}

/// The trading rate is the total over the time horizon.
pub proof fn law_trading_rate_spends_the_horizon(s: AlmgrenChrissSolver, t: ExecutionTrajectory)
    requires
        s.is_trajectory(t),
        s.params.total_quantity.0 >= 0,
        s.params.time_horizon.0 > 0,
    ensures
        t.trading_rate.0 * s.params.time_horizon.0 <= s.params.total_quantity.0 * SCALE,
        s.params.total_quantity.0 * SCALE < (t.trading_rate.0 + 1) * s.params.time_horizon.0,
{
    lemma_ratio(s.params.total_quantity.0 as int, s.params.time_horizon.0 as int);
}

/// What an interval costs, times its length, is eta times its quantity squared, but for what
/// rounding leaves.
proof fn lemma_impact(s: AlmgrenChrissSolver, k: int)
    requires
        s.params.eta.0 >= 0,
        s.dt.0 > 0,
        s.quantity(k) >= 0,
    ensures
        ({
            let (eta, dt, q) = (s.params.eta.0 as int, s.dt.0 as int, s.quantity(k));
            let r = s.impact(k);
            &&& r >= 0
            &&& r * dt * SCALE <= eta * q * q
            &&& eta * q * q < r * dt * SCALE + SCALE * q + SCALE * SCALE + dt * SCALE
        }),
{
    let (eta, dt, q) = (s.params.eta.0 as int, s.dt.0 as int, s.quantity(k));
    lemma_product(eta, q);
    let a = product(eta, q);
    lemma_product(a, q);
    let b = product(a, q);
    lemma_ratio(b, dt);
    let r = ratio(b, dt);
    assert(r * dt * SCALE <= eta * q * q && eta * q * q < r * dt * SCALE + SCALE * q + SCALE * SCALE
        + dt * SCALE) by (nonlinear_arith)
        requires
            a * SCALE <= eta * q < (a + 1) * SCALE,
            b * SCALE <= a * q < (b + 1) * SCALE,
            r * dt <= b * SCALE < (r + 1) * dt,
            q >= 0,
            dt > 0,
            SCALE == 1_000_000_000_000,
    ;
}

proof fn lemma_cost(s: AlmgrenChrissSolver, k: nat)
    requires
        s.params.eta.0 >= 0,
        s.dt.0 > 0,
        forall|j: int| 0 <= j < k ==> #[trigger] s.quantity(j) >= 0,
    ensures
        ({
            let (eta, dt) = (s.params.eta.0 as int, s.dt.0 as int);
            let squares = crate::tally::sum(k, |j: int| s.quantity(j) * s.quantity(j));
            let all = crate::tally::sum(k, |j: int| s.quantity(j));
            &&& s.cost(k) >= 0
            &&& s.cost(k) * dt * SCALE <= eta * squares
            &&& eta * squares <= s.cost(k) * dt * SCALE + SCALE * all + k * (SCALE * SCALE + dt
                * SCALE)
        }),
    decreases k,
{
    if k > 0 {
        let m = (k - 1) as nat;
        lemma_cost(s, m);
        assert(s.quantity(m as int) >= 0);
        lemma_impact(s, m as int);
        let (eta, dt) = (s.params.eta.0 as int, s.dt.0 as int);
        let q = s.quantity(m as int);
        let squares = crate::tally::sum(m, |j: int| s.quantity(j) * s.quantity(j));
        let all = crate::tally::sum(m, |j: int| s.quantity(j));
        let (c, r) = (s.cost(m), s.impact(m as int));
        assert(eta * (squares + q * q) == eta * squares + eta * q * q) by (nonlinear_arith);
        assert((c + r) * dt * SCALE == c * dt * SCALE + r * dt * SCALE) by (nonlinear_arith);
        assert(SCALE * (all + q) == SCALE * all + SCALE * q) by (nonlinear_arith);
        assert(k * (SCALE * SCALE + dt * SCALE) == m * (SCALE * SCALE + dt * SCALE) + (SCALE * SCALE
            + dt * SCALE)) by (nonlinear_arith)
            requires
                k == m + 1,
        ;
    } else {
        let (eta, dt) = (s.params.eta.0 as int, s.dt.0 as int);
        assert(eta * 0 == 0 && 0 * dt * SCALE == 0 && SCALE * 0 == 0 && 0 * (SCALE * SCALE + dt
            * SCALE) == 0) by (nonlinear_arith);
    }
}

/// The expected cost of a trajectory is half of eta times the squares of its quantities over the
/// length of an interval, but for what rounding leaves.
pub proof fn law_impact_cost_is_quadratic(
    s: AlmgrenChrissSolver,
    params: AlmgrenChrissParams,
    t: ExecutionTrajectory,
)
    requires
        solves(s, params),
        s.is_trajectory(t),
        s.kappa.0 > 0,
        params.total_quantity.0 > 0,
        params.eta.0 >= 0,
        s.dt.0 > 0,
    ensures
        ({
            let n = params.num_intervals as nat;
            let (eta, dt) = (params.eta.0 as int, s.dt.0 as int);
            let e = t.expected_impact_cost.0 as int;
            let squares = crate::tally::sum(
                n,
                |j: int| t.quantities@[j].0 * t.quantities@[j].0,
            );
            let all = crate::tally::sum(n, |j: int| t.quantities@[j].0 as int);
            &&& 2 * e * dt * SCALE <= eta * squares
            &&& eta * squares <= (2 * e + 2) * dt * SCALE + SCALE * all + n * (SCALE * SCALE + dt
                * SCALE)
        }),
{
    lemma_constants(params);
    let n = params.num_intervals as nat;
    assert forall|j: int| 0 <= j < n implies #[trigger] s.quantity(j) >= 0 by {
        lemma_quantity(s, j);
    }
    lemma_cost(s, n);
    crate::tally::lemma_sum_same(
        n,
        |j: int| t.quantities@[j].0 * t.quantities@[j].0,
        |j: int| s.quantity(j) * s.quantity(j),
    );
    crate::tally::lemma_sum_same(
        n,
        |j: int| t.quantities@[j].0 as int,
        |j: int| s.quantity(j),
    );
    let c = s.cost(n);
    lemma_ratio(c, TWO as int);
    let e = ratio(c, TWO as int);
    let dt = s.dt.0 as int;
    assert(2 * e <= c < 2 * e + 2) by (nonlinear_arith)
        requires
            e * TWO <= c * SCALE < (e + 1) * TWO,
            TWO == 2_000_000_000_000,
            SCALE == 1_000_000_000_000,
    ;
    assert(2 * e * dt * SCALE <= c * dt * SCALE <= (2 * e + 2) * dt * SCALE) by (nonlinear_arith)
        requires
            2 * e <= c < 2 * e + 2,
            dt > 0,
            SCALE == 1_000_000_000_000,
    ;
}

/// The intervals divide the time horizon, rounded down.
pub proof fn law_intervals_divide_the_horizon(params: AlmgrenChrissParams)
    requires
        params.time_horizon.0 >= 0,
        params.num_intervals > 0,
    ensures
        params.dt() * params.num_intervals <= params.time_horizon.0,
        params.time_horizon.0 < (params.dt() + 1) * params.num_intervals,
{
    let n = params.num_intervals as int;
    let total = params.time_horizon.0 as int;
    assert(n * SCALE > 0) by (nonlinear_arith)
        requires
            n > 0,
            SCALE == 1_000_000_000_000,
    ;
    lemma_ratio(total, params.intervals());
    let q = params.dt();
    assert(q * n <= total < (q + 1) * n) by (nonlinear_arith)
        requires
            q * (n * SCALE) <= total * SCALE < (q + 1) * (n * SCALE),
            SCALE == 1_000_000_000_000,
    ;
}

/// Kappa squared is eta times sigma squared times lambda times the interval squared, over twice
/// gamma, but for what rounding leaves.
pub proof fn law_kappa_weighs_risk_against_impact(params: AlmgrenChrissParams)
    requires
        params.eta.0 >= 0,
        params.sigma.0 >= 0,
        params.lambda.0 >= 0,
        params.gamma.0 > 0,
        params.dt() >= 0,
    ensures
        ({
            let k = params.kappa();
            let (eta, sigma, lambda, gamma, dt) = (
                params.eta.0 as int,
                params.sigma.0 as int,
                params.lambda.0 as int,
                params.gamma.0 as int,
                params.dt(),
            );
            let noise = params.noise();
            let risk = params.risk();
            &&& noise * SCALE * SCALE <= eta * sigma * sigma
            &&& eta * sigma * sigma < (noise + 1) * SCALE * SCALE + SCALE * sigma
            &&& risk * SCALE * SCALE <= lambda * dt * dt
            &&& lambda * dt * dt < (risk + 1) * SCALE * SCALE + SCALE * dt
            &&& k * k * 2 * gamma <= noise * risk * SCALE
            &&& noise * risk * SCALE < (k + 1) * (k + 1) * 2 * gamma + 2 * gamma * SCALE + SCALE
                * SCALE
        }),
{
    let (eta, sigma, lambda, gamma, dt) = (
        params.eta.0 as int,
        params.sigma.0 as int,
        params.lambda.0 as int,
        params.gamma.0 as int,
        params.dt(),
    );
    lemma_two_products(eta, sigma);
    lemma_two_products(lambda, dt);
    let noise = params.noise();
    let risk = params.risk();
    lemma_product(noise, risk);
    let num = product(noise, risk);
    let den = product(TWO as int, gamma);
    assert((TWO * gamma) / (SCALE as int) == 2 * gamma) by (nonlinear_arith)
        requires
            TWO == 2_000_000_000_000,
            SCALE == 1_000_000_000_000,
    ;
    assert(den == 2 * gamma);
    lemma_ratio(num, den);
    let x = params.kappa_squared();
    let k = params.kappa();
    if x > 0 {
        assert(x * SCALE > 0) by (nonlinear_arith)
            requires
                x > 0,
                SCALE == 1_000_000_000_000,
        ;
        let r = lemma_has_root(x * SCALE);
        assert(is_root(root_of(x * SCALE), x * SCALE));
    }
    assert(k * k <= x * SCALE < (k + 1) * (k + 1)) by {
        if x == 0 {
            assert(k * k == 0 && (k + 1) * (k + 1) == 1) by (nonlinear_arith)
                requires
                    k == 0,
            ;
        }
    }
    assert(k * k * 2 * gamma <= noise * risk * SCALE) by (nonlinear_arith)
        requires
            k * k <= x * SCALE,
            x * (2 * gamma) <= num * SCALE,
            num * SCALE <= noise * risk,
            gamma > 0,
            SCALE == 1_000_000_000_000,
    ;
    assert(noise * risk * SCALE < (k + 1) * (k + 1) * 2 * gamma + 2 * gamma * SCALE + SCALE * SCALE)
        by (nonlinear_arith)
        requires
            x * SCALE < (k + 1) * (k + 1),
            num * SCALE < (x + 1) * (2 * gamma),
            noise * risk < (num + 1) * SCALE,
            gamma > 0,
            SCALE == 1_000_000_000_000,
    ;
}

proof fn lemma_two_products(a: int, b: int)
    requires
        a >= 0,
        b >= 0,
    ensures
        ({
            let v = product(product(a, b), b);
            &&& v >= 0
            &&& v * SCALE * SCALE <= a * b * b
            &&& a * b * b < (v + 1) * SCALE * SCALE + SCALE * b
        }),
{
    lemma_product(a, b);
    let u = product(a, b);
    lemma_product(u, b);
    let v = product(u, b);
    assert(v * SCALE * SCALE <= a * b * b && a * b * b < (v + 1) * SCALE * SCALE + SCALE * b)
        by (nonlinear_arith)
        requires
            u * SCALE <= a * b < (u + 1) * SCALE,
            v * SCALE <= u * b < (v + 1) * SCALE,
            b >= 0,
            SCALE == 1_000_000_000_000,
    ;
}

/// The hyperbolic sine of kappa is kappa and a sixth of its cube, its hyperbolic cosine one and
/// half of its square, but for what rounding leaves.
pub proof fn law_hyperbolic_functions_are_approximated(params: AlmgrenChrissParams)
    ensures
        ({
            let k = params.kappa();
            let s = params.sinh() - k;
            let c = params.cosh() - SCALE;
            &&& 6 * s * SCALE * SCALE <= k * k * k
            &&& k * k * k < (6 * s + 7) * SCALE * SCALE + SCALE * k
            &&& 2 * c * SCALE <= k * k < (2 * c + 3) * SCALE
        }),
{
    lemma_constants(params);
    let k = params.kappa();
    lemma_two_products(k, k);
    lemma_product(k, k);
    let sq = product(k, k);
    let cube = product(sq, k);
    lemma_ratio(cube, SIX as int);
    lemma_ratio(sq, TWO as int);
    let s = ratio(cube, SIX as int);
    let c = ratio(sq, TWO as int);
    assert(6 * s <= cube < 6 * s + 6) by (nonlinear_arith)
        requires
            s * SIX <= cube * SCALE < (s + 1) * SIX,
            SIX == 6_000_000_000_000,
            SCALE == 1_000_000_000_000,
    ;
    assert(2 * c <= sq < 2 * c + 2) by (nonlinear_arith)
        requires
            c * TWO <= sq * SCALE < (c + 1) * TWO,
            TWO == 2_000_000_000_000,
            SCALE == 1_000_000_000_000,
    ;
    assert(6 * s * SCALE * SCALE <= k * k * k && k * k * k < (6 * s + 7) * SCALE * SCALE + SCALE * k)
        by (nonlinear_arith)
        requires
            6 * s <= cube < 6 * s + 6,
            cube * SCALE * SCALE <= k * k * k,
            k * k * k < (cube + 1) * SCALE * SCALE + SCALE * k,
            SCALE == 1_000_000_000_000,
    ;
    assert(2 * c * SCALE <= k * k < (2 * c + 3) * SCALE) by (nonlinear_arith)
        requires
            2 * c <= sq < 2 * c + 2,
            sq * SCALE <= k * k < (sq + 1) * SCALE,
            SCALE == 1_000_000_000_000,
    ;
}

/// The size of a number.
pub open spec fn size(x: int) -> int {
    if x >= 0 {
        x
    } else {
        -x
    }
}

/// What an interval adds to the variance is the weight times what is left, squared, but for what
/// rounding leaves.
proof fn lemma_spread(s: AlmgrenChrissSolver, k: nat)
    requires
        s.sigma_sq_dt() >= 0,
    ensures
        ({
            let (b, left, v) = (s.sigma_sq_dt(), s.remaining(k), s.spread(k));
            &&& v >= 0
            &&& v * SCALE * SCALE <= b * left * left
            &&& b * left * left < (v + 1) * SCALE * SCALE + SCALE * size(left)
        }),
{
    let (b, left) = (s.sigma_sq_dt(), s.remaining(k));
    lemma_two_products(b, size(left));
    if left < 0 {
        let m = -left;
        let c = product(b, left);
        assert(b * left == -(b * m)) by (nonlinear_arith)
            requires
                m == -left,
        ;
        assert(b * m >= 0) by (nonlinear_arith)
            requires
                b >= 0,
                m > 0,
        ;
        assert(c == -product(b, m)) by {
            if b * left == 0 {
                assert(c == 0 && product(b, m) == 0);
            }
        }
        assert(c * left == product(b, m) * m) by (nonlinear_arith)
            requires
                c == -product(b, m),
                m == -left,
        ;
        assert(b * left * left == b * m * m) by (nonlinear_arith)
            requires
                m == -left,
        ;
    }
}

proof fn lemma_variance(s: AlmgrenChrissSolver, k: nat)
    requires
        s.sigma_sq_dt() >= 0,
    ensures
        ({
            let b = s.sigma_sq_dt();
            let squares = crate::tally::sum(
                k,
                |j: int| s.remaining(j as nat) * s.remaining(j as nat),
            );
            let sizes = crate::tally::sum(k, |j: int| size(s.remaining(j as nat)));
            &&& s.variance(k) * SCALE * SCALE <= b * squares
            &&& b * squares <= (s.variance(k) + k) * SCALE * SCALE + SCALE * sizes
        }),
    decreases k,
{
    let b = s.sigma_sq_dt();
    if k > 0 {
        let m = (k - 1) as nat;
        lemma_variance(s, m);
        lemma_spread(s, m);
        let (left, v) = (s.remaining(m), s.spread(m));
        let squares = crate::tally::sum(m, |j: int| s.remaining(j as nat) * s.remaining(j as nat));
        let sizes = crate::tally::sum(m, |j: int| size(s.remaining(j as nat)));
        let before = s.variance(m);
        assert(b * (squares + left * left) == b * squares + b * left * left) by (nonlinear_arith);
        assert((before + v) * SCALE * SCALE == before * SCALE * SCALE + v * SCALE * SCALE)
            by (nonlinear_arith);
        assert((before + v + k) * SCALE * SCALE == (before + m) * SCALE * SCALE + (v + 1) * SCALE
            * SCALE) by (nonlinear_arith)
            requires
                k == m + 1,
        ;
        assert(SCALE * (sizes + size(left)) == SCALE * sizes + SCALE * size(left))
            by (nonlinear_arith);
    } else {
        assert(b * 0 == 0) by (nonlinear_arith);
    }
}

/// What is left before interval `k` is the total less what was traded in the intervals before.
proof fn lemma_remaining(s: AlmgrenChrissSolver, t: ExecutionTrajectory, k: nat)
    requires
        s.is_trajectory(t),
        k <= s.params.num_intervals,
    ensures
        s.remaining(k) == s.params.total_quantity.0 - crate::tally::sum(
            k,
            |j: int| t.quantities@[j].0 as int,
        ),
    decreases k,
{
    if k > 0 {
        lemma_remaining(s, t, (k - 1) as nat);
        assert(t.quantities@[k - 1].0 == s.quantity(k - 1));
    }
}

/// The variance of a trajectory is sigma squared times the interval times the squares of what is
/// left before each interval, but for what rounding leaves.
pub proof fn law_variance_is_quadratic_in_what_is_left(s: AlmgrenChrissSolver, t: ExecutionTrajectory)
    requires
        s.is_trajectory(t),
        s.params.sigma.0 >= 0,
        s.dt.0 >= 0,
    ensures
        ({
            let n = s.params.num_intervals as nat;
            let (sigma, dt, b) = (s.params.sigma.0 as int, s.dt.0 as int, s.sigma_sq_dt());
            let left = |k: int|
                s.params.total_quantity.0 - crate::tally::sum(
                    k as nat,
                    |j: int| t.quantities@[j].0 as int,
                );
            let squares = crate::tally::sum(n, |k: int| left(k) * left(k));
            let sizes = crate::tally::sum(n, |k: int| size(left(k)));
            &&& t.variance.0 * SCALE * SCALE <= b * squares
            &&& b * squares <= (t.variance.0 + n) * SCALE * SCALE + SCALE * sizes
            &&& b * SCALE * SCALE <= sigma * sigma * dt
            &&& sigma * sigma * dt < (b + 1) * SCALE * SCALE + SCALE * dt
        }),
{
    let n = s.params.num_intervals as nat;
    let (sigma, dt, b) = (s.params.sigma.0 as int, s.dt.0 as int, s.sigma_sq_dt());
    lemma_product(sigma, sigma);
    let a = product(sigma, sigma);
    lemma_product(a, dt);
    assert(b * SCALE * SCALE <= sigma * sigma * dt && sigma * sigma * dt < (b + 1) * SCALE * SCALE
        + SCALE * dt) by (nonlinear_arith)
        requires
            a * SCALE <= sigma * sigma < (a + 1) * SCALE,
            b * SCALE <= a * dt < (b + 1) * SCALE,
            dt >= 0,
            SCALE == 1_000_000_000_000,
    ;
    lemma_variance(s, n);
    let left = |k: int|
        s.params.total_quantity.0 - crate::tally::sum(
            k as nat,
            |j: int| t.quantities@[j].0 as int,
        );
    assert forall|k: int| 0 <= k < n implies #[trigger] left(k) == s.remaining(k as nat) by {
        lemma_remaining(s, t, k as nat);
    }
    crate::tally::lemma_sum_same(
        n,
        |k: int| left(k) * left(k),
        |j: int| s.remaining(j as nat) * s.remaining(j as nat),
    );
    crate::tally::lemma_sum_same(
        n,
        |k: int| size(left(k)),
        |j: int| size(s.remaining(j as nat)),
    );
}

/// The expected shortfall of a liquidation in time `t` is the sum of three costs: half of gamma
/// times the quantity squared, eta times the quantity squared over the time, and half of lambda
/// times sigma squared times the quantity times the time, but for what rounding leaves of each.
pub proof fn law_shortfall_adds_three_costs(s: AlmgrenChrissSolver, t: int) -> (parts: (int, int, int))
    requires
        t > 0,
        s.params.gamma.0 >= 0,
        s.params.eta.0 >= 0,
        s.params.lambda.0 >= 0,
        s.params.sigma.0 >= 0,
        s.params.total_quantity.0 >= 0,
    ensures
        ({
            let q = s.params.total_quantity.0 as int;
            let (gamma, eta, lambda, sigma) = (
                s.params.gamma.0 as int,
                s.params.eta.0 as int,
                s.params.lambda.0 as int,
                s.params.sigma.0 as int,
            );
            let (held, hurried, risked) = parts;
            &&& s.shortfall(t) == held + hurried + risked
            &&& 2 * held * SCALE * SCALE <= gamma * q * q
            &&& gamma * q * q < (2 * held + 3) * SCALE * SCALE + SCALE * q
            &&& hurried * t * SCALE <= eta * q * q
            &&& eta * q * q < (hurried + 1) * t * SCALE + SCALE * SCALE + SCALE * q
            &&& 2 * risked * SCALE <= s.risk_q() * t < (2 * risked + 3) * SCALE
            &&& s.risk_q() * SCALE * SCALE * SCALE <= lambda * sigma * sigma * q
            &&& lambda * sigma * sigma * q <= (s.risk_q() + 1) * SCALE * SCALE * SCALE + (SCALE
                * SCALE + SCALE * sigma) * q
        }),
{
    let q = s.params.total_quantity.0 as int;
    let (gamma, eta, lambda, sigma) = (
        s.params.gamma.0 as int,
        s.params.eta.0 as int,
        s.params.lambda.0 as int,
        s.params.sigma.0 as int,
    );
    lemma_two_products(gamma, q);
    lemma_two_products(eta, q);
    lemma_two_products(lambda, sigma);
    let (g, e) = (s.gamma_q_sq(), s.eta_q_sq());
    lemma_ratio(g, TWO as int);
    lemma_ratio(e, t);
    let v = product(product(lambda, sigma), sigma);
    lemma_product(v, q);
    let r = s.risk_q();
    lemma_product(r, t);
    let p = product(r, t);
    lemma_ratio(p, TWO as int);
    let (held, hurried, risked) = (ratio(g, TWO as int), ratio(e, t), ratio(p, TWO as int));
    assert(2 * held <= g < 2 * held + 2 && 2 * risked <= p < 2 * risked + 2) by (nonlinear_arith)
        requires
            held * TWO <= g * SCALE < (held + 1) * TWO,
            risked * TWO <= p * SCALE < (risked + 1) * TWO,
            TWO == 2_000_000_000_000,
            SCALE == 1_000_000_000_000,
    ;
    assert(2 * held * SCALE * SCALE <= gamma * q * q && gamma * q * q < (2 * held + 3) * SCALE * SCALE
        + SCALE * q) by (nonlinear_arith)
        requires
            2 * held <= g < 2 * held + 2,
            g * SCALE * SCALE <= gamma * q * q,
            gamma * q * q < (g + 1) * SCALE * SCALE + SCALE * q,
            SCALE == 1_000_000_000_000,
    ;
    assert(hurried * t * SCALE <= eta * q * q && eta * q * q < (hurried + 1) * t * SCALE + SCALE
        * SCALE + SCALE * q) by (nonlinear_arith)
        requires
            hurried * t <= e * SCALE < (hurried + 1) * t,
            e * SCALE * SCALE <= eta * q * q,
            eta * q * q < (e + 1) * SCALE * SCALE + SCALE * q,
            SCALE == 1_000_000_000_000,
    ;
    assert(2 * risked * SCALE <= r * t < (2 * risked + 3) * SCALE) by (nonlinear_arith)
        requires
            2 * risked <= p < 2 * risked + 2,
            p * SCALE <= r * t < (p + 1) * SCALE,
            SCALE == 1_000_000_000_000,
    ;
    assert(r * SCALE * SCALE * SCALE <= lambda * sigma * sigma * q) by (nonlinear_arith)
        requires
            r * SCALE <= v * q,
            v * SCALE * SCALE <= lambda * sigma * sigma,
            q >= 0,
            SCALE == 1_000_000_000_000,
    ;
    assert(lambda * sigma * sigma * q <= (r + 1) * SCALE * SCALE * SCALE + (SCALE * SCALE + SCALE
        * sigma) * q) by (nonlinear_arith)
        requires
            v * q < (r + 1) * SCALE,
            lambda * sigma * sigma < (v + 1) * SCALE * SCALE + SCALE * sigma,
            q >= 0,
            SCALE == 1_000_000_000_000,
    ;
    (held, hurried, risked)
}

/// A step of Newton's method goes the way that brings the shortfall nearer to the target: to later
/// times where it falls with time and is too high, or grows and is too low, and to earlier ones
/// otherwise; it stops only where the target is met to within a ten-thousandth, or the shortfall
/// is flat.
pub proof fn law_newton_steps_towards_the_target(s: AlmgrenChrissSolver, target: int, t: int)
    requires
        t > 0,
        ratio(t, s.params.intervals()) > 0,
    ensures
        ({
            let diff = s.shortfall(t) - target;
            match s.newton_step(target, t) {
                Some(next) => {
                    &&& next > 0
                    &&& size(diff) >= 100_000_000
                    &&& s.slope(t) < 0 && diff > 0 ==> next >= t
                    &&& s.slope(t) > 0 && diff < 0 ==> next >= t
                    &&& s.slope(t) < 0 && diff < 0 ==> next <= t || next == 1_000_000_000
                    &&& s.slope(t) > 0 && diff > 0 ==> next <= t || next == 1_000_000_000
                },
                None => size(diff) < 100_000_000 || s.slope(t) == 0,
            }
        }),
{
    let diff = s.shortfall(t) - target;
    let slope = s.slope(t);
    if slope != 0 {
        assert(diff > 0 ==> diff * SCALE > 0) by (nonlinear_arith)
            requires
                SCALE == 1_000_000_000_000,
        ;
        assert(diff < 0 ==> diff * SCALE < 0) by (nonlinear_arith)
            requires
                SCALE == 1_000_000_000_000,
        ;
        crate::numbers::lemma_quotient_bound(diff * SCALE, slope);
    }
}

} // verus!
