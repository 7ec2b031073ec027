use hft_core::doubles::{above, at_least, clamped, equal, larger, magnitude, negated, not_a_number, smaller};
use hft_core::forecast::arima::ARFIMA;
use hft_core::forecast::arma::OnlineARMA;
use hft_core::forecast::lags::{lag_source, LagBuffer, LagSource};
use hft_core::hedging::beta_tracker::{
    BetaAdjustedReturn, MultiAssetBetaTracker, OnlineCovariance, OnlineStats, RollingBetaCalculator,
};
use hft_core::hedging::cross_margin::{
    diversification_discount, net_sides, AssetClass, CapitalEfficiencyCalculator, CrossMarginEngine,
    MarginFigures, MarginResult, MarginTerm, MarginWarningLevel, Netting, Position, PositionSide,
    RiskParameters, SideSums,
};
use hft_core::hedging::risk_bus::{HedgeAction, HedgingStrategy, RiskBusIntegration};
use hft_core::impact::almgren::{AlmgrenChrissParams, AlmgrenChrissSolver, FixedPoint, SCALE};
use hft_core::impact::engine::{ExecutionMonitor, ImpactConfig, ImpactEngine, SignalFigures};
use hft_core::impact::square_root::{
    BatchImpactCalculator, Observed, SquareRootConfig, SquareRootImpactModel, TradeObservation,
};

fn bits(x: f64) -> u64 {
    x.to_bits()
}

#[test]
fn doubles_compare_by_their_bits() {
    let all = [f64::NEG_INFINITY, -2.5, -0.0, 0.0, 1e-310, 1.0, 7.25, f64::INFINITY, f64::NAN];
    for a in all {
        for b in all {
            assert_eq!(above(bits(a), bits(b)), a > b);
            assert_eq!(at_least(bits(a), bits(b)), a >= b);
            assert_eq!(equal(bits(a), bits(b)), a == b);
            if a != b || a.is_sign_negative() == b.is_sign_negative() {
                let max = f64::from_bits(larger(bits(a), bits(b)));
                assert!(max == a.max(b) || (max.is_nan() && a.max(b).is_nan()));
                let min = f64::from_bits(smaller(bits(a), bits(b)));
                assert!(min == a.min(b) || (min.is_nan() && a.min(b).is_nan()));
            }
        }
        assert_eq!(negated(bits(a)), bits(-a));
        assert_eq!(magnitude(bits(a)), bits(a.abs()));
        assert_eq!(not_a_number(bits(a)), a.is_nan());
    }
    assert_eq!(clamped(bits(5.0), bits(0.0), bits(1.0)), bits(1.0));
    assert_eq!(clamped(bits(-5.0), bits(0.0), bits(1.0)), bits(0.0));
    assert_eq!(clamped(bits(0.5), bits(0.0), bits(1.0)), bits(0.5));
}

fn fixed(x: f64) -> FixedPoint {
    FixedPoint((x * SCALE as f64) as i128)
}

fn to_f64(x: FixedPoint) -> f64 {
    x.0 as f64 / SCALE as f64
}

#[test]
fn test_fixed_point_basic() {
    let a = fixed(2.5);
    let b = fixed(4.0);

    let sum = a.add(b);
    assert!((to_f64(sum) - 6.5).abs() < 0.0001);

    let prod = a.mul(b);
    assert!((to_f64(prod) - 10.0).abs() < 0.01);
}

#[test]
fn test_fixed_point_sqrt() {
    let val = fixed(4.0);
    let sqrt_val = val.sqrt_newton();
    assert!((to_f64(sqrt_val) - 2.0).abs() < 0.01);

    let val2 = fixed(2.0);
    let sqrt_val2 = val2.sqrt_newton();
    assert!((to_f64(sqrt_val2) - 1.414).abs() < 0.01);
}

#[test]
fn square_root_of_any_size() {
    assert_eq!(fixed(2.0).sqrt_newton().0, 1_414_213_562_373);
    assert_eq!(FixedPoint(1).sqrt_newton().0, 1_000_000);
    assert_eq!(FixedPoint(3).sqrt_newton().0, 1_732_050);
    assert_eq!(FixedPoint(-4).sqrt_newton().0, 0);
    assert_eq!(FixedPoint(10i128.pow(36)).sqrt_newton().0, 10i128.pow(24));
    assert_eq!(FixedPoint(i128::MAX).sqrt_newton().0, 13_043_817_825_332_782_212_349_571);
}

fn trajectory_params() -> AlmgrenChrissParams {
    AlmgrenChrissParams {
        total_quantity: FixedPoint::from_i64(10000),
        time_horizon: fixed(3600.0),
        num_intervals: 10,
        eta: fixed(1e-6),
        sigma: fixed(0.02),
        lambda: fixed(1e-5),
        gamma: fixed(1e-7),
    }
}

#[test]
fn test_almgren_chriss_solver() {
    let solver = AlmgrenChrissSolver::new(trajectory_params());
    let trajectory = solver.calculate_trajectory();

    assert_eq!(trajectory.quantities.len(), 10);
    assert!(trajectory.trading_rate.is_positive());
}

#[test]
fn test_optimal_time_solver() {
    let params = AlmgrenChrissParams {
        total_quantity: FixedPoint::from_i64(5000),
        time_horizon: fixed(1800.0),
        num_intervals: 5,
        eta: fixed(1e-6),
        sigma: fixed(0.03),
        lambda: fixed(1e-5),
        gamma: fixed(1e-7),
    };

    let solver = AlmgrenChrissSolver::new(params);
    let target = fixed(100.0);
    let opt_time = solver.solve_optimal_time(target);

    assert!(opt_time.is_positive());
}

#[test]
fn fixed_point_edges() {
    assert_eq!(FixedPoint::from_i64(-7).to_i64(), -7);
    assert_eq!(FixedPoint::zero().0, 0);
    assert_eq!(FixedPoint::one().mul(fixed(3.0)).0, fixed(3.0).0);
    assert_eq!(fixed(3.0).div(fixed(2.0)).0, fixed(1.5).0);
    assert_eq!(fixed(3.0).sub(fixed(5.0)).neg().0, fixed(2.0).0);
    assert_eq!(fixed(1.0).div(FixedPoint::zero()).0, 0);
    assert!(FixedPoint(i128::MAX).checked_div(FixedPoint(1)).is_none());
    assert!(FixedPoint(i128::MAX).checked_add(FixedPoint(1)).is_none());
    assert!(FixedPoint(i128::MAX).checked_mul(FixedPoint(2)).is_none());
    assert!(FixedPoint(i128::MIN).checked_sub(FixedPoint(1)).is_none());
}

#[test]
fn test_impact_engine_basic() {
    let config = ImpactConfig {
        almgren_params: trajectory_params(),
        square_root_config: SquareRootConfig::default(),
        model_blend_weight: bits(0.5),
    };
    let mut engine = ImpactEngine::new(config);

    let signal = engine.get_signal();
    assert_eq!(f64::from_bits(signal.twap_multiplier), 1.0);

    for i in 0..15 {
        let obs = TradeObservation::new(10000, bits(50000.0), bits(50000.0 * 1.001), true, i * 1000000);
        engine.add_trade_observation(obs);
    }
    let sr_impact = f64::from_bits(engine.square_root_model().alpha()) * 0.1;
    let blended = sr_impact * 0.5;
    assert_eq!(engine.baseline_cost(), FixedPoint::zero());
    engine.update_signal(SignalFigures {
        ac_impact: bits(0.0),
        sr_impact: bits(sr_impact),
        blended_impact: bits(blended),
        raw_urgency: bits(blended * 10.0),
        twap_multiplier: bits(1.0 / (1.0 + blended * 5.0)),
    });
    assert_eq!(f64::from_bits(engine.get_signal().urgency), (blended * 10.0).clamp(0.1, 0.9));

    let signal = engine.get_signal();
    assert!(f64::from_bits(signal.twap_multiplier) <= 1.0);
    assert_eq!(engine.square_root_model().observation_count(), 15);
    assert_eq!(engine.calculate_optimal_trajectory(trajectory_params()).unwrap().quantities.len(), 10);
    let cost = engine.last_trajectory.as_ref().unwrap().expected_impact_cost;
    assert_eq!(engine.baseline_cost(), cost);
    engine.reset();
    assert!(engine.last_trajectory.is_none());
    assert_eq!(engine.square_root_model().observation_count(), 0);
}

/// Records the slippage of a trade.
fn record(monitor: &mut ExecutionMonitor, expected: f64, actual: f64, is_buy: bool) {
    let (bought, sold) = ((actual - expected) / expected, (expected - actual) / expected);
    monitor.record_execution(is_buy, bits(bought), bits(sold));
}

#[test]
fn test_execution_monitor() {
    let mut monitor = ExecutionMonitor::new(10);
    monitor.set_expected_impact(bits(0.001));
    assert_eq!(monitor.avg_slippage(bits(f64::NAN)), bits(0.0));

    for _ in 0..5 {
        record(&mut monitor, 100.0, 100.05, true);
    }

    let all = monitor.slippage();
    let avg = all.iter().map(|&s| f64::from_bits(s)).sum::<f64>() / all.len() as f64;
    let avg = f64::from_bits(monitor.avg_slippage(bits(avg)));
    assert!(avg > 0.0);
    assert!(!monitor.is_underperforming(bits(avg), bits(0.001)));
    assert!(monitor.is_underperforming(bits(avg), bits(0.0001)));
    assert_eq!(monitor.slippage_variance(bits(0.25)), bits(0.25));
    for i in 0..20u64 {
        monitor.record_execution(i % 2 == 0, bits(-(i as f64)), bits(100.0 + i as f64));
    }
    assert_eq!(monitor.slippage().len(), 10);
    assert_eq!(monitor.slippage()[..2], [bits(10.0), bits(111.0)]);
    let mut single = ExecutionMonitor::new(3);
    record(&mut single, 50.0, 49.0, true);
    assert_eq!(single.slippage_variance(bits(0.25)), bits(0.0));
    assert_eq!(single.slippage()[0], bits(0.02));
}

/// Adds an observation to running statistics.
fn add_observation(stats: &mut OnlineStats, x: f64) {
    let n = (stats.count() + 1) as f64;
    let before = f64::from_bits(stats.mean());
    let mean = before + (x - before) / n;
    let m2 = f64::from_bits(stats.m2) + (x - before) * (x - mean);
    stats.update(bits(mean), bits(m2));
}

fn variance(stats: &OnlineStats) -> f64 {
    f64::from_bits(stats.variance(bits(f64::from_bits(stats.m2) / stats.count() as f64)))
}

#[test]
fn test_online_stats() {
    let mut stats = OnlineStats::new();

    assert_eq!(variance(&stats), 0.0);
    add_observation(&mut stats, 1.0);
    assert_eq!(stats.sample_variance(bits(7.0)), bits(0.0));
    add_observation(&mut stats, 2.0);
    add_observation(&mut stats, 3.0);

    assert_eq!(stats.count(), 3);
    assert!((f64::from_bits(stats.mean()) - 2.0).abs() < 1e-10);
    assert!((variance(&stats) - 0.6666666666666666).abs() < 1e-10);
    assert_eq!(stats.sample_variance(bits(1.0)), bits(1.0));
    stats.remove(bits(2.5), bits(-1e-18));
    assert_eq!((stats.count(), stats.mean(), stats.m2), (2, bits(2.5), bits(0.0)));
    stats.remove(bits(3.0), bits(0.5));
    assert_eq!((stats.count(), stats.m2), (1, bits(0.5)));
    stats.remove(bits(9.0), bits(9.0));
    assert_eq!(stats, OnlineStats::new());
    stats.remove(bits(9.0), bits(9.0));
    assert_eq!(stats, OnlineStats::new());
}

#[test]
fn covariance_of_few_pairs_is_zero() {
    let mut pairs = OnlineCovariance::new();
    assert_eq!(pairs.covariance(bits(f64::NAN)), bits(0.0));
    pairs.update(bits(1.0), bits(2.0), bits(0.0));
    assert_eq!((pairs.covariance(bits(0.5)), pairs.sample_covariance(bits(0.5))), (bits(0.5), bits(0.0)));
    pairs.update(bits(2.0), bits(4.0), bits(4.0));
    assert_eq!(pairs.sample_covariance(bits(4.0)), bits(4.0));
    pairs.remove(bits(3.0), bits(6.0), bits(-0.5));
    assert_eq!((pairs.n, pairs.mean_x, pairs.mean_y, pairs.co_moment), (1, bits(3.0), bits(6.0), bits(0.0)));
    pairs.remove(bits(1.0), bits(1.0), bits(1.0));
    assert_eq!(pairs, OnlineCovariance::new());
    assert_eq!(OnlineCovariance::correlation(bits(2.0), bits(0.0), bits(0.75)), bits(0.0));
    assert_eq!(OnlineCovariance::correlation(bits(2.0), bits(1.0), bits(0.75)), bits(0.75));
}

#[test]
fn observations_enter_and_leave() {
    let mut config = SquareRootConfig::default();
    config.calibration_window = 2;
    let mut model = SquareRootImpactModel::new(config);
    let obs = |volume: u64, t: u64| TradeObservation::new(volume, bits(1.0), bits(1.1), false, t);
    assert_eq!(obs(1, 1).direction, -1);
    assert_eq!(model.add_observation(obs(999, 0)), Observed::Ignored);
    assert_eq!(model.add_observation(obs(1000, 1)), Observed::Taken);
    assert_eq!(model.add_observation(obs(1000, 2)), Observed::Taken);
    assert_eq!(model.add_observation(obs(1000, 3)), Observed::Replaced(obs(1000, 1)));
    assert_eq!(model.observation_count(), 2);
    assert!(!model.is_calibrated(bits(9.0)));
    assert_eq!(model.confidence(bits(1.5), bits(25.0)), (bits(1.0), bits(10.0)));
    assert_eq!(model.confidence(bits(0.5), bits(2.5)), (bits(0.5), bits(2.5)));
    assert_eq!(SquareRootImpactModel::predict_execution_price(true, bits(101.0), bits(99.0)), bits(101.0));
    assert_eq!(SquareRootImpactModel::predict_execution_price(false, bits(101.0), bits(99.0)), bits(99.0));
    model.recalibrate(bits(1.0), bits(2.0), bits(7.0));
    assert_eq!(f64::from_bits(model.alpha()), 1.0);
    model.recalibrate(bits(1.0), bits(2.0), bits(0.25));
    assert_eq!(f64::from_bits(model.alpha()), 0.25);
    model.recalibrate(bits(1.0), bits(0.5), bits(0.25));
    assert_eq!(f64::from_bits(model.alpha()), 0.1);
    model.reset();
    assert_eq!(model.observation_count(), 0);
}

#[test]
fn test_batch_calculator() {
    let impact = |n: u32| {
        let slice = BatchImpactCalculator::slice_volume(100000, n).unwrap();
        0.1 * (slice as f64 / 1_000_000.0).sqrt() * n as f64
    };
    let impacts: Vec<u64> = (1..=10).map(|n| bits(impact(n))).collect();

    let optimal = BatchImpactCalculator::optimal_slices(&impacts);
    assert!(optimal >= 1 && optimal <= 10);
    assert_eq!(optimal, 1);
    assert_eq!(BatchImpactCalculator::optimal_slices(&[bits(3.0), bits(1.0), bits(1.0)]), 2);
    assert_eq!(BatchImpactCalculator::slice_volume(10, 0), None);
    assert_eq!(BatchImpactCalculator::slice_volume(10, 3), Some(3));
}

#[test]
fn test_rolling_beta() {
    let mut calc = RollingBetaCalculator::new(10);
    let mut pairs: Vec<(f64, f64)> = Vec::new();

    for i in 0..10 {
        let asset_ret = 0.02 * (i as f64 + 1.0);
        let bench_ret = 0.01 * (i as f64 + 1.0);
        assert_eq!(calc.update(bits(asset_ret), bits(bench_ret)), None);
        pairs.push((asset_ret, bench_ret));
        let n = pairs.len() as f64;
        let ma = pairs.iter().map(|p| p.0).sum::<f64>() / n;
        let mb = pairs.iter().map(|p| p.1).sum::<f64>() / n;
        let cov = pairs.iter().map(|p| (p.0 - ma) * (p.1 - mb)).sum::<f64>();
        let var = pairs.iter().map(|p| (p.1 - mb) * (p.1 - mb)).sum::<f64>();
        calc.record_beta(if var > 0.0 { Some(bits(cov / var)) } else { None }, i);
    }

    let beta = f64::from_bits(calc.beta().unwrap());
    assert!(beta > 1.5 && beta < 2.5);
    assert_eq!(calc.observation_count(), 10);
}

#[test]
fn full_window_hands_back_the_oldest() {
    let mut calc = RollingBetaCalculator::new(2);
    assert_eq!(calc.update(1, 2), None);
    assert_eq!(calc.observation_count(), 1);
    assert_eq!(calc.update(3, 4), None);
    assert_eq!(calc.update(5, 6), Some((1, 2)));
    assert_eq!(calc.update(7, 8), Some((3, 4)));
    calc.reset();
    assert_eq!(calc.observation_count(), 0);
    assert_eq!(calc.beta(), None);
}

#[test]
fn test_multi_asset_tracker() {
    let mut tracker = MultiAssetBetaTracker::new(20);

    for i in 0..20 {
        tracker.update_beta("BTC", bits(0.01 * i as f64), bits(0.005 * i as f64));
    }

    for i in 0..20 {
        tracker.update_beta("SPX", bits(0.008 * i as f64), bits(0.004 * i as f64));
    }

    let betas = tracker.get_all_betas();
    assert!(betas.get("BTC").is_some());
    assert!(betas.get("SPX").is_some());
    assert!(betas.get("ETH").is_none());
    tracker.record_beta("BTC", Some(bits(2.0)), 9);
    assert_eq!(tracker.get_beta("BTC"), Some(Some(bits(2.0))));
    assert_eq!(tracker.get_beta("SPX"), Some(None));
    assert_eq!(tracker.stats().total_updates, 40);
    assert_eq!(tracker.get_or_create_calculator("ETH").observation_count(), 0);
    assert_eq!(tracker.stats().benchmarks_tracked, 1);
}

fn position(symbol: &str, side: PositionSide, quantity: f64, notional: f64) -> Position {
    Position {
        symbol: symbol.to_string(),
        side,
        quantity: bits(quantity),
        entry_price: bits(notional / quantity),
        mark_price: bits(notional / quantity),
        notional: bits(notional),
        unrealized_pnl: bits(0.0),
    }
}

/// The figures of a portfolio, from its groups.
fn figures(engine: &CrossMarginEngine) -> MarginFigures {
    let f = f64::from_bits;
    let rate = |t: &MarginTerm| f(t.initial_ratio) * f(t.scalar);
    let equity = engine.equity() as f64 / 1_000_000.0;
    let (mut initial, mut maintenance, mut total) = (0.0, 0.0, 0.0);
    for t in engine.margin_terms() {
        initial += f(t.notional) * rate(&t);
        maintenance += f(t.notional) * f(t.maintenance_ratio) * f(t.scalar);
        total += f(t.size);
    }
    let groups = engine.positions_by_class();
    let mut net = 0.0;
    for g in &groups {
        let sides = engine.side_terms(&g.members);
        let long: f64 = sides.long.iter().map(|t| f(t.notional)).sum();
        let short: f64 = sides.short.iter().map(|t| f(t.size)).sum();
        let weighted = sides.long.iter().map(|t| f(t.notional) * rate(t)).sum::<f64>()
            + sides.short.iter().map(|t| f(t.size) * rate(t)).sum::<f64>();
        let gross = long + short;
        let n = net_sides(SideSums {
            difference: bits(long - short),
            gross: bits(gross),
            weighted: bits(weighted),
            netting: bits((long - short).abs() / gross),
            rate: bits(weighted / gross),
        });
        net += f(n.net_notional) * f(n.rate) * (1.0 - 0.3 * (1.0 - f(n.factor)));
    }
    net *= 1.0 - diversification_discount(groups.len()) as f64 / 100.0;
    MarginFigures {
        initial_margin: bits(initial),
        maintenance_margin: bits(maintenance),
        net_margin: bits(net),
        offset: bits(initial - net),
        headroom: bits(equity - net),
        share_pct: bits(net / equity * 100.0),
        leverage: bits(total / net),
    }
}

fn portfolio_margin(engine: &mut CrossMarginEngine) -> MarginResult {
    let found = figures(engine);
    let net = (f64::from_bits(found.net_margin) * 1_000_000.0) as u64;
    let equity = bits(engine.equity() as f64 / 1_000_000.0);
    engine.calculate_portfolio_margin(found, net, equity)
}

#[test]
fn test_cross_margin_engine() {
    let mut engine = CrossMarginEngine::new(100_000_000_000);

    engine.update_position(position("BTCUSDT", PositionSide::Long, 1.0, 50_000.0));
    engine.update_position(position("ETHUSDT", PositionSide::Short, 10.0, 30_000.0));

    let margin = portfolio_margin(&mut engine);

    assert!(f64::from_bits(margin.net_margin_required) > 0.0);
    assert!(f64::from_bits(margin.margin_offset_benefit) >= 0.0);
    assert!(f64::from_bits(margin.utilization_pct) < 100.0);
    assert!((f64::from_bits(margin.total_initial_margin) - 8_000.0).abs() < 1e-6);
    assert!((f64::from_bits(margin.net_margin_required) - 2_000.0 * 0.775).abs() < 1e-6);
    assert_eq!(engine.total_margin_used, (f64::from_bits(margin.net_margin_required) * 1_000_000.0) as u64);
    assert_eq!(engine.stats().total_positions, 2);
    assert_eq!(engine.stats().margin_efficiency_updates, 1);
    assert!(engine.can_add_position(bits(2.0), bits(2.0)));
    assert!(!engine.can_add_position(bits(2.1), bits(2.0)));
    engine.update_position(position("ETHUSDT", PositionSide::Short, 0.0, 0.0));
    assert_eq!(engine.stats().total_positions, 1);
}

#[test]
fn test_margin_warning_levels() {
    let mut engine = CrossMarginEngine::new(100_000_000_000);

    let margin = portfolio_margin(&mut engine);
    assert_eq!(engine.margin_warning_level(margin.utilization_pct), MarginWarningLevel::Normal);
    assert_eq!(f64::from_bits(margin.available_margin), 100_000.0);
    assert_eq!(engine.margin_warning_level(bits(50.0)), MarginWarningLevel::Moderate);
    assert_eq!(engine.margin_warning_level(bits(75.0)), MarginWarningLevel::High);
    assert_eq!(engine.margin_warning_level(bits(90.0)), MarginWarningLevel::Critical);
    assert_eq!(engine.margin_warning_level(bits(89.9)), MarginWarningLevel::High);
}

#[test]
fn margins_are_guarded() {
    let mut engine = CrossMarginEngine::new(0);
    engine.update_position(position("X", PositionSide::Long, 1.0, 1.0));
    engine.update_position(position("Y", PositionSide::Flat, 1.0, 1.0));
    let raw = MarginFigures {
        initial_margin: bits(1.0),
        maintenance_margin: bits(2.0),
        net_margin: bits(-3.0),
        offset: bits(4.0),
        headroom: bits(-5.0),
        share_pct: bits(6.0),
        leverage: bits(7.0),
    };
    let margin = engine.calculate_portfolio_margin(raw, 0, bits(0.0));
    assert_eq!(margin.net_margin_required, bits(0.0));
    assert_eq!(margin.available_margin, bits(0.0));
    assert_eq!(margin.utilization_pct, bits(0.0));
    assert_eq!(margin.portfolio_leverage, bits(0.0));
    assert_eq!(margin.margin_offset_benefit, bits(4.0));
    let sides = engine.side_terms(&vec![0, 1]);
    assert_eq!((sides.long.len(), sides.short.len()), (1, 0));
    let nothing = net_sides(SideSums { difference: bits(-0.0), gross: 0, weighted: 0, netting: 9, rate: 9 });
    assert_eq!(nothing, Netting { net_notional: 0, factor: bits(1.0), rate: bits(0.1) });
}

#[test]
fn test_capital_efficiency() {
    let margin = MarginResult {
        total_initial_margin: bits(10_000.0),
        total_maintenance_margin: bits(5_000.0),
        net_margin_required: bits(7_000.0),
        margin_offset_benefit: bits(3_000.0),
        available_margin: bits(93_000.0),
        utilization_pct: bits(7.0),
        portfolio_leverage: bits(11.43),
    };

    let efficiency = CapitalEfficiencyCalculator::calculate_efficiency(&margin);
    assert!((f64::from_bits(efficiency) - 11.43).abs() < 0.01);

    let pct = (10_000.0 - 7_000.0) / 10_000.0 * 100.0;
    let offset_pct = CapitalEfficiencyCalculator::offset_benefit_pct(bits(10_000.0), bits(pct));
    assert!((f64::from_bits(offset_pct) - 30.0).abs() < 0.01);
    assert_eq!(CapitalEfficiencyCalculator::offset_benefit_pct(bits(0.0), bits(pct)), 0);
    let size = |available: f64, ratio: f64| {
        f64::from_bits(CapitalEfficiencyCalculator::optimal_position_size(
            bits(available),
            bits(ratio),
            bits(50.0),
            bits(40.0),
        ))
    };
    assert_eq!(size(5.0, 0.1), 40.0);
    assert_eq!(size(0.0, 0.1), 0.0);
    assert_eq!(size(5.0, 0.0), 0.0);
}

#[test]
fn test_hedging_strategy() {
    let strategy = HedgingStrategy::new(bits(0.0), bits(0.1), bits(0.01));

    assert!(strategy.needs_rebalance(bits(0.15 - 0.0)));
    assert!(!strategy.needs_rebalance(bits(0.05 - 0.0)));

    let size = f64::from_bits(strategy.calculate_rebalance_size(bits((0.2 - 0.0) * 100_000.0 / 50_000.0)));
    assert!((size - (-0.4)).abs() < 0.01);
    assert_eq!(strategy.calculate_rebalance_size(bits(0.005)), 0);
    assert_eq!(f64::from_bits(strategy.calculate_rebalance_size(bits(-0.5))), 0.5);
}

#[test]
fn test_beta_adjusted_return() {
    let adjusted = BetaAdjustedReturn::new(bits(0.05), bits(0.03), bits(1.5), bits(0.05 - 1.5 * 0.03));

    assert!((f64::from_bits(adjusted.raw_return) - 0.05).abs() < 1e-10);
    assert!((f64::from_bits(adjusted.beta_contribution(bits(1.5 * 0.03))) - 0.045).abs() < 1e-10);
    assert!((f64::from_bits(adjusted.alpha) - 0.005).abs() < 1e-10);
    let unknown = BetaAdjustedReturn::new(bits(0.05), bits(0.03), bits(f64::NAN), bits(f64::NAN));
    assert_eq!(unknown.alpha, bits(0.05));
    assert_eq!(unknown.beta_contribution(bits(f64::NAN)), 0);
    assert_eq!(RollingBetaCalculator::calculate_beta(bits(0.0), bits(2.0)), None);
    assert_eq!(RollingBetaCalculator::calculate_beta(bits(0.5), bits(2.0)), Some(bits(2.0)));
    assert_eq!(RollingBetaCalculator::r_squared(bits(0.0), bits(1.0), bits(0.5)), 0);
    assert_eq!(RollingBetaCalculator::r_squared(bits(1.0), bits(1.0), bits(0.5)), bits(0.5));
    let mut calc = RollingBetaCalculator::new(2);
    assert_eq!(calc.calculate_alpha(bits(0.1)), None);
    calc.record_beta(Some(bits(1.0)), 1);
    assert_eq!(calc.calculate_alpha(bits(0.1)), Some(bits(0.1)));
    let mut tracker = MultiAssetBetaTracker::new(2);
    tracker.update_beta("A", 0, 0);
    tracker.update_beta("B", 0, 0);
    tracker.record_beta("A", Some(bits(1.5)), 1);
    let weights = vec![("B".to_string(), 1), ("A".to_string(), 2), ("C".to_string(), 3)];
    assert_eq!(tracker.portfolio_beta_terms(&weights), vec![(2, bits(1.5))]);
}

#[test]
fn positions_are_grouped_by_class() {
    let mut engine = CrossMarginEngine::new(1);
    let mut params = RiskParameters::default();
    assert_eq!(f64::from_bits(params.initial_margin_ratio), 0.1);
    assert_eq!(f64::from_bits(params.maintenance_margin_ratio), 0.05);
    params.asset_class = AssetClass::MajorCrypto;
    engine.set_risk_parameters("BTC", params);
    for symbol in ["ADA", "BTC", "XRP"] {
        engine.update_position(position(symbol, PositionSide::Long, 1.0, 1.0));
    }
    let groups = engine.positions_by_class();
    assert_eq!(groups.len(), 2);
    assert_eq!(groups[0].asset_class, AssetClass::MajorCrypto);
    assert_eq!(groups[0].members, vec![1]);
    assert_eq!(groups[1].members, vec![0, 2]);
    assert_eq!(diversification_discount(1), 0);
    assert_eq!(diversification_discount(3), 10);
    assert_eq!(diversification_discount(9), 20);
    assert_eq!(PositionSide::from_qty(bits(-1.0)), PositionSide::Short);
    assert_eq!(PositionSide::from_qty(bits(0.0)).sign(), 0);
    assert_eq!(PositionSide::Long.sign(), 1);
    engine.update_equity(7);
    assert_eq!(engine.equity(), 7);
}

#[test]
fn test_risk_bus_integration() {
    let mut integration = RiskBusIntegration::new(20, 100_000_000_000);

    assert!(integration.is_enabled());

    for i in 0..20 {
        integration.update_beta("BTC", bits(0.01 * i as f64), bits(0.005 * i as f64), i);
    }

    let beta = integration.get_beta("BTC");
    assert!(beta.is_some());

    let found = figures(&integration.margin_engine);
    let margin = integration.get_margin_status(found, 0, bits(100_000.0));
    assert!(margin.is_some());
    integration.set_enabled(false);
    assert!(integration.get_margin_status(found, 0, bits(100_000.0)).is_none());
    assert!(integration.can_add_exposure(bits(100_000.0), bits(99_999.0)));
    assert!(!integration.can_add_exposure(bits(100_000.0), bits(100_000.0)));
    assert!(integration.update_beta("BTC", 0, 0, 99).is_none());
    integration.update_position(position("X", PositionSide::Long, 1.0, 1.0), 99);
    assert_eq!(integration.margin_engine.stats().total_positions, 0);
    assert_eq!(integration.last_update_ns, 19);
}

#[test]
fn test_hedge_recommendation() {
    let mut integration = RiskBusIntegration::new(20, 100_000_000_000);

    for i in 0..30 {
        integration.update_beta("BTC", bits(0.015 * i as f64), bits(0.01 * i as f64), i);
    }
    integration.beta_tracker.record_beta("BTC", Some(bits(1.5)), 30);

    let beta = f64::from_bits(integration.beta_against("BTC").unwrap());
    let hedge = 100_000.0 * 0.0 - 100_000.0 * beta;
    let rec = integration.get_hedge_recommendation(bits(0.0), bits(hedge), bits(100_000.0 * 0.01));

    assert!(rec.confidence > 0);
    assert!(f64::from_bits(rec.current_beta.unwrap()).is_finite());
    assert_eq!(rec.action, HedgeAction::IncreaseShort(bits(150_000.0)));
    assert_eq!(rec.confidence, 60);
}

#[test]
fn hedges_by_size_and_confidence() {
    let mut bus = RiskBusIntegration::new(5, 0);
    assert_eq!(bus.calculate_hedge_confidence(), 30);
    assert_eq!(bus.beta_against("BTC"), Some(bits(1.0)));
    let act = |b: &RiskBusIntegration, h: f64| b.get_hedge_recommendation(0, bits(h), bits(1.0)).action;
    assert_eq!(act(&bus, 0.5), HedgeAction::Hold);
    assert_eq!(act(&bus, -0.5), HedgeAction::Hold);
    assert_eq!(act(&bus, 2.0), HedgeAction::IncreaseLong(bits(2.0)));
    assert_eq!(act(&bus, -2.0), HedgeAction::IncreaseShort(bits(2.0)));
    for i in 0..200 {
        bus.update_beta("A", 1, 1, i);
    }
    assert_eq!(bus.calculate_hedge_confidence(), 95);
}

#[test]
fn test_arfima_initialization() {
    let model = ARFIMA::new(2, bits(0.3), 1, 100);
    assert_eq!(model.ar_order, 2);
    assert_eq!(f64::from_bits(model.diff_order), 0.3);
    assert_eq!(model.ma_order, 1);
    assert!(model.has_long_memory());
}

#[test]
fn test_hurst_exponent() {
    let model = ARFIMA::new(1, bits(0.3), 0, 50);
    let h = f64::from_bits(ARFIMA::hurst_exponent(bits(f64::from_bits(model.diff_order()) + 0.5)));
    assert!((h - 0.8).abs() < 0.01);
    assert_eq!(ARFIMA::hurst_exponent(bits(1.7)), bits(1.0));
    assert_eq!(ARFIMA::hurst_exponent(bits(-0.7)), bits(0.0));
}

#[test]
fn arfima_keeps_its_past() {
    let mut model = ARFIMA::new(2, bits(0.5), 1, 5000);
    assert_eq!(model.max_diff_lag, 2048);
    assert!(!model.has_long_memory());
    assert!(model.past_values().is_empty());
    for i in 1..=4u64 {
        model.observe(i, 10 * i);
        model.record_error(100 * i);
        model.learn(vec![i, i], vec![i]);
    }
    assert_eq!(model.past_values(), vec![4, 3, 2]);
    assert_eq!(model.ar_inputs(), vec![40, 30]);
    assert_eq!(model.ma_inputs(), vec![400]);
    assert_eq!(model.current_differenced(), 40);
    assert_eq!(model.observation_count(), 4);
    assert_eq!(model.ar_coefficients(), &[4, 4]);
    assert_eq!(model.ma_coefficients(), &[4]);
    assert_eq!(model.estimate_size(), None);
    assert!(model.needs_scaling(bits(1.0)));
    assert!(!model.needs_scaling(bits(0.99)));
    assert_eq!(ARFIMA::best_candidate(&[bits(3.0), bits(1.0), bits(1.0)]), Some(1));
    assert_eq!(ARFIMA::best_candidate(&[bits(f64::NAN), bits(f64::INFINITY)]), None);
    model.set_diff_order(bits(0.25));
    model.reset();
    assert_eq!(model.observation_count(), 0);
    assert_eq!(model.current_differenced(), 0);
}

#[test]
fn test_arma_initialization() {
    let model = OnlineARMA::new(2, 1, bits(0.98));
    assert_eq!(model.ar_order, 2);
    assert_eq!(model.ma_order, 1);
    assert_eq!(model.params.len(), 3);
}

#[test]
fn arma_regressor_is_the_past() {
    let mut model = OnlineARMA::new(2, 1, bits(0.5));
    assert_eq!(f64::from_bits(model.lambda), 0.9);
    assert!(!model.learns());
    for (y, e) in [(1.0, 0.1), (2.0, 0.2), (3.0, 0.3), (4.0, 0.4)] {
        model.update(bits(y), bits(e));
    }
    assert_eq!(model.build_regressor(), vec![bits(-4.0), bits(-3.0), bits(0.4)]);
    assert!(model.learns());
    assert_eq!(model.last_value(), bits(4.0));
    assert_eq!(model.last_prediction_error(), bits(0.4));
    assert_eq!(model.residuals(), vec![bits(0.4), bits(0.3), bits(0.2), bits(0.1)]);
    model.store_params(vec![7, 8, 9]);
    assert_eq!(model.ar_coefficients(), &[7, 8]);
    assert_eq!(model.ma_coefficients(), &[9]);
    assert!(!model.has_converged(bits(0.0), bits(1.0)));
    let fresh = OnlineARMA::new(1, 1, bits(0.99));
    assert_eq!(fresh.residual_variance(bits(1.0), bits(0.5)), bits(0.0));
    assert!(OnlineARMA::has_gain(bits(-1.0)) && !OnlineARMA::has_gain(bits(1e-9)));
    for _ in 0..100 {
        model.update(bits(4.0), bits(0.0));
    }
    assert!(model.has_converged(bits(0.01), bits(0.05)));
    assert_eq!(model.residual_variance(bits(1.0), bits(0.5)), bits(0.5));
    assert_eq!(model.residual_variance(bits(1e-11), bits(0.5)), bits(0.0));
    assert!(!model.has_converged(bits(0.1), bits(0.05)));
    model.reset();
    assert_eq!(model.observation_count(), 0);
    assert_eq!(model.build_regressor(), vec![bits(-0.0), bits(-0.0), 0]);
}

#[test]
fn forecasts_look_back_in_order() {
    assert_eq!(lag_source(1, 1), LagSource::Past(1));
    assert_eq!(lag_source(1, 2), LagSource::Past(2));
    assert_eq!(lag_source(3, 1), LagSource::Forecast(1));
    assert_eq!(lag_source(3, 3), LagSource::Past(1));
    let mut buffer = LagBuffer::new(3);
    for i in 1..=5 {
        buffer.push(i);
    }
    assert_eq!(buffer.recent(3), vec![5, 4, 3]);
    assert_eq!(buffer.at_lag(2), 4);
    assert_eq!(buffer.len(), 3);
    buffer.clear();
    assert_eq!(buffer.at_lag(1), 0);
}

fn reals(all: &[u64]) -> Vec<f64> {
    all.iter().map(|&x| f64::from_bits(x)).collect()
}

fn dot(a: &[f64], b: &[f64]) -> f64 {
    a.iter().zip(b).map(|(x, y)| x * y).sum()
}

/// Feeds an autoregressive model of the first order, whose covariance is one number.
fn feed_ar1(model: &mut OnlineARMA, p: &mut f64, y: f64) {
    let phi = reals(&model.build_regressor());
    let params = reals(&model.params);
    let error = y - dot(&params, &phi);
    if model.learns() {
        let lambda = f64::from_bits(model.lambda);
        let gain = *p * phi[0] / (lambda + phi[0] * *p * phi[0]);
        *p = (*p - gain * phi[0] * p.max(0.0)) / lambda;
        model.store_params(vec![bits(params[0] + gain * error)]);
    }
    model.update(bits(y), bits(error));
}

#[test]
fn test_arma_update_and_predict() {
    let mut model = OnlineARMA::new(1, 0, bits(0.99));
    let mut p = 1e6;
    let mut seed: u64 = 12345;
    let mut y_prev = 1.0;
    for _ in 0..100 {
        seed = seed.wrapping_mul(6364136223846793005).wrapping_add(1);
        let noise = (seed as f64 / u64::MAX as f64 - 0.5) * 0.1;
        let y_t = 0.8 * y_prev + noise;
        feed_ar1(&mut model, &mut p, y_t);
        y_prev = y_t;
    }

    let ar_coef = f64::from_bits(model.ar_coefficients()[0]);
    assert!((ar_coef.abs() - 0.8).abs() < 0.3, "AR coefficient should be near 0.8, got {}", ar_coef);
}

/// The value that a forecast takes for a lag.
fn lagged(past: &LagBuffer, forecasts: &[f64], step: usize, lag: usize) -> f64 {
    match lag_source(step, lag) {
        LagSource::Forecast(i) => forecasts[i],
        LagSource::Past(l) => f64::from_bits(past.at_lag(l)),
    }
}

#[test]
fn arma_test_forecast() {
    let mut model = OnlineARMA::new(1, 0, bits(0.99));
    let mut p = 1e6;
    for _ in 0..50 {
        feed_ar1(&mut model, &mut p, 100.0);
    }

    let coef = f64::from_bits(model.ar_coefficients()[0]);
    let mut forecasts: Vec<f64> = Vec::new();
    for step in 1..=5 {
        forecasts.push(-coef * lagged(&model.y_buffer, &forecasts, step, 1));
    }
    assert!((forecasts[4] - 100.0).abs() < 10.0);
}

/// Feeds a fractionally integrated model whose values are centred by their running mean.
fn feed_arfima(model: &mut ARFIMA, mean: &mut f64, y: f64) {
    *mean += (y - *mean) / (model.observation_count() + 1) as f64;
    let d = f64::from_bits(model.diff_order());
    let mut weight = 1.0;
    let mut difference = y - *mean;
    for (i, past) in reals(&model.past_values()).into_iter().enumerate() {
        weight *= (i as f64 - d) / (i as f64 + 1.0);
        difference += weight * (past - *mean);
    }
    model.observe(bits(y), bits(difference));
    let mut ar = reals(model.ar_coefficients());
    let error = difference - dot(&ar, &reals(&model.ar_inputs()));
    let rate = 0.001 / (1.0 + model.observation_count() as f64 * 0.0001);
    model.record_error(bits(error));
    for (c, x) in ar.iter_mut().zip(reals(&model.ar_inputs())) {
        *c += rate * error * x;
    }
    let size: f64 = ar.iter().map(|c| c.abs()).sum();
    if model.needs_scaling(bits(size)) {
        ar.iter_mut().for_each(|c| *c *= 0.95 / size);
    }
    model.learn(ar.into_iter().map(bits).collect(), model.ma_coeffs.clone());
}

#[test]
fn test_fractional_difference() {
    let mut model = ARFIMA::new(1, bits(0.2), 0, 50);
    let mut mean = 0.0;
    for _ in 0..60 {
        feed_arfima(&mut model, &mut mean, 100.0);
    }

    let diff = f64::from_bits(model.current_differenced());
    assert!(diff.abs() < 1.0);
}

#[test]
fn arima_test_forecast() {
    let mut model = ARFIMA::new(1, bits(0.1), 0, 50);
    let mut mean = 0.0;
    for i in 0..100 {
        feed_arfima(&mut model, &mut mean, 100.0 + i as f64 * 0.1);
    }

    let coef = f64::from_bits(model.ar_coefficients()[0]);
    let mut forecasts: Vec<f64> = Vec::new();
    for step in 1..=5 {
        forecasts.push(coef * lagged(&model.diff_buffer, &forecasts, step, 1));
    }
    let last = f64::from_bits(model.last_y);
    assert!(last + forecasts[4] > last);
}

#[test]
fn test_square_root_model_basic() {
    let mut model = SquareRootImpactModel::new(SquareRootConfig::default());
    let (mut xy, mut xx, mut total) = (0.0, 0.0, 0.0);

    for i in 0..20u64 {
        let (before, after) = (50000.0, 50000.0 * (1.0 + 0.001 * (i as f64 % 3.0)));
        let obs = TradeObservation::new(10000 + i * 1000, bits(before), bits(after), true, i * 1000000);
        assert_eq!(model.add_observation(obs), Observed::Taken);
        let weight = f64::from_bits(model.config.decay_factor).powf(model.observation_count() as f64 * 0.1);
        let x = (obs.volume as f64 / 1_000_000.0).sqrt();
        let y = (after - before) / ((before + after) / 2.0) * 10000.0 / 100.0;
        xy += weight * x * y;
        xx += weight * x * x;
        total += weight;
        model.recalibrate(bits(xx), bits(total), bits(xy / xx));
    }

    assert!(model.is_calibrated(bits(total)));
    assert!(f64::from_bits(model.alpha()) > 0.0);
}

#[test]
fn test_impact_prediction() {
    let mut model = SquareRootImpactModel::new(SquareRootConfig::default());
    model.current_alpha = bits(0.1);
    assert_eq!(f64::from_bits(model.avg_daily_volume), 1_000_000.0);
    let predict = |volume: u64| {
        let size = f64::from_bits(model.alpha()) * (volume as f64 / 1_000_000.0).sqrt();
        f64::from_bits(model.predict_impact(volume, true, bits(size)))
    };

    let impact = predict(10000);
    assert!(impact > 0.0);

    let impact_large = predict(40000);
    assert!(impact_large > impact);
    assert!((impact_large / impact - 2.0).abs() < 0.1);
    assert_eq!(f64::from_bits(model.predict_impact(1, false, bits(0.5))), -0.5);
    assert_eq!(model.predict_impact(0, false, bits(0.5)), 0);
    model.update_avg_daily_volume(bits(-1.0));
    assert_eq!(f64::from_bits(model.avg_daily_volume), 1_000_000.0);
    model.update_avg_daily_volume(bits(5.0));
    assert_eq!(f64::from_bits(model.avg_daily_volume), 5.0);
    assert_eq!(TradeObservation::observed_impact_bps(bits(1e-10), bits(3.0)), 0);
    assert_eq!(TradeObservation::observed_impact_bps(bits(1.0), bits(3.0)), bits(3.0));
}

#[test]
fn test_beta_adjusted_pnl() {
    let mut integration = RiskBusIntegration::new(20, 100_000_000_000);

    for i in 0..20 {
        integration.update_beta("BTC", bits(0.02 * i as f64), bits(0.01 * i as f64), i);
        integration.beta_tracker.record_beta("BTC", Some(bits(2.0)), i);
    }

    let raw_pnl: f64 = 1000.0;
    let beta = f64::from_bits(integration.beta_against("BTC").unwrap());
    let alpha = raw_pnl - beta * 0.05;
    assert!((raw_pnl - 1000.0).abs() < 1e-10);
    assert!(beta.is_finite());
    assert_eq!(alpha, 999.9);
}

#[test]
fn opened_positions_are_listed() {
    let mut engine = CrossMarginEngine::new(1_000_000);
    assert!(engine.get_positions().is_empty());
    engine.update_position(position("BTC", PositionSide::Long, 1.0, 11.0));
    assert_eq!(engine.get_positions().len(), 1);
}
