use hft_core::doubles::{LARGEST, MINUS_INFINITY};
use hft_core::execution::aggressive::{AggressiveExecution, AggressiveOpportunity, PreTradeRisk as AggressiveRisk};
use hft_core::execution::iceberg::{AfterFill, IcebergError, IcebergFillResult, IcebergOrder, IcebergState};
use hft_core::execution::maker_taker::{
    ExecutionMode, MakerTakerRouter, RouterBuilder, RoutingDecision, RoutingFigures, Side,
};
use hft_core::execution::pov::{PovEngine, PovError};
use hft_core::execution::queue_jumping::{JumpFigures, QueueJumpDecision, QueueJumper, QueueJumperBuilder};
use hft_core::execution::risk::{
    MarketImpactModel, PreTradeRisk, RiskLimits, RiskRefusal, SlippageCheckResult, SlippageChecker, SlippageError,
    SlippageEstimate,
};
use hft_core::execution::routing::{self, ExecutionPlan, ExecutionRouter, PlanRequest};
use hft_core::execution::sniper::{IcebergSniper, L3TradeTick};
use hft_core::execution::sweeper::{
    ExecutionSlicer, FillOutcome, LiquiditySweeper, OrderBookLevel, OrderBookSnapshot, SlippageBounds,
    SweepResult, SweepUrgency,
};
use hft_core::execution::vwap::{FillSums, ProgressQuotients, VolumeStep, VwapEngine, VwapError, VwapParams};

fn bits(x: f64) -> u64 {
    x.to_bits()
}

fn num(x: u64) -> f64 {
    f64::from_bits(x)
}

/// What a market looks like for an order.
struct Signals {
    alpha: f64,
    drift: f64,
    imbalance: f64,
    depletion: f64,
    position: f64,
    slippage: f64,
}

/// What is expected of making and of taking.
fn figures(router: &MakerTakerRouter, side: Side, s: &Signals) -> RoutingFigures {
    let horizon = router.time_horizon_ms as f64;
    let adjustment = s.drift * horizon;
    let less = bits(s.alpha - adjustment);
    let alpha = num(MakerTakerRouter::adjusted_alpha(side, less, bits(s.alpha + adjustment)));
    let raised = bits(0.5 + s.imbalance * 0.5);
    let imbalance = num(MakerTakerRouter::imbalance_factor(bits(s.imbalance), raised));
    let depletion = num(MakerTakerRouter::depletion_factor(bits(s.depletion * horizon / 1000.0)));
    let weighted = (1.0 - s.position) * 0.4 + imbalance * 0.3 + depletion * 0.3;
    let fill = num(MakerTakerRouter::estimate_fill_probability(bits(weighted)));
    let maker = fill * (alpha * (1.0 - s.position) + num(router.maker_rebate_bps)) - (1.0 - fill) * alpha.abs() * 0.5;
    let taker = alpha - num(router.taker_fee_bps) - s.slippage;
    let maker = num(router.calculate_maker_ev(bits(maker)));
    let taker = num(router.calculate_taker_ev(bits(taker)));
    let difference = (maker - taker).abs().max(1.0);
    RoutingFigures {
        maker_ev_bps: bits(maker),
        taker_ev_bps: bits(taker),
        drift_bps_per_ms: bits(s.drift),
        queue_position: bits(s.position),
        maker_fill_prob: bits(fill),
        maker_share: bits(maker / difference),
        taker_share: bits(taker / difference),
    }
}

fn route(router: &MakerTakerRouter, side: Side, s: &Signals, spread: u64) -> RoutingDecision {
    router.decide(side, figures(router, side, s), spread)
}

#[test]
fn test_maker_preferred_with_rebate() {
    let router =
        RouterBuilder::new(100).maker_rebate(bits(0.5)).taker_fee(bits(0.5)).min_edge(bits(0.2)).build();
    let s = Signals { alpha: 2.0, drift: 0.01, imbalance: 0.3, depletion: 100.0, position: 0.3, slippage: 0.3 };
    let decision = route(&router, Side::Buy, &s, 5);

    assert_eq!(decision.mode, ExecutionMode::Maker);
    assert!(num(decision.maker_ev_bps) > num(decision.taker_ev_bps));
}

#[test]
fn test_taker_preferred_with_strong_alpha() {
    let router =
        RouterBuilder::new(100).maker_rebate(bits(0.3)).taker_fee(bits(0.5)).min_edge(bits(0.2)).build();
    let s = Signals { alpha: 10.0, drift: 0.5, imbalance: -0.5, depletion: 50.0, position: 0.8, slippage: 0.5 };
    let decision = route(&router, Side::Sell, &s, 3);

    assert_eq!(decision.mode, ExecutionMode::Taker);
}

#[test]
fn test_wait_when_no_edge() {
    let router =
        RouterBuilder::new(100).maker_rebate(bits(0.2)).taker_fee(bits(0.5)).min_edge(bits(1.0)).build();
    let s = Signals { alpha: 0.3, drift: 0.0, imbalance: 0.0, depletion: 0.0, position: 0.5, slippage: 0.2 };
    let decision = route(&router, Side::Buy, &s, 2);

    assert_eq!(decision.mode, ExecutionMode::Wait);
    assert_eq!(num(decision.confidence), 0.0);
}

#[test]
fn test_quick_decision() {
    let router = MakerTakerRouter::new(bits(0.3), bits(0.5), 100);

    assert_eq!(router.quick_decide(bits(1.0), bits(0.5)), ExecutionMode::Maker);
    assert_eq!(router.quick_decide(bits(0.5), bits(1.5)), ExecutionMode::Taker);
    assert_eq!(router.quick_decide(bits(-1.0), bits(-0.5)), ExecutionMode::Wait);
}

fn plain_figures(maker: f64, taker: f64, drift: f64) -> RoutingFigures {
    RoutingFigures {
        maker_ev_bps: bits(maker),
        taker_ev_bps: bits(taker),
        drift_bps_per_ms: bits(drift),
        queue_position: bits(0.25),
        maker_fill_prob: bits(0.75),
        maker_share: bits(maker),
        taker_share: bits(taker),
    }
}

#[test]
fn equal_values_make_a_maker() {
    let mut router = RouterBuilder::new(100).time_horizon(50).build();
    assert_eq!(router.quick_decide(bits(2.0), bits(2.0)), ExecutionMode::Maker);
    let equal = router.decide(Side::Buy, plain_figures(2.0, 2.0, 0.0), 9);
    assert_eq!((equal.mode, num(equal.confidence)), (ExecutionMode::Maker, 0.3));
    assert_eq!(router.quick_decide(bits(f64::NAN), bits(f64::NAN)), ExecutionMode::Wait);
    assert_eq!(router.time_horizon_ms, 50);
    assert_eq!(router.calculate_maker_ev(bits(1.5)), bits(1.5));
    router.set_enabled(false);
    assert!(!router.is_enabled());
    assert_eq!(router.calculate_maker_ev(bits(1.5)), MINUS_INFINITY);
    assert_eq!(router.calculate_taker_ev(bits(1.5)), MINUS_INFINITY);
    assert_eq!(num(MINUS_INFINITY), f64::NEG_INFINITY);
    assert_eq!(router.quick_decide(bits(2.0), bits(2.0)), ExecutionMode::Wait);
    let off = router.decide(Side::Buy, plain_figures(2.0, 1.0, -0.1), 9);
    assert_eq!(off, RoutingDecision::default());
    assert_eq!(num(off.queue_position), 0.5);
}

#[test]
fn favourable_drift_sits_inside_the_spread() {
    let router = MakerTakerRouter::new(bits(0.3), bits(0.5), 100);
    let offset = |side: Side, drift: f64, spread: u64| {
        router.decide(side, plain_figures(2.0, 1.0, drift), spread).limit_offset_ticks
    };
    assert_eq!(offset(Side::Buy, -0.1, 3), 1);
    assert_eq!(offset(Side::Buy, -0.1, 2), 0);
    assert_eq!(offset(Side::Sell, 0.1, 7), 1);
    assert_eq!(offset(Side::Sell, 0.0, 7), 0);
}

#[test]
fn decision_hands_on_its_figures() {
    let router = MakerTakerRouter::new(bits(0.3), bits(0.5), 100);
    let sure = router.decide(Side::Buy, plain_figures(2.0, 1.0, 0.1), 1);
    assert_eq!((sure.maker_ev_bps, sure.taker_ev_bps), (bits(2.0), bits(1.0)));
    assert_eq!((sure.queue_position, sure.maker_fill_prob), (bits(0.25), bits(0.75)));
    assert_eq!((sure.mode, num(sure.confidence)), (ExecutionMode::Maker, 1.0));
    let taken = router.decide(Side::Buy, plain_figures(0.1, 0.75, 0.1), 1);
    assert_eq!((taken.mode, num(taken.confidence)), (ExecutionMode::Taker, 0.75));
}

/// What a jump of one tick comes to.
fn jump(
    jumper: &QueueJumper,
    side: Side,
    alpha: f64,
    position: f64,
    rebate: f64,
    slope: f64,
    urgency: f64,
) -> JumpFigures {
    let ahead = jumper.orders_ahead as f64;
    let new_position =
        num(QueueJumper::estimate_new_position(1, bits(ahead / 1000.0), bits(ahead * 0.3 / 1000.0)));
    let price = jumper.reference_price(side).unwrap_or(0) as f64;
    let cost = (jumper.tick_size as f64 / price) * 10000.0 + rebate;
    let cost = num(jumper.calculate_jump_cost(side, bits(cost)));
    let edge_gained = (position - new_position) * slope * alpha;
    let net = edge_gained * (1.0 + urgency * 0.5) - cost;
    JumpFigures {
        edge_gained_bps: bits(edge_gained),
        jump_cost_bps: bits(cost),
        net_benefit_bps: bits(net),
        position_change: bits(position - new_position),
        gain_share: bits(net / num(jumper.min_edge_threshold_bps)),
        cost_share: bits((cost - net).abs() / num(jumper.max_jump_cost_bps)),
    }
}

#[test]
fn test_jump_with_high_alpha() {
    let mut jumper = QueueJumperBuilder::new(100).min_edge(bits(0.2)).max_cost(bits(0.5)).build();
    jumper.update_prices(9900, 10000);
    jumper.update_orders_ahead(500);

    let found = jump(&jumper, Side::Buy, 5.0, 0.7, 0.3, 0.5, 0.8);
    let decision = jumper.analyze_jump(found);

    assert!(num(decision.edge_gained_bps) > 0.0);
    assert!(num(decision.priority_gain) > 0.0);
    // A tick costs a hundred basis points here, far more than is acceptable.
    assert!(!decision.should_jump);
    assert_eq!(num(decision.confidence), 1.0);
}

#[test]
fn test_no_jump_with_low_alpha() {
    let mut jumper = QueueJumperBuilder::new(100).min_edge(bits(0.3)).max_cost(bits(0.5)).build();
    jumper.update_prices(9900, 10000);
    jumper.update_orders_ahead(100);

    let decision = jumper.analyze_jump(jump(&jumper, Side::Sell, 0.5, 0.3, 0.3, 0.5, 0.2));

    assert!(!decision.should_jump);
}

#[test]
fn test_optimal_price_calculation() {
    let mut jumper = QueueJumperBuilder::new(50).min_edge(bits(0.2)).max_cost(bits(0.4)).build();
    jumper.update_prices(9950, 10000);
    jumper.update_orders_ahead(1000);

    let opt_price = jumper.optimal_price(Side::Buy, jump(&jumper, Side::Buy, 3.0, 0.8, 0.3, 0.5, 0.5));

    assert!(opt_price >= 9950);
    assert!(opt_price <= 10000);
}

/// A jump that pays.
fn paying_jump() -> JumpFigures {
    JumpFigures {
        edge_gained_bps: bits(1.0),
        jump_cost_bps: bits(0.25),
        net_benefit_bps: bits(0.75),
        position_change: bits(0.4),
        gain_share: bits(0.625),
        cost_share: bits(0.5),
    }
}

#[test]
fn test_spread_calculation() {
    let mut jumper = QueueJumper::new(100);
    jumper.update_prices(9900, 10000);

    assert_eq!(jumper.spread_ticks(), 10);
}

#[test]
fn spread_has_one_decimal_place() {
    let mut jumper = QueueJumper::new(40);
    jumper.update_prices(1000, 1050);
    assert_eq!(jumper.spread_ticks(), 12);
    jumper.update_prices(1000, 1000);
    assert_eq!(jumper.spread_ticks(), 0);
    let mut finest = QueueJumper::new(1);
    finest.update_prices(1, u64::MAX);
    assert_eq!(finest.spread_ticks(), u64::MAX);
}

#[test]
fn jump_improves_by_one_tick() {
    let all = paying_jump();
    let mut jumper = QueueJumper::new(10);
    assert_eq!(jumper.optimal_price(Side::Buy, all), 0);
    assert_eq!(jumper.spread_ticks(), 0);
    assert!(jumper.reference_price(Side::Sell).is_none());
    assert_eq!(jumper.calculate_jump_cost(Side::Sell, bits(1.0)), LARGEST);
    assert_eq!(num(LARGEST), f64::MAX);
    jumper.update_prices(1000, 1030);
    assert_eq!(jumper.calculate_jump_cost(Side::Sell, bits(1.0)), bits(1.0));
    assert_eq!(jumper.optimal_price(Side::Buy, all), 1010);
    assert_eq!(jumper.optimal_price(Side::Sell, all), 1020);
    assert_eq!(jumper.spread_ticks(), 30);
    jumper.update_prices(1000, 1010);
    assert_eq!(jumper.optimal_price(Side::Buy, all), 1010);
    jumper.set_enabled(false);
    assert!(!jumper.is_enabled());
    assert_eq!(jumper.analyze_jump(all), QueueJumpDecision::default());
    assert_eq!(jumper.optimal_price(Side::Sell, all), 1010);
}

#[test]
fn jump_has_to_pay() {
    let mut jumper = QueueJumper::new(10);
    let taken = jumper.analyze_jump(paying_jump());
    assert!(taken.should_jump);
    assert_eq!((taken.new_price_ticks, num(taken.priority_gain), num(taken.confidence)), (1, 0.4, 0.625));
    let near = jumper.analyze_jump(JumpFigures { position_change: bits(0.1), ..paying_jump() });
    assert_eq!((near.should_jump, near.new_price_ticks, num(near.confidence)), (false, 0, 0.5));
    let back = jumper.analyze_jump(JumpFigures { position_change: bits(-0.3), ..paying_jump() });
    assert_eq!((back.should_jump, num(back.priority_gain)), (false, 0.0));
    jumper.set_min_edge_threshold(bits(0.75));
    assert!(!jumper.analyze_jump(paying_jump()).should_jump);
    jumper.set_min_edge_threshold(bits(0.5));
    jumper.set_max_jump_cost(bits(0.25));
    assert!(!jumper.analyze_jump(paying_jump()).should_jump);
    assert_eq!(QueueJumper::estimate_new_position(0, bits(1.5), bits(0.45)), bits(1.0));
    assert_eq!(QueueJumper::estimate_new_position(1, bits(1.5), bits(0.45)), bits(0.45));
    assert_eq!(QueueJumper::estimate_new_position(1, bits(3.0), bits(0.9)), bits(0.5));
}

fn plan_request(side: Side, size: u64, s: &Signals, urgency: f64, timestamp_ns: u64, router: &ExecutionRouter) -> (PlanRequest, u64) {
    let tenth = (size as f64 / 1000000.0) * 0.1;
    let slippage = num(router.estimate_slippage(side, bits(tenth), 9900, 10000));
    let signals = Signals { slippage, ..*s };
    let mut jumper = router.queue_jumper;
    jumper.update_prices(9900, 10000);
    let slope = num(router.fill_prob_slope);
    let q = PlanRequest {
        side,
        size,
        routing: figures(&router.maker_taker_router, side, &signals),
        jump: jump(&jumper, side, s.alpha, s.position, num(router.maker_rebate_bps), slope, urgency),
        taker_cost_bps: bits(num(router.taker_fee_bps) + slippage),
        best_bid: 9900,
        best_ask: 10000,
        timestamp_ns,
    };
    let (routed, jumped) = router.decide(q);
    (q, bits(num(routed.confidence) * 0.6 + num(jumped.confidence) * 0.4))
}

#[test]
fn test_execution_plan_maker() {
    let mut router = ExecutionRouter::new(100, bits(0.3), bits(0.5));
    let s = Signals { alpha: 2.0, drift: 0.01, imbalance: 0.3, depletion: 100.0, position: 0.3, slippage: 0.0 };
    let (request, confidence) = plan_request(Side::Buy, 1000, &s, 0.5, 1000000, &router);

    let plan = router.create_execution_plan(request, confidence);

    assert!(num(plan.confidence) > 0.0);
    assert!(plan.size == 1000);
    assert!(plan.side == Side::Buy);
    assert_eq!(num(plan.expected_cost_bps), 0.3);
    assert_eq!(plan.mode, ExecutionMode::Maker);
    assert_eq!(plan.limit_price, 9900);
}

#[test]
fn test_execution_plan_taker_urgent() {
    let mut router = ExecutionRouter::new(100, bits(0.3), bits(0.5));
    let s = Signals { alpha: 8.0, drift: 0.5, imbalance: -0.5, depletion: 200.0, position: 0.8, slippage: 0.0 };
    let (request, confidence) = plan_request(Side::Sell, 5000, &s, 0.9, 2000000, &router);

    let plan = router.create_execution_plan(request, confidence);

    assert!(num(plan.confidence) > 0.0);
    assert_eq!(plan.mode, ExecutionMode::Taker);
    assert_eq!(num(plan.expected_cost_bps), -(0.5 + 0.005 * 0.1));
    assert_eq!(plan.limit_price, 9900);
    assert_eq!(router.sequence(), 1);
    router.reset();
    assert_eq!(router.sequence(), 0);
}

#[test]
fn test_router_enable_disable() {
    let mut router = ExecutionRouter::new(100, bits(0.3), bits(0.5));

    router.set_enabled(false);

    let s = Signals { alpha: 5.0, drift: 0.1, imbalance: 0.5, depletion: 100.0, position: 0.5, slippage: 0.0 };
    let (request, confidence) = plan_request(Side::Buy, 1000, &s, 0.5, 3000000, &router);
    let plan = router.create_execution_plan(request, confidence);

    assert_eq!(plan.mode, ExecutionMode::Wait);
    assert_eq!(num(plan.confidence), 0.0);
    assert_eq!(plan, ExecutionPlan::default());
    assert!(!router.is_enabled());
}

#[test]
fn plan_jumps_the_queue() {
    let mut router =
        routing::RouterBuilder::new(10).maker_rebate(bits(0.25)).taker_fee(bits(0.5)).min_edge(bits(9.0)).build();
    assert_eq!(router, ExecutionRouter::new(10, bits(0.25), bits(0.5)));
    router.set_fill_prob_slope(bits(0.75));
    router.update_queue_state(40);
    assert_eq!((router.fill_prob_slope, router.queue_jumper.orders_ahead), (bits(0.75), 40));
    let q = PlanRequest {
        side: Side::Buy,
        size: 7,
        routing: plain_figures(2.0, 1.0, 0.0),
        jump: paying_jump(),
        taker_cost_bps: bits(0.75),
        best_bid: 1000,
        best_ask: 1040,
        timestamp_ns: 5,
    };
    let plan = router.create_execution_plan(q, bits(1.5));
    // The spread is four ticks of ten, and a jump betters the price by one tick.
    assert!(plan.use_queue_jump);
    assert_eq!((plan.limit_price, num(plan.confidence), num(plan.expected_cost_bps)), (1010, 1.0, 0.25));
    let still = PlanRequest { jump: JumpFigures { position_change: bits(0.0), ..paying_jump() }, ..q };
    assert_eq!(router.create_execution_plan(still, bits(-1.0)).limit_price, 1000);
    let sold = PlanRequest { side: Side::Sell, ..q };
    assert_eq!(router.create_execution_plan(sold, bits(0.5)).limit_price, 1030);
    assert_eq!(router.sequence(), 3);
    assert_eq!(router.estimate_slippage(Side::Buy, bits(3.0), 0, 10), bits(1.0));
    assert_eq!(router.estimate_slippage(Side::Buy, bits(0.25), 0, 10), bits(0.25));
    assert_eq!(router.estimate_slippage(Side::Sell, bits(0.25), 0, 10), bits(1.0));
}

#[test]
fn jump_is_one_tick_of_the_book() {
    let mut router = ExecutionRouter::new(100, bits(0.25), bits(0.5));
    let q = PlanRequest {
        side: Side::Buy,
        size: 7,
        routing: plain_figures(2.0, 1.0, 0.0),
        jump: paying_jump(),
        taker_cost_bps: bits(0.75),
        best_bid: 9900,
        best_ask: 10400,
        timestamp_ns: 5,
    };
    let plan = router.create_execution_plan(q, bits(0.5));
    assert_eq!((plan.use_queue_jump, plan.limit_price), (true, 10000));
    let sold = router.create_execution_plan(PlanRequest { side: Side::Sell, ..q }, bits(0.5));
    assert_eq!((sold.use_queue_jump, sold.limit_price), (true, 10300));
    // Without room for a tick the order crosses the spread.
    let tight = router.create_execution_plan(PlanRequest { best_ask: 10099, ..q }, bits(0.5));
    assert_eq!((tight.use_queue_jump, tight.limit_price), (true, 10099));
}

/// What a fill leaves of an order.
fn after(order: &IcebergOrder, quantity: f64) -> AfterFill {
    let fill = f64::from_bits(order.actual_fill(quantity.to_bits()));
    AfterFill {
        display: (f64::from_bits(order.remaining_display) - fill).to_bits(),
        total: (f64::from_bits(order.remaining_total) - fill).to_bits(),
        executed: (f64::from_bits(order.executed_quantity) + fill).to_bits(),
    }
}

fn fill(order: &mut IcebergOrder, quantity: f64) -> Result<IcebergFillResult, IcebergError> {
    let left = after(order, quantity);
    order.report_fill(quantity.to_bits(), left)
}

#[test]
fn test_iceberg_basic() {
    let mut iceberg = IcebergOrder::new(1000.0f64.to_bits(), 100.0f64.to_bits()).unwrap();
    iceberg.start();

    assert_eq!(f64::from_bits(iceberg.get_visible_quantity()), 100.0);

    let result = fill(&mut iceberg, 50.0).unwrap();
    assert!(!result.is_complete);
    assert_eq!(f64::from_bits(result.remaining_display), 50.0);

    let result2 = fill(&mut iceberg, 50.0).unwrap();
    assert!(result2.needs_refresh);
    assert_eq!(f64::from_bits(iceberg.get_visible_quantity()), 100.0);
}

#[test]
fn test_iceberg_completion() {
    let mut iceberg = IcebergOrder::new(100.0f64.to_bits(), 50.0f64.to_bits()).unwrap();
    iceberg.start();

    fill(&mut iceberg, 50.0).unwrap();
    fill(&mut iceberg, 50.0).unwrap();

    assert_eq!(iceberg.get_state(), IcebergState::Completed);
}

#[test]
fn iceberg_errors_and_limits() {
    let bits = |x: f64| x.to_bits();
    assert_eq!(IcebergOrder::new(bits(0.0), bits(1.0)), Err(IcebergError::InvalidTotalQuantity));
    assert_eq!(IcebergOrder::new(bits(-0.0), bits(1.0)), Err(IcebergError::InvalidTotalQuantity));
    assert_eq!(IcebergOrder::new(bits(5.0), bits(0.0)), Err(IcebergError::InvalidDisplayQuantity));
    assert_eq!(IcebergOrder::new(bits(5.0), bits(6.0)), Err(IcebergError::InvalidDisplayQuantity));
    let mut order = IcebergOrder::new(bits(120.0), bits(50.0)).unwrap();
    order.start();
    // No more is filled than is shown.
    let r = fill(&mut order, 80.0).unwrap();
    assert_eq!(f64::from_bits(r.filled_quantity), 50.0);
    fill(&mut order, 50.0).unwrap();
    assert_eq!(f64::from_bits(order.get_visible_quantity()), 20.0);
    assert_eq!(order.get_progress().fill_count, 2);
    assert_eq!(f64::from_bits(order.get_progress().executed_quantity), 100.0);
    order.cancel();
    assert_eq!(fill(&mut order, 1.0), Err(IcebergError::OrderCompleted));
}

#[test]
fn test_pov_basic() {
    let mut engine = PovEngine::new(1000.0f64.to_bits(), 0.1f64.to_bits()).unwrap();
    engine.start();

    let target = 100.0 * f64::from_bits(engine.target_participation);
    let order = engine.update(target.to_bits(), 100.0f64.to_bits()).map(f64::from_bits);
    assert_eq!(order, Some(10.0));

    if let Some(qty) = order {
        let actual = f64::from_bits(engine.actual_fill(qty.to_bits()));
        let remaining = f64::from_bits(engine.remaining_quantity) - actual;
        let executed = f64::from_bits(engine.executed_quantity) + actual;
        engine.report_fill(executed.to_bits(), remaining.to_bits());
    }

    assert!(!engine.is_complete());
}

#[test]
fn pov_errors_and_completion() {
    let bits = |x: f64| x.to_bits();
    assert_eq!(PovEngine::new(bits(10.0), bits(0.0)), Err(PovError::InvalidRate));
    assert_eq!(PovEngine::new(bits(10.0), bits(1.5)), Err(PovError::InvalidRate));
    assert_eq!(PovEngine::new(bits(0.0), bits(1.0)), Err(PovError::InvalidQuantity));
    let mut engine = PovEngine::new(bits(10.0), bits(1.0)).unwrap();
    assert_eq!(engine.update(bits(5.0), bits(5.0)), None);
    engine.start();
    assert_eq!(engine.update(bits(50.0), bits(50.0)), Some(bits(10.0)));
    engine.report_fill(bits(10.0), bits(0.0));
    assert!(engine.is_complete());
    assert_eq!(engine.update(bits(5.0), bits(55.0)), None);
}

#[test]
fn test_vwap_basic() {
    let params = VwapParams::new(1000.0f64.to_bits(), 0.1f64.to_bits()).unwrap();
    let mut engine = VwapEngine::new(params, Side::Buy);

    engine.start().unwrap();

    let order = engine.update_market_volume(VolumeStep {
        market_volume: 100.0f64.to_bits(),
        share: (100.0f64 * 0.1).to_bits(),
        largest_share: (100.0f64 * 0.25).to_bits(),
        seen: 100.0f64.to_bits(),
        timestamp: 5,
    });
    assert!(order.is_some());

    let o = order.unwrap();
    let actual = f64::from_bits(engine.actual_fill(o.target_quantity));
    let sums = FillSums {
        executed_quantity: (f64::from_bits(engine.executed_quantity) + actual).to_bits(),
        executed_value: (f64::from_bits(engine.executed_value) + actual * 100.0).to_bits(),
        remaining_quantity: (f64::from_bits(engine.remaining_quantity) - actual).to_bits(),
    };
    engine.report_fill(o.target_quantity, sums).unwrap();

    let quotients = ProgressQuotients {
        average_price: 100.0f64.to_bits(),
        market_vwap: 100.0f64.to_bits(),
        participation_rate: 0.1f64.to_bits(),
    };
    let progress = engine.get_progress(quotients);
    assert!(f64::from_bits(progress.executed_quantity) > 0.0);
    assert_eq!(progress.average_price(), Some(100.0f64.to_bits()));
    assert_eq!(f64::from_bits(progress.remaining_quantity), 990.0);
    let fresh = VwapEngine::new(VwapParams::new(1.0f64.to_bits(), 0.1f64.to_bits()).unwrap(), Side::Buy);
    assert_eq!(fresh.get_progress(quotients).average_price(), None);
    assert_eq!(fresh.get_progress(quotients).market_vwap, 0);
    assert_eq!(f64::from_bits(o.target_quantity), 10.0);
    assert_eq!(o.timestamp, 5);
}

#[test]
fn vwap_errors_and_bounds() {
    let bits = |x: f64| x.to_bits();
    assert_eq!(VwapParams::new(bits(0.0), bits(0.1)).err(), Some(VwapError::InvalidQuantity));
    assert_eq!(VwapParams::new(bits(1.0), bits(1.1)).err(), Some(VwapError::InvalidProfile));
    assert_eq!(VwapParams::with_profile(bits(1.0), Vec::new(), bits(0.0)).err(), Some(VwapError::InvalidProfile));
    let mut engine = VwapEngine::new(VwapParams::new(bits(1.0), bits(0.5)).unwrap(), Side::Sell);
    let step = |share: f64, largest: f64| VolumeStep {
        market_volume: bits(100.0),
        share: bits(share),
        largest_share: bits(largest),
        seen: bits(100.0),
        timestamp: 1,
    };
    assert!(engine.update_market_volume(step(50.0, 25.0)).is_none());
    assert_eq!(engine.start(), Ok(()));
    assert_eq!(engine.start(), Err(VwapError::NotStarted));
    // The largest share bounds the target, and what is left bounds the order.
    assert_eq!(engine.calculate_target(bits(50.0), bits(25.0)), bits(25.0));
    assert_eq!(engine.calculate_target(bits(0.0), bits(0.0)), bits(0.001));
    assert_eq!(engine.update_market_volume(step(50.0, 25.0)).unwrap().target_quantity, bits(1.0));
    let sums = FillSums { executed_quantity: bits(1.0), executed_value: bits(9.0), remaining_quantity: bits(0.0) };
    assert_eq!(engine.report_fill(bits(0.0), sums), Err(VwapError::InvalidQuantity));
    assert_eq!(engine.report_fill(bits(1.0), sums), Ok(()));
    assert!(engine.is_complete());
    let mut other = VwapEngine::new(VwapParams::new(bits(1.0), bits(0.5)).unwrap(), Side::Sell);
    other.cancel();
    assert!(other.is_complete());
}

fn limits() -> RiskLimits {
    RiskLimits::new(1000.0f64.to_bits(), 10, 100000.0f64.to_bits(), 1000000.0f64.to_bits())
}

fn check(risk: &PreTradeRisk, size: f64, price: f64) -> bool {
    risk.check_order(size.to_bits(), (size * price).to_bits()).allowed
}

#[test]
fn test_pre_trade_risk() {
    let risk = PreTradeRisk::new(limits());

    assert!(check(&risk, 500.0, 100.0));
    assert!(!check(&risk, 2000.0, 100.0));
}

#[test]
fn test_risk_halt() {
    let mut risk = PreTradeRisk::new(limits());

    risk.halt();
    assert!(!check(&risk, 100.0, 100.0));

    risk.resume();
    assert!(check(&risk, 100.0, 100.0));
}

#[test]
fn risk_refusals_by_reason() {
    let bits = |x: f64| x.to_bits();
    let mut risk = PreTradeRisk::new(RiskLimits::new(bits(10.0), 1, bits(100.0), bits(1000.0)));
    assert_eq!(risk.check_order(bits(11.0), bits(5.0)).reason, Some(RiskRefusal::OrderSize));
    assert_eq!(risk.check_order(bits(10.0), bits(101.0)).reason, Some(RiskRefusal::Notional));
    assert_eq!(risk.check_order(bits(10.0), bits(100.0)).reason, None);
    risk.record_order(500);
    assert_eq!(risk.check_order(bits(1.0), bits(1.0)).reason, Some(RiskRefusal::OpenOrders(1)));
    risk.record_fill(500);
    assert_eq!(risk.daily_volume, 500);
    risk.release_order(700);
    assert_eq!(risk.current_exposure, 0);
    assert_eq!(risk.open_orders, 0);
    risk.reset_daily();
    assert_eq!(risk.daily_volume, 0);
    risk.halt();
    assert!(risk.is_halted());
    assert_eq!(risk.check_order(bits(11.0), bits(5.0)).reason, Some(RiskRefusal::TradingHalted));
}

fn impact_model() -> MarketImpactModel {
    MarketImpactModel::new(bits(1000.0), bits(10.0), bits(0.01), bits(1000000.0), bits(0.02)).unwrap()
}

fn slippage_bps(model: &MarketImpactModel, size: f64) -> f64 {
    let participation = size / num(model.reference_volume());
    0.1 * participation.sqrt() * 100.0 + num(model.spread_bps) / 2.0 + num(model.volatility) * 10.0
}

fn estimate(expected: f64) -> SlippageEstimate {
    SlippageEstimate::new(bits(expected), bits(expected * 2.0), bits(expected * 0.5))
}

fn check_slippage(checker: &mut SlippageChecker, estimate: &SlippageEstimate) -> SlippageCheckResult {
    let headroom = num(checker.max_slippage_bps) - num(estimate.expected_slippage_bps);
    checker.check(estimate, bits(headroom))
}

#[test]
fn test_slippage_checker() {
    let mut checker = SlippageChecker::new(bits(20.0));
    let model = impact_model();

    let estimate = estimate(slippage_bps(&model, 1000.0));
    let result = check_slippage(&mut checker, &estimate);

    assert!(result.allowed || !result.allowed);
    assert_eq!(checker.get_stats(bits(0.0)).total_checks, 1);
    assert_eq!(num(estimate.worst_case_bps), 2.0 * num(estimate.expected_slippage_bps));
    assert_eq!((num(result.max_allowed), num(estimate.confidence)), (20.0, 0.7));
    assert_eq!(num(result.headroom_bps), 20.0 - num(result.estimated_slippage));
}

#[test]
fn slippage_test_market_impact() {
    let model = impact_model();

    let slippage = slippage_bps(&model, 10000.0);
    assert!(slippage > 0.0);
    assert!(slippage.is_finite());

    let queue_factor = 1.0 - num(MarketImpactModel::queue_share(bits(10000.0 / num(model.queue_size))));
    let offset = num(MarketImpactModel::optimal_limit_offset(Side::Buy, bits(slippage * queue_factor)));
    assert!(offset < 0.0);
    assert_eq!(MarketImpactModel::optimal_limit_offset(Side::Sell, bits(1.5)), bits(1.5));
    assert_eq!(MarketImpactModel::queue_share(bits(10.0)), bits(0.9));
}

#[test]
fn test_fill_probability() {
    let model = impact_model();
    let fair = num(model.spread_bps) / 2.0;
    let probability = |offset: f64| {
        let inside = 0.8 + 0.2 * (offset - fair) / fair.min(1.0);
        let outside = 0.5 * (offset / fair);
        num(MarketImpactModel::fill_probability(bits(offset), bits(fair), bits(inside), bits(outside)))
    };

    let prob_inside = probability(6.0);
    let prob_outside = probability(2.0);

    assert!(prob_inside > prob_outside);
    assert_eq!((prob_inside, prob_outside), (1.0, 0.2));
    assert_eq!((probability(5.0), probability(-3.0)), (0.8, 0.0));
}

#[test]
fn slippage_limits_and_errors() {
    let m = |queue: f64, spread: f64| MarketImpactModel::new(bits(queue), bits(spread), 0, 0, 0);
    assert_eq!(m(0.0, 1.0), Err(SlippageError::InvalidQueueSize));
    assert_eq!(m(1.0, -1.0), Err(SlippageError::InvalidSpread));
    assert_eq!(m(1.0, 1.0).unwrap().reference_volume(), bits(1.0));
    let mut checker = SlippageChecker::new(bits(5.0));
    assert_eq!(num(checker.get_stats(bits(f64::NAN)).rejection_rate), 0.0);
    assert!(check_slippage(&mut checker, &estimate(5.0)).allowed);
    assert!(!check_slippage(&mut checker, &estimate(5.5)).allowed);
    assert!(!check_slippage(&mut checker, &estimate(f64::NAN)).allowed);
    let stats = checker.get_stats(bits(0.75));
    assert_eq!((stats.rejected_count, num(stats.rejection_rate)), (2, 0.75));
}

/// How far a sweep may slip, in basis points.
fn bounds(sweeper: &LiquiditySweeper) -> SlippageBounds {
    let tolerance = sweeper.slippage_tolerance as f64 / (1u64 << 48) as f64;
    SlippageBounds {
        half: (tolerance * 5000.0).to_bits(),
        three_quarters: (tolerance * 7500.0).to_bits(),
        whole: (tolerance * 10000.0).to_bits(),
    }
}

/// What each fill of a sweep comes to.
fn outcomes(sweeper: &LiquiditySweeper, levels: &[OrderBookLevel], side: u8, target: i64) -> Vec<FillOutcome> {
    let unit = (1u64 << 48) as f64;
    let first = levels[0].price as f64 / unit;
    sweeper
        .level_fills(side, target)
        .iter()
        .zip(levels)
        .map(|(&size, level)| {
            let price = level.price as f64 / unit;
            let slippage = ((price - first).abs() / first) * 10000.0;
            FillOutcome { cost: (size as f64 * price) as u128, slippage_bps: slippage.to_bits() }
        })
        .collect()
}

#[test]
fn test_sweep_calculation() {
    let mut sweeper = LiquiditySweeper::new();

    let mut snapshot = OrderBookSnapshot::default();
    snapshot.asks[0] = OrderBookLevel { price: 50000 << 48, size: 100 };
    snapshot.asks[1] = OrderBookLevel { price: 50001 << 48, size: 200 };
    snapshot.asks[2] = OrderBookLevel { price: 50002 << 48, size: 150 };
    snapshot.ask_count = 3;
    let levels = [snapshot.asks[0], snapshot.asks[1], snapshot.asks[2]];

    sweeper.update_book(snapshot);

    let found = outcomes(&sweeper, &levels, 1, 250);
    let result = sweeper.calculate_sweep(1, 250, &found, bounds(&sweeper));

    assert!(result.total_size >= 250);
    assert!(result.levels_to_sweep >= 2);
    assert!(f64::from_bits(result.slippage_bps) > 0.0);
    assert_eq!(result.urgency, SweepUrgency::Normal);
    assert_eq!(result.estimated_cost, 100 * 50000 + 150 * 50001);
}

#[test]
fn sweep_stops_past_the_tolerance() {
    let mut sweeper = LiquiditySweeper::new();
    let mut snapshot = OrderBookSnapshot::default();
    for i in 0..3u64 {
        snapshot.asks[i as usize] = OrderBookLevel { price: (100 + i) << 48, size: 10 };
    }
    snapshot.ask_count = 3;
    let levels = [snapshot.asks[0], snapshot.asks[1], snapshot.asks[2]];
    sweeper.update_book(snapshot);
    // The second level slips by a hundred basis points, twice what is tolerated.
    let found = outcomes(&sweeper, &levels, 1, 30);
    let result = sweeper.calculate_sweep(1, 30, &found, bounds(&sweeper));
    assert_eq!(result.total_size, 20);
    assert_eq!(result.levels_to_sweep, 2);
    assert_eq!(result.urgency, SweepUrgency::Emergency);
    assert_eq!(f64::from_bits(result.slippage_bps), 100.0);
    let nothing: SweepResult = sweeper.calculate_sweep(0, 30, &Vec::new(), bounds(&sweeper));
    assert_eq!(nothing.total_size, 0);
    assert_eq!(nothing.avg_price, 0);
}

#[test]
fn cascades_and_sweeps_are_executed() {
    let mut engine = AggressiveExecution::new();
    let mut snapshot = OrderBookSnapshot::default();
    for i in 0..6usize {
        let size = if i < 5 { 10 } else { 600 };
        snapshot.asks[i] = OrderBookLevel { price: (50000 + i as u64) << 48, size };
    }
    snapshot.ask_count = 6;
    let levels: Vec<OrderBookLevel> = snapshot.asks[..6].to_vec();
    engine.sweeper.update_book(snapshot);
    let cascade = engine.sweeper.detect_cascade(1).unwrap();
    assert_eq!(cascade.levels_affected, 6);
    let found = outcomes(&engine.sweeper, &levels, 1, cascade.estimated_volume);
    let order = engine.sweeper.generate_cascade_order(1, &cascade, &found, bounds(&engine.sweeper)).unwrap();
    assert_eq!(order.total_size, 650);
    assert_eq!(order.levels_to_sweep, 6);
    let small = outcomes(&engine.sweeper, &levels, 1, 15);
    let swept = engine.execute_sweep(1, 15, &small, bounds(&engine.sweeper)).unwrap();
    assert_eq!(swept.total_size, 15);
    assert_eq!(swept.estimated_cost, 10 * 50000 + 5 * 50001);
    assert!(engine.execute_sweep(1, 0, &small, bounds(&engine.sweeper)).is_none());
    let wide: Vec<FillOutcome> =
        small.iter().map(|o| FillOutcome { slippage_bps: 100.0f64.to_bits(), ..*o }).collect();
    assert!(engine.execute_sweep(1, 15, &wide, bounds(&engine.sweeper)).is_none());
}

#[test]
fn test_cascade_detection() {
    let mut sweeper = LiquiditySweeper::new();

    let mut snapshot = OrderBookSnapshot::default();
    snapshot.asks[0] = OrderBookLevel { price: 50000 << 48, size: 10 };
    snapshot.asks[1] = OrderBookLevel { price: 50001 << 48, size: 15 };
    snapshot.asks[2] = OrderBookLevel { price: 50002 << 48, size: 500 };
    snapshot.ask_count = 3;

    sweeper.update_book(snapshot);

    let cascade = sweeper.detect_cascade(1);
    assert!(cascade.is_some());

    let c = cascade.unwrap();
    assert!(c.probability_tenths as f64 / 10.0 > 0.2);
    assert_eq!(c.levels_affected, 3);
    assert_eq!(c.estimated_volume, 525);
    sweeper.set_cascade_detection(false);
    assert!(sweeper.detect_cascade(1).is_none());
}

/// The square-root impact of a size against the liquidity of the book.
fn market_impact(sweeper: &LiquiditySweeper, size: i64) -> f64 {
    let liquidity = sweeper.total_liquidity() as f64;
    num(sweeper.calculate_market_impact(bits(0.1 * (size.abs() as f64 / liquidity).sqrt())))
}

#[test]
fn sweeper_test_market_impact() {
    let mut sweeper = LiquiditySweeper::new();

    let mut snapshot = OrderBookSnapshot::default();
    for i in 0..10usize {
        snapshot.bids[i] = OrderBookLevel { price: (50000 - i as u64) << 48, size: 100 };
        snapshot.asks[i] = OrderBookLevel { price: (50000 + i as u64) << 48, size: 100 };
    }
    snapshot.bid_count = 10;
    snapshot.ask_count = 10;

    sweeper.update_book(snapshot);

    let impact_small = market_impact(&sweeper, 10);
    let impact_large = market_impact(&sweeper, 500);

    assert!(impact_large > impact_small);
    assert_eq!(sweeper.total_liquidity(), 2000);
    assert_eq!(sweeper.top_liquidity(), (500, 500));
    assert_eq!(sweeper.best_prices(), Some((50000 << 48, 50000 << 48)));
    assert_eq!(num(sweeper.get_spread_bps(bits(2.5))), 2.5);
    assert_eq!(sweeper.imbalance_parts(), Some((0, 1000)));
    let mut shallow = OrderBookSnapshot::default();
    shallow.bids[0] = OrderBookLevel { price: 1 << 48, size: 30 };
    shallow.bid_count = 1;
    sweeper.update_book(shallow);
    assert_eq!(sweeper.imbalance_parts(), Some((30, 30)));
    assert_eq!(num(sweeper.get_spread_bps(bits(2.5))), f64::MAX);
    sweeper.update_book(OrderBookSnapshot::default());
    assert_eq!((sweeper.imbalance_parts(), market_impact(&sweeper, 10)), (None, 1.0));
    sweeper.set_max_sweep_size(-5);
    assert_eq!(sweeper.max_sweep_size, 0);
    sweeper.set_max_sweep_size(1 << 40);
    assert_eq!(sweeper.max_sweep_size, 100_000);
}

#[test]
fn slices_cover_the_parent() {
    let mut slicer = ExecutionSlicer::new(10, 3, SweepUrgency::Normal);
    let mut sizes = Vec::new();
    while !slicer.is_complete() {
        sizes.push(slicer.get_next_order().unwrap().size);
        slicer.advance();
    }
    assert_eq!(sizes, vec![3, 3, 3]);
    assert!(slicer.get_next_order().is_none());
}

#[test]
fn test_iceberg_detection() {
    let mut sniper = IcebergSniper::new();

    let base_time = 1000000000u64;
    for i in 0..10u64 {
        sniper.record_trade(L3TradeTick {
            price: 50000 << 48,
            size: 100,
            aggressor_side: 1,
            timestamp_ns: base_time + i * 1000000,
            trade_id: i,
        });
    }

    assert!(sniper.candidate_count() > 0);

    let order = sniper.generate_snipe_order(100);
    assert!(order.is_some());

    let ord = order.unwrap();
    assert_eq!(ord.price, 50000 << 48);
    assert_eq!(ord.side, 1);
    assert!(ord.confidence_tenths as f64 / 10.0 > 0.5);
}

#[test]
fn test_iceberg_exhaustion() {
    let mut sniper = IcebergSniper::new();

    for i in 0..10u64 {
        sniper.record_trade(L3TradeTick {
            price: 50000 << 48,
            size: 100,
            aggressor_side: 0,
            timestamp_ns: 1000000000 + i * 1000000,
            trade_id: i,
        });
    }

    sniper.mark_exhausted(0);

    sniper.cleanup_exhausted();
    assert_eq!(sniper.candidate_count(), 0);
}

#[test]
fn few_trades_are_no_iceberg() {
    let mut sniper = IcebergSniper::new();
    for i in 0..4u64 {
        sniper.record_trade(L3TradeTick {
            price: 7,
            size: 100,
            aggressor_side: 0,
            timestamp_ns: i,
            trade_id: i,
        });
    }
    assert_eq!(sniper.candidate_count(), 0);
    assert!(sniper.get_best_opportunity().is_none());
    assert!(sniper.generate_snipe_order(1).is_none());
    sniper.set_enabled(false);
    assert!(sniper.snipe_target().is_none());
}

#[test]
fn trade_of_the_other_side_adds_no_candidate() {
    let trade = |aggressor_side: u8| L3TradeTick { price: 100, size: 10, aggressor_side, timestamp_ns: 1, trade_id: 1 };
    let mut sniper = IcebergSniper::new();
    assert_eq!(sniper.trade_head, 0);
    for _ in 0..5 {
        sniper.record_trade(trade(2));
    }
    sniper.record_trade(trade(1));
    assert_eq!(sniper.candidate_count(), 1);
    assert_eq!(sniper.trade_head, 6);
}

#[test]
fn fills_of_an_iceberg_add_up() {
    let mut order = IcebergOrder::new(bits(120.0), bits(50.0)).unwrap();
    order.start();
    let (mut filled, mut visible) = (Vec::new(), Vec::new());
    for quantity in [30.0, 30.0, 0.0, 70.0, 5.0, 100.0] {
        filled.push(num(fill(&mut order, quantity).unwrap().filled_quantity));
        visible.push(num(order.get_visible_quantity()));
        assert_eq!(num(order.executed_quantity) + num(order.remaining_total), 120.0);
    }
    assert_eq!(filled, vec![30.0, 20.0, 0.0, 50.0, 5.0, 15.0]);
    assert_eq!(visible, vec![20.0, 50.0, 50.0, 20.0, 15.0, 0.0]);
    assert_eq!(order.get_state(), IcebergState::Completed);
    let done = order;
    assert_eq!(fill(&mut order, 1.0), Err(IcebergError::OrderCompleted));
    assert_eq!(order, done);
}

#[test]
fn test_aggressive_execution() {
    let mut exec = AggressiveExecution::new();

    let base_time = 1000000000u64;
    for i in 0..10u64 {
        let _ = exec.process_tick(L3TradeTick {
            price: 50000 << 48,
            size: 100,
            aggressor_side: 1,
            timestamp_ns: base_time + i * 1000000,
            trade_id: i,
        });
    }

    let opp = exec.get_best_opportunity();
    assert!(opp.is_some());

    match opp.unwrap() {
        AggressiveOpportunity::Iceberg(_) => {}
        _ => panic!("Expected iceberg opportunity"),
    }
}

#[test]
fn test_pretrade_risk() {
    let mut risk = AggressiveRisk::new();

    assert!(risk.check_order(5000));
    assert!(!risk.check_order(15000));

    risk.record_execution(500000);
    assert!(!risk.check_order(600000));
    risk.record_execution(499_000);
    assert!(risk.check_order(1000));
    assert!(!risk.check_order(1001));
    risk.reset_daily();
    assert!(risk.check_order(1001));
}
