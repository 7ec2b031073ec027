use hft_core::execution::conditional::{
    ChildOrder, ConditionType, ConditionalExpression, ConditionalOrderRouter, MarketContext, TimeInForce,
};
use hft_core::execution::iceberg_refresh::{
    IcebergBuilder, IcebergConfig, IcebergError, IcebergManager, MarketEvent, MarketEventType,
    Side as IcebergSide,
};
use hft_core::execution::instructions::{
    generate_client_order_id, make_client_order_id, ExecutionInstruction, ExecutionManager,
    ExecutionResult, ExecutionStatus, OrderType, Side, StpMode, TimeInForce as Tif,
};
use hft_core::execution::pegged_order::{OrderSide, PegType, PeggedOrderConfig, PeggedOrderEngine};
use hft_core::execution::post_only::{
    CancelDecision, OrderStatus, PostOnlyConfig, PostOnlyError, PostOnlyManager, PostOnlyOrderBuilder,
    PostOnlyValidationResult, Side as PostOnlySide,
};
use hft_core::execution::trailing_stop::TrailingStopEngine;

const NOW: u64 = 1_000_000_000;

/// The share of a price by which it has to be adjusted.
fn share(manager: &PostOnlyManager, side: PostOnlySide, price: i64) -> u64 {
    match manager.adjusted_price(side, price) {
        Some(adjusted) => ((price - adjusted).abs() as f64 / price as f64).to_bits(),
        None => 0,
    }
}

fn validate(manager: &mut PostOnlyManager, side: PostOnlySide, price: i64) -> PostOnlyValidationResult {
    let pct = share(manager, side, price);
    manager.validate_post_only(side, price, pct, NOW)
}

#[test]
fn test_mid_peg_buy() {
    let config = PeggedOrderConfig {
        peg_type: PegType::Mid,
        side: OrderSide::Buy,
        offset_micros: -100,
        max_offset_micros: 1000,
        tick_size_micros: 100,
        maintain_queue_priority: true,
    };

    let mut engine = PeggedOrderEngine::new(config, 50000000, 1000);

    assert_eq!(engine.get_mid_price(), 50000000);

    let should_requote = engine.update_market(49990000, 50010000);
    assert!(should_requote);

    let peg = engine.get_peg_price();
    assert!(peg <= 50000000);
}

#[test]
fn test_primary_peg_sell() {
    let config = PeggedOrderConfig {
        peg_type: PegType::Primary,
        side: OrderSide::Sell,
        offset_micros: 0,
        max_offset_micros: 500,
        tick_size_micros: 100,
        maintain_queue_priority: false,
    };

    let mut engine = PeggedOrderEngine::new(config, 50000000, 500);

    engine.update_market(49990000, 50010000);

    let peg = engine.get_peg_price();
    assert_eq!(peg, 50010000);
}

#[test]
fn test_queue_score() {
    let config = PeggedOrderConfig {
        peg_type: PegType::Mid,
        side: OrderSide::Buy,
        offset_micros: -500,
        max_offset_micros: 1000,
        tick_size_micros: 100,
        maintain_queue_priority: true,
    };

    let mut engine = PeggedOrderEngine::new(config, 50000000, 1000);
    engine.update_market(49990000, 50010000);

    let score = engine.calculate_queue_score();
    assert!(score > 0 && score <= 100);
}

#[test]
fn confirmed_quote_is_not_repeated() {
    let config = PeggedOrderConfig {
        peg_type: PegType::Mid,
        side: OrderSide::Buy,
        offset_micros: -100,
        max_offset_micros: 1000,
        tick_size_micros: 100,
        maintain_queue_priority: true,
    };
    let mut engine = PeggedOrderEngine::new(config, 50000000, 1000);
    assert!(engine.update_market(49990000, 50010000));
    let peg = engine.get_peg_price();
    assert_eq!(peg, 49999900);
    engine.confirm_quote(peg);
    assert!(!engine.update_market(49990000, 50010000));
    // A crossed book changes nothing.
    assert!(!engine.update_market(50010000, 49990000));
    assert_eq!(engine.get_best_bid(), 49990000);
    engine.deactivate();
    assert!(!engine.is_active());
}

#[test]
fn test_validate_post_only_valid() {
    let mut manager = PostOnlyManager::new(PostOnlyConfig::default());
    manager.update_market_data(9900, 10100, NOW);

    let result = validate(&mut manager, PostOnlySide::Buy, 9800);
    assert_eq!(result, PostOnlyValidationResult::Valid);

    let result = validate(&mut manager, PostOnlySide::Sell, 10200);
    assert_eq!(result, PostOnlyValidationResult::Valid);
}

#[test]
fn test_validate_post_only_requires_adjustment() {
    let mut manager = PostOnlyManager::new(PostOnlyConfig::default());
    manager.update_market_data(9900, 10100, NOW);

    let result = validate(&mut manager, PostOnlySide::Buy, 10100);
    assert!(matches!(result, PostOnlyValidationResult::RequiresAdjustment { .. }));

    let result = validate(&mut manager, PostOnlySide::Sell, 9900);
    assert!(matches!(result, PostOnlyValidationResult::RequiresAdjustment { .. }));
}

#[test]
fn test_spread_too_tight() {
    let mut config = PostOnlyConfig::default();
    config.min_spread_bps = 50;
    let mut manager = PostOnlyManager::new(config);
    manager.update_market_data(9990, 10010, NOW);

    let result = validate(&mut manager, PostOnlySide::Buy, 9900);
    assert!(matches!(result, PostOnlyValidationResult::SpreadTooTight(_)));
}

#[test]
fn test_fill_risk_detection() {
    let mut manager = PostOnlyManager::new(PostOnlyConfig::default());
    manager.update_market_data(9900, 10100, NOW);

    let _order = manager
        .submit_post_only(
            "ORD001".to_string(),
            "BTCUSDT".to_string(),
            PostOnlySide::Buy,
            9800,
            100,
            0,
            NOW,
        )
        .unwrap();

    let decision = manager.check_fill_risk_and_cancel("ORD001");
    assert_eq!(decision, Some(CancelDecision::NoRisk));

    manager.update_market_data(9900, 9750, NOW);

    let decision = manager.check_fill_risk_and_cancel("ORD001");
    assert_eq!(decision, Some(CancelDecision::CancelToAvoidTakerExecution));
}

#[test]
fn crossing_order_is_moved_behind_the_spread() {
    let mut manager = PostOnlyManager::new(PostOnlyConfig::default());
    manager.update_market_data(9900, 10100, NOW);
    let order = manager
        .submit_post_only("A".to_string(), "X".to_string(), PostOnlySide::Buy, 10100, 1, 0.0001f64.to_bits(), NOW)
        .unwrap();
    assert_eq!(order.submitted_price, 10099);
    assert!(order.price_modified);
    assert_eq!(manager.stats().orders_price_adjusted, 1);
    manager.update_order_status("A", OrderStatus::LiveOnBook);
    assert!(manager.check_fill_risk_and_cancel("B").is_none());
}

#[test]
fn post_only_errors() {
    let mut manager = PostOnlyManager::new(PostOnlyConfig::default());
    let submit = |m: &mut PostOnlyManager, price: i64, now: u64| {
        let pct = share(m, PostOnlySide::Buy, price);
        m.submit_post_only("A".to_string(), "X".to_string(), PostOnlySide::Buy, price, 1, pct, now)
            .err()
    };
    assert_eq!(submit(&mut manager, 1, NOW), Some(PostOnlyError::StaleMarketData));
    manager.update_market_data(9900, 10100, NOW);
    assert_eq!(submit(&mut manager, 9800, 2 * NOW), Some(PostOnlyError::StaleMarketData));
    assert!(matches!(
        submit(&mut manager, 10200, NOW),
        Some(PostOnlyError::PriceAdjustmentTooLarge(_))
    ));
    manager.trip_circuit_breaker();
    assert!(manager.is_circuit_breaker_active());
    assert_eq!(submit(&mut manager, 9800, NOW), Some(PostOnlyError::CircuitBreakerActive));
    manager.reset_circuit_breaker();
    manager.update_market_data(10000, 10001, NOW);
    assert!(matches!(submit(&mut manager, 9800, NOW), Some(PostOnlyError::SpreadTooTight(_))));
    let missing = PostOnlyOrderBuilder::new().price(1).build(&mut manager, 0, NOW);
    assert!(matches!(missing, Err(PostOnlyError::InvalidParameters(_))));
}

#[test]
fn test_simple_condition() {
    let expr = ConditionalExpression::new().with_condition(ConditionType::CvdGreaterThan(1000));

    let ctx_positive = MarketContext { cvd: 2000, ..Default::default() };
    let ctx_negative = MarketContext { cvd: 500, ..Default::default() };

    assert!(expr.evaluate(&ctx_positive));
    assert!(!expr.evaluate(&ctx_negative));
}

#[test]
fn test_and_conditions() {
    let expr = ConditionalExpression::new()
        .with_condition(ConditionType::CvdGreaterThan(1000))
        .and(ConditionType::SpreadLessThan(500));

    let ctx_pass = MarketContext { cvd: 2000, spread_micros: 300, ..Default::default() };
    let ctx_fail_cvd = MarketContext { cvd: 500, spread_micros: 300, ..Default::default() };
    let ctx_fail_spread = MarketContext { cvd: 2000, spread_micros: 600, ..Default::default() };

    assert!(expr.evaluate(&ctx_pass));
    assert!(!expr.evaluate(&ctx_fail_cvd));
    assert!(!expr.evaluate(&ctx_fail_spread));
}

fn child() -> ChildOrder {
    ChildOrder {
        is_buy: true,
        quantity: 100,
        limit_price_micros: 0,
        tif: TimeInForce::ImmediateOrCancel,
        venue_id: 1,
    }
}

#[test]
fn test_router_execution() {
    let mut router = ConditionalOrderRouter::new();

    let expr = ConditionalExpression::new().with_condition(ConditionType::PriceAbove(50000000));

    let order_id = router.add_order(expr, child(), 0).unwrap();
    assert_eq!(order_id, 1);

    let ctx = MarketContext { current_price: 51000000, timestamp_ns: 1000000, ..Default::default() };

    let executed_orders = router.evaluate_and_execute(&ctx);

    assert_eq!(executed_orders.len(), 1);
    assert_eq!(router.get_execution_count(), 1);
}

#[test]
fn or_chain_needs_one_condition() {
    let expr = ConditionalExpression::new()
        .with_condition(ConditionType::PriceAbove(100))
        .or(ConditionType::FlagSet(2))
        .or(ConditionType::VolatilityBelow(5));
    let none = MarketContext { current_price: 50, volatility_scaled: 9, ..Default::default() };
    assert!(!expr.evaluate(&none));
    assert!(expr.evaluate(&MarketContext { flags: 4, ..none }));
    assert!(expr.evaluate(&MarketContext { volatility_scaled: 4, ..none }));
}

#[test]
fn orders_fire_once_and_can_be_cancelled() {
    let mut router = ConditionalOrderRouter::new();
    let expr = || ConditionalExpression::new().with_condition(ConditionType::PriceBelow(10));
    let first = router.add_order(expr(), child(), 0).unwrap();
    let second = router.add_order(expr(), child(), 0).unwrap();
    assert_eq!(router.get_active_count(), 2);
    assert!(router.cancel_order(second));
    assert!(!router.cancel_order(99));
    let ctx = MarketContext { current_price: 5, timestamp_ns: 1, ..Default::default() };
    assert_eq!(router.evaluate_and_execute(&ctx).len(), 1);
    assert_eq!(router.evaluate_and_execute(&ctx).len(), 0);
    assert!(!router.cancel_order(first));
    router.disable();
    assert_eq!(router.evaluate_and_execute(&ctx).len(), 0);
    router.enable();
    router.clear();
    assert_eq!(router.get_active_count(), 0);
}

#[test]
fn test_trailing_stop_long() {
    let mut engine = TrailingStopEngine::new(50000000, 50, 2000, true, 100);

    assert_eq!(engine.get_best_price(), 50000000);
    assert!(!engine.is_triggered());

    engine.update_price(51000000, NOW);
    assert_eq!(engine.get_best_price(), 51000000);

    engine.update_price(49000000, 2 * NOW);
    assert!(engine.is_triggered());
}

#[test]
fn test_trailing_stop_short() {
    let mut engine = TrailingStopEngine::new(50000000, 50, 2000, false, 100);

    engine.update_price(49000000, NOW);
    assert_eq!(engine.get_best_price(), 49000000);
}

#[test]
fn stop_is_a_share_behind_the_price() {
    let mut engine = TrailingStopEngine::new(1_000_000, 100, 1000, true, 0);
    assert_eq!(engine.get_stop_price(), 990_000);
    engine.update_price(1_100_000, NOW);
    assert_eq!(engine.get_stop_price(), 1_089_000);
    engine.update_price(1_095_000, 2 * NOW);
    assert_eq!(engine.get_stop_price(), 1_089_000);
    assert!(engine.check_trigger(1_080_000));
    assert_eq!(engine.get_triggered_price(), 1_080_000);
    engine.reset(500_000);
    assert!(!engine.is_triggered());
    assert_eq!(engine.get_stop_price(), 495_000);
}

/// The bounds of what is shown, a share either side.
fn bounds(display: i64, share: f64) -> (i64, i64) {
    let d = display as f64;
    ((d * (1.0 - share)) as i64, (d * (1.0 + share)) as i64)
}

#[test]
fn test_create_iceberg_order() {
    let mut manager = IcebergManager::new(IcebergConfig::default());

    let order = manager
        .create_iceberg(
            "ORD001".to_string(),
            "BTCUSDT".to_string(),
            IcebergSide::Buy,
            1000,
            50000,
            100,
            bounds(100, 0.2),
            NOW,
        )
        .unwrap();

    assert_eq!(order.order_id, "ORD001");
    assert_eq!(order.total_quantity, 1000);
    assert_eq!(order.display_quantity, 100);
    assert_eq!(order.remaining_quantity, 1000);
}

#[test]
fn test_randomized_display_quantity() {
    let mut config = IcebergConfig::default();
    assert_eq!(f64::from_bits(config.randomization_pct), 0.2);
    config.randomization_pct = 0.2f64.to_bits();
    let mut manager = IcebergManager::new(config);

    let order = manager
        .create_iceberg(
            "ORD002".to_string(),
            "ETHUSDT".to_string(),
            IcebergSide::Sell,
            500,
            3000,
            50,
            bounds(50, 0.2),
            NOW,
        )
        .unwrap();

    for drawn in [-1_000, 41, 55, 1_000] {
        let qty1 = manager.calculate_next_display_qty(&order, 500, drawn);
        let qty2 = manager.calculate_next_display_qty(&order, 500, drawn + 3);

        assert!(qty1 >= order.min_display_qty && qty1 <= order.max_display_qty);
        assert!(qty2 >= order.min_display_qty && qty2 <= order.max_display_qty);
    }
}

#[test]
fn test_refresh_child_order() {
    let mut manager = IcebergManager::new(IcebergConfig::default());

    let order = manager
        .create_iceberg(
            "ORD003".to_string(),
            "BTCUSDT".to_string(),
            IcebergSide::Buy,
            1000,
            50000,
            100,
            bounds(100, 0.2),
            NOW,
        )
        .unwrap();

    let child_spec = manager.refresh_child_order(&order, 50, 95).unwrap();

    assert_eq!(child_spec.symbol, "BTCUSDT");
    assert!(child_spec.quantity > 0);
    assert!(child_spec.delay_before_submit_ms <= 2000);
}

#[test]
fn refresh_delays_differ_and_stay_in_range() {
    let manager = IcebergManager::new(IcebergConfig::default());
    let mut seen = Vec::new();
    for _ in 0..200 {
        let d = manager.calculate_refresh_delay();
        assert!(d <= 2500);
        seen.push(d);
    }
    seen.sort();
    seen.dedup();
    assert!(seen.len() > 1);
}

#[test]
fn iceberg_manager_errors() {
    let mut manager = IcebergManager::new(IcebergConfig::default());
    let bad = manager.create_iceberg(
        "A".to_string(),
        "X".to_string(),
        IcebergSide::Buy,
        10,
        1,
        11,
        (1, 1),
        NOW,
    );
    assert_eq!(bad.err(), Some(IcebergError::InvalidDisplayQuantity));
    let order = manager
        .create_iceberg("A".to_string(), "X".to_string(), IcebergSide::Buy, 10, 1, 5, (4, 6), NOW)
        .unwrap();
    assert_eq!(manager.refresh_child_order(&order, 10, 5).err(), Some(IcebergError::OrderFullyExecuted));
    assert!(manager.get_order("A").is_some());
    assert!(manager.remove_order("A").is_some());
    assert!(manager.remove_order("A").is_none());
    let built = IcebergBuilder::new()
        .order_id("B".to_string())
        .symbol("X".to_string())
        .side(IcebergSide::Sell)
        .total_quantity(10)
        .limit_price(5)
        .display_quantity(2)
        .build(&mut manager, (1, 3), NOW)
        .unwrap();
    assert_eq!(built.min_display_qty, 1);
    assert_eq!(built.max_display_qty, 3);
    assert!(IcebergBuilder::new().build(&mut manager, (1, 1), NOW).is_err());
}

#[test]
fn rapid_probes_are_sniffing() {
    let mut manager = IcebergManager::new(IcebergConfig::default());
    let mut events = Vec::new();
    for i in 0..10u64 {
        events.push(MarketEvent {
            timestamp_ns: i * 1_000,
            event_type: if i % 2 == 0 { MarketEventType::NewOrder } else { MarketEventType::Cancel },
            price: 100,
            quantity: 1,
        });
    }
    let quiet: Vec<MarketEvent> = Vec::new();
    assert!(!manager.detect_sniffing(&quiet));
    let found = manager.detect_sniffing(&events);
    assert_eq!(manager.stats().detected_sniff_attempts, if found { 1 } else { 0 });
    // Four cancellations are too few; six are enough, whatever the order of the other events.
    assert!(!found);
    let event = |timestamp_ns: u64, event_type: MarketEventType| MarketEvent { timestamp_ns, event_type, price: 100, quantity: 1 };
    let mut many = vec![event(9, MarketEventType::NewOrder), event(5, MarketEventType::NewOrder)];
    many.push(event(6, MarketEventType::NewOrder));
    for i in 0..6u64 {
        many.push(event(7 + i, MarketEventType::Cancel));
    }
    many.push(event(13, MarketEventType::NewOrder));
    assert!(manager.detect_sniffing(&many));
    assert_eq!(manager.stats().detected_sniff_attempts, 1);
}

#[test]
fn test_execution_instruction_builder() {
    let instr = ExecutionInstruction::limit("BTCUSDT".to_string(), Side::Buy, 100, 50000, 1)
        .with_post_only(true)
        .with_iceberg(10)
        .with_reduce_only(false);

    assert_eq!(instr.symbol, "BTCUSDT");
    assert!(instr.post_only);
    assert_eq!(instr.iceberg_qty, Some(10));
    assert_eq!(instr.price, Some(50000));
}

#[test]
fn test_side_conversions() {
    let iceberg_side = IcebergSide::Buy;
    let unified: Side = iceberg_side.into();
    assert_eq!(unified, Side::Buy);

    let post_only_side: PostOnlySide = Side::Sell.into();
    assert_eq!(post_only_side, PostOnlySide::Sell);
}

#[test]
fn test_generate_client_order_id() {
    let id1 = generate_client_order_id(1_700_000_000_000_000);
    let id2 = generate_client_order_id(1_700_000_000_000_001);

    assert!(id1.starts_with("HFT"));
    assert_ne!(id1, id2);
}

#[test]
fn client_order_ids_hold_time_and_suffix() {
    let a = make_client_order_id(12, 0x00ff);
    let b = make_client_order_id(12, 0x0100);
    assert!(a.starts_with("HFT"));
    assert_ne!(a, b);
    assert_eq!(a, make_client_order_id(12, 0x00ff));
    // A suffix is drawn anew each time.
    let mut seen: Vec<String> = (0..50).map(|_| generate_client_order_id(12)).collect();
    seen.sort();
    seen.dedup();
    assert!(seen.len() > 1);
}

#[test]
fn test_execution_manager() {
    let mut manager = ExecutionManager::new(IcebergConfig::default(), PostOnlyConfig::default());

    assert!(!manager.any_circuit_breaker_active());

    manager.emergency_stop();
    assert!(manager.any_circuit_breaker_active());

    manager.reset_circuit_breakers();
    assert!(!manager.any_circuit_breaker_active());
}

#[test]
fn results_are_found_again() {
    let mut manager = ExecutionManager::new(IcebergConfig::default(), PostOnlyConfig::default());
    let instr = ExecutionInstruction::market("X".to_string(), Side::Sell, 5, 9).with_stp_mode(StpMode::CancelBoth);
    assert_eq!(instr.order_type, OrderType::Market);
    assert_eq!(instr.price, None);
    manager.record_result(ExecutionResult {
        client_order_id: instr.client_order_id.clone(),
        exchange_order_id: None,
        status: ExecutionStatus::Filled,
        filled_qty: 5,
        avg_fill_price: Some(3),
        fees_paid: 0,
        maker_taker: None,
        error_message: None,
    });
    assert_eq!(manager.get_result(&instr.client_order_id).unwrap().filled_qty, 5);
    assert!(manager.get_result("other").is_none());
    assert_eq!(Tif::PostOnly.as_binance_str(), "GTC");
}

#[test]
fn peg_follows_its_offset() {
    let config = PeggedOrderConfig {
        peg_type: PegType::Mid,
        side: OrderSide::Buy,
        offset_micros: -100,
        max_offset_micros: 1000,
        tick_size_micros: 100,
        maintain_queue_priority: true,
    };
    let mut engine = PeggedOrderEngine::new(config, 50000000, 1000);
    engine.update_market(49990000, 50010000);
    assert_eq!((engine.get_best_ask(), engine.get_quantity()), (50010000, 1000));
    let (version, requotes) = (engine.get_price_version(), engine.get_requote_count());
    assert_eq!(engine.get_peg_price(), 49999900);
    engine.update_offset(-500);
    assert_eq!(engine.get_peg_price(), 49999500);
    assert_eq!((engine.get_price_version(), engine.get_requote_count()), (version + 1, requotes + 1));
    assert!(!engine.check_adverse_fill_risk());
}

#[test]
fn stop_follows_its_distance() {
    let mut engine = TrailingStopEngine::new(1_000_000, 100, 1000, true, 0);
    engine.update_trailing_distance(200);
    assert_eq!(engine.get_stop_price(), 980_000);
    engine.update_atr(100_000);
    // A wider distance does not loosen the stop.
    assert_eq!(engine.get_stop_price(), 980_000);
}

#[test]
fn rebates_and_fees_add_up() {
    let mut manager = PostOnlyManager::new(PostOnlyConfig::default());
    manager.record_maker_rebate(5);
    manager.record_maker_rebate(7);
    manager.record_taker_fee_avoided(11);
    assert_eq!((manager.stats.maker_rebates_earned, manager.stats.taker_fees_avoided), (12, 11));
    assert_eq!(ConditionalOrderRouter::new().get_rejection_count(), 0);
}

#[test]
fn positive_offset_is_more_aggressive() {
    let config = |side: OrderSide, offset_micros: i64| PeggedOrderConfig {
        peg_type: PegType::Mid,
        side,
        offset_micros,
        max_offset_micros: 1000,
        tick_size_micros: 100,
        maintain_queue_priority: false,
    };
    let peg = |side: OrderSide, offset: i64| PeggedOrderEngine::new(config(side, offset), 50000000, 10).get_peg_price();
    assert_eq!(peg(OrderSide::Buy, 300), 50000300);
    assert_eq!(peg(OrderSide::Buy, -300), 49999700);
    assert_eq!(peg(OrderSide::Sell, 300), 49999700);
    assert_eq!(peg(OrderSide::Sell, -300), 50000300);
    assert_eq!(peg(OrderSide::Sell, i64::MIN), 9223372036904775800);
}

#[test]
fn post_only_defaults() {
    let config = PostOnlyConfig::default();
    assert_eq!(f64::from_bits(config.volatility_threshold_pct), 2.0);
    assert_eq!(f64::from_bits(config.max_price_adjustment_pct), 0.001);
    assert_eq!((config.min_spread_bps, config.tick_size, config.volatility_window_ms), (5, 1, 1000));
    assert!(config.enable_circuit_breaker && config.auto_cancel_on_fill_risk);
}
