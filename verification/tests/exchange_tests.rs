use hft_core::exchange::auction_book::{AuctionBook, AuctionOrder, Side};
use hft_core::exchange::auction_engine::{same_symbol, AuctionEngine, AuctionPhase, IndicativePriceData};
use hft_core::exchange::control::{ExchangeControl, ExchangeControlManager};
use hft_core::exchange::halt_detector::{
    parse_halt_message, CircuitBreakerLevel, HaltDetector, HaltEvent, TradingState,
};
use hft_core::gateway::venue::VenueId;

fn order(order_id: u64, symbol: [u8; 12], side: Side, price_ticks: i64, quantity: u64) -> AuctionOrder {
    AuctionOrder {
        order_id,
        symbol,
        side,
        price_ticks,
        quantity,
        remaining_qty: quantity,
        timestamp_ns: 0,
        is_market_order: false,
        stp_group_id: None,
    }
}

#[test]
fn test_auction_phase_transitions() {
    assert!(AuctionPhase::PreOpen.allows_order_entry());
    assert!(!AuctionPhase::Freeze.allows_order_entry());
    assert!(AuctionPhase::Freeze.allows_cancellation());
    assert!(!AuctionPhase::Executing.allows_cancellation());
}

#[test]
fn test_auction_engine_basic() {
    let mut engine = AuctionEngine::new(VenueId::Nasdaq, 100);
    let symbol = b"TEST        ";

    assert!(!engine.is_auction_active());

    engine.start_auction(symbol, 5000, 1_000);

    assert!(engine.is_auction_active());
    assert_eq!(engine.get_symbol_phase(symbol), AuctionPhase::PreOpen);
}

#[test]
fn test_auction_order_submission() {
    let mut engine = AuctionEngine::new(VenueId::Nasdaq, 100);
    let symbol = *b"AAPL        ";

    engine.start_auction(&symbol, 5000, 0);

    let order = AuctionOrder {
        order_id: 1,
        symbol,
        side: Side::Buy,
        price_ticks: 15000,
        quantity: 100,
        remaining_qty: 100,
        timestamp_ns: 0,
        is_market_order: false,
        stp_group_id: None,
    };

    assert!(engine.submit_auction_order(order).is_ok());
}

#[test]
fn test_trading_state_transitions() {
    assert!(TradingState::Open.is_tradeable());
    assert!(TradingState::PreOpen.is_tradeable());
    assert!(!TradingState::VolatilityHalt.is_tradeable());
    assert!(!TradingState::TechnicalHalt.is_tradeable());
}

#[test]
fn test_halt_detector_basic() {
    let venues = vec![VenueId::Nasdaq];
    let detector = HaltDetector::new(&venues);

    assert!(!detector.global_kill_switch);
    assert!(detector.is_venue_tradeable(VenueId::Nasdaq));
}

#[test]
fn test_parse_halt_message() {
    let mut data = vec![0u8; 32];
    data[0] = 0x48;
    data[1] = 0x01;
    data[2] = 0x00;
    data[14] = 3;
    data[15] = 1;

    let result = parse_halt_message(&data, VenueId::Nasdaq);
    assert!(result.is_some());
    let event = result.unwrap();
    assert_eq!(event.state, TradingState::VolatilityHalt);
    assert_eq!(event.circuit_breaker_level, CircuitBreakerLevel::Level1);
}

#[test]
fn test_exchange_control_basic() {
    let venues = vec![VenueId::Nasdaq];
    let control = ExchangeControl::new(VenueId::Nasdaq, &venues);

    assert!(control.is_venue_tradeable());
    assert!(!control.get_global_kill_switch());
}

#[test]
fn halt_mod_test_manager_creation() {
    let venues = vec![VenueId::Nasdaq, VenueId::NYSE];
    let manager = ExchangeControlManager::new(&venues);

    assert!(manager.get_control(VenueId::Nasdaq).is_some());
    assert!(manager.get_control(VenueId::NYSE).is_some());
    assert!(!manager.any_venue_halted());
}

#[test]
fn indicative_price_executes_the_most_volume() {
    let symbol = *b"AAPL        ";
    let mut book = AuctionBook::new(symbol);
    book.add_order(order(1, symbol, Side::Buy, 105, 50));
    book.add_order(order(2, symbol, Side::Buy, 103, 100));
    book.add_order(order(3, symbol, Side::Sell, 101, 60));
    book.add_order(order(4, symbol, Side::Sell, 104, 70));
    let ip = book.calculate_indicative_price().unwrap();
    // At 103 the buys come to 150 and the sells to 60; no price executes more.
    assert_eq!(ip.executable_volume, 60);
    assert_eq!(ip.total_buy_volume, 150);
    assert_eq!(ip.total_sell_volume, 130);
    let data = IndicativePriceData::from(&ip);
    assert_eq!(data.price_ticks, ip.price_ticks);
    assert_eq!(data.executable_volume, 60);
}

#[test]
fn book_without_both_sides_does_not_clear() {
    let symbol = *b"AAPL        ";
    let mut book = AuctionBook::new(symbol);
    assert!(book.calculate_indicative_price().is_none());
    book.add_order(order(1, symbol, Side::Buy, 105, 50));
    assert!(book.calculate_indicative_price().is_none());
}

#[test]
fn cancel_undoes_add() {
    let symbol = *b"AAPL        ";
    let mut book = AuctionBook::new(symbol);
    book.add_order(order(1, symbol, Side::Buy, 105, 50));
    book.add_order(order(2, symbol, Side::Buy, 107, 10));
    let taken = book.cancel_order(2).unwrap();
    assert_eq!(taken.order_id, 2);
    assert!(book.cancel_order(2).is_none());
    let left = book.clear_book();
    assert_eq!(left.len(), 1);
    assert_eq!(left[0].order_id, 1);
}

#[test]
fn buys_are_queued_from_the_highest_price() {
    let symbol = *b"AAPL        ";
    let mut book = AuctionBook::new(symbol);
    book.add_order(order(1, symbol, Side::Buy, 100, 5));
    book.add_order(order(2, symbol, Side::Buy, 102, 5));
    book.add_order(order(3, symbol, Side::Buy, 101, 5));
    let ids: Vec<u64> = book.clear_book().iter().map(|o| o.order_id).collect();
    assert_eq!(ids, vec![2, 3, 1]);
}

#[test]
fn modified_order_is_found_at_its_price() {
    let symbol = *b"AAPL        ";
    let mut book = AuctionBook::new(symbol);
    book.add_order(order(1, symbol, Side::Sell, 100, 5));
    assert!(book.modify_order(1, 8, Some(90)));
    assert!(!book.modify_order(9, 8, None));
    let o = book.cancel_order(1).unwrap();
    assert_eq!(o.price_ticks, 90);
    assert_eq!(o.quantity, 8);
}

#[test]
fn frozen_auction_refuses_orders() {
    let symbol = *b"MSFT        ";
    let mut engine = AuctionEngine::new(VenueId::NYSE, 4);
    engine.start_auction(&symbol, 1, 0);
    engine.transition_phase(&symbol, AuctionPhase::Freeze, 5);
    assert_eq!(
        engine.submit_auction_order(order(1, symbol, Side::Buy, 1, 1)),
        Err("Order entry not allowed in current auction phase")
    );
    assert!(engine.cancel_auction_order(1, &symbol).unwrap().is_none());
    engine.transition_phase(&symbol, AuctionPhase::Executing, 6);
    assert!(engine.cancel_auction_order(1, &symbol).is_err());
    assert!(engine.modify_auction_order(1, &symbol, 1, None).is_err());
}

#[test]
fn symbols_have_auctions_of_their_own() {
    let a = *b"AAPL        ";
    let b = *b"MSFT        ";
    let mut engine = AuctionEngine::new(VenueId::NYSE, 4);
    engine.start_auction(&a, 1, 0);
    assert_eq!(engine.get_symbol_phase(&b), AuctionPhase::Inactive);
    assert_eq!(engine.get_symbol_phase(&a), AuctionPhase::PreOpen);
    assert!(same_symbol(&a, &a));
    assert!(!same_symbol(&a, &b));
    engine.emergency_end_all();
    assert_eq!(engine.get_symbol_phase(&a), AuctionPhase::Inactive);
    assert!(!engine.is_auction_active());
}

#[test]
fn execution_empties_the_book() {
    let symbol = *b"AAPL        ";
    let mut engine = AuctionEngine::new(VenueId::NYSE, 4);
    engine.start_auction(&symbol, 1, 0);
    assert!(engine.submit_auction_order(order(1, symbol, Side::Buy, 10, 3)).is_ok());
    assert!(engine.submit_auction_order(order(2, symbol, Side::Sell, 9, 2)).is_ok());
    let price = engine.get_indicative_price(&symbol).unwrap();
    assert_eq!(price.executable_volume, 2);
    let (found, orders) = engine.execute_auction(&symbol);
    assert_eq!(found.unwrap().executable_volume, 2);
    assert_eq!(orders.len(), 2);
    assert!(engine.get_indicative_price(&symbol).is_none());
}

#[test]
fn lone_order_is_not_executed() {
    let symbol = *b"AAPL        ";
    let mut engine = AuctionEngine::new(VenueId::NYSE, 4);
    engine.start_auction(&symbol, 1, 0);
    assert!(engine.is_auction_active());
    assert!(engine.submit_auction_order(order(1, symbol, Side::Buy, 10, 3)).is_ok());
    let (found, orders) = engine.execute_auction(&symbol);
    assert!(found.is_none());
    assert!(orders.is_empty());
    assert_eq!(engine.get_symbol_phase(&symbol), AuctionPhase::Inactive);
    assert!(!engine.is_auction_active());
}

#[test]
fn only_orders_that_trade_are_executed() {
    let symbol = *b"AAPL        ";
    let other = *b"MSFT        ";
    let mut engine = AuctionEngine::new(VenueId::NYSE, 4);
    engine.start_auction(&symbol, 1, 0);
    engine.start_auction(&other, 1, 0);
    for (id, side, price, quantity) in [
        (1, Side::Buy, 10, 3),
        (2, Side::Buy, 10, 4),
        (3, Side::Buy, 5, 9),
        (4, Side::Sell, 9, 2),
        (5, Side::Sell, 20, 7),
    ] {
        assert!(engine.submit_auction_order(order(id, symbol, side, price, quantity)).is_ok());
    }
    let (found, orders) = engine.execute_auction(&symbol);
    assert_eq!(found.unwrap().executable_volume, 2);
    // The first buyer and the seller trade; the others are behind them or beyond the price.
    let mut ids: Vec<u64> = orders.iter().map(|o| o.order_id).collect();
    ids.sort();
    assert_eq!(ids, vec![1, 4]);
    assert!(engine.is_auction_active());
    engine.execute_auction(&other);
    assert!(!engine.is_auction_active());
}

#[test]
fn phases_and_states_by_number() {
    assert_eq!(AuctionPhase::from_u8(1), AuctionPhase::PreOpen);
    assert_eq!(AuctionPhase::from_u8(200), AuctionPhase::Inactive);
    assert_eq!(TradingState::from_u8(6), TradingState::Maintenance);
    assert_eq!(TradingState::from_u8(99), TradingState::Closed);
    assert_eq!(Side::from_u8(0), Side::Buy);
    assert_eq!(Side::from_u8(7), Side::Sell);
}

#[test]
fn halt_message_reads_back() {
    let mut data = vec![0u8; 32];
    data[0] = 0x48;
    data[2..14].copy_from_slice(b"\x41APL\0\0\0\0\0\0\0\0");
    data[14] = 4;
    data[15] = 2;
    data[16] = 9;
    data[24] = 7;
    let event = parse_halt_message(&data, VenueId::NYSE).unwrap();
    assert_eq!(event.state, TradingState::RegulatoryHalt);
    assert_eq!(event.circuit_breaker_level, CircuitBreakerLevel::Level2);
    assert_eq!(event.timestamp_ns, 9);
    assert_eq!(event.expected_resume_ns, Some(7));
    assert_eq!(event.reason_code, 0x4100);
    assert!(event.symbol_str().starts_with("AAPL"));
    assert!(parse_halt_message(&data[..31], VenueId::NYSE).is_none());
    data[0] = 0x49;
    assert!(parse_halt_message(&data, VenueId::NYSE).is_none());
}

#[test]
fn halt_of_a_symbol_turns_the_kill_switch() {
    let mut detector = HaltDetector::new(&[VenueId::Nasdaq, VenueId::NYSE]);
    let halt = HaltEvent::new(
        VenueId::Nasdaq,
        "AAPL",
        TradingState::VolatilityHalt,
        CircuitBreakerLevel::Level1,
        1,
        None,
        0,
    );
    let symbol = halt.symbol;
    assert!(detector.process_halt_message(halt).is_some());
    assert!(detector.get_kill_switch());
    assert!(!detector.is_venue_tradeable(VenueId::NYSE));
    assert!(!detector.is_symbol_tradeable(VenueId::Nasdaq, &symbol));
    assert_eq!(detector.get_symbol_state(VenueId::Nasdaq, &symbol), TradingState::VolatilityHalt);
    let resume = HaltEvent::new(
        VenueId::Nasdaq,
        "AAPL",
        TradingState::Open,
        CircuitBreakerLevel::NoLevel,
        2,
        None,
        0,
    );
    detector.process_halt_message(resume);
    assert!(!detector.get_kill_switch());
    assert!(detector.is_symbol_tradeable(VenueId::Nasdaq, &symbol));
}

#[test]
fn emergency_stop_freezes_the_venue() {
    let mut control = ExchangeControl::new(VenueId::Nasdaq, &[VenueId::Nasdaq]);
    let event = control.emergency_stop();
    assert_eq!(event.state, TradingState::TechnicalHalt);
    assert!(control.get_global_kill_switch());
    assert!(!control.is_venue_tradeable());
    let symbol = *b"AAPL        ";
    assert!(!control.is_symbol_tradeable(&symbol));
}

#[test]
fn halted_venue_is_seen_by_the_manager() {
    let mut manager = ExchangeControlManager::new(&[VenueId::Nasdaq, VenueId::NYSE]);
    assert!(!manager.get_global_kill_switch());
    let events = manager.emergency_stop_all();
    assert_eq!(events.len(), 2);
    assert!(manager.any_venue_halted());
    assert!(manager.get_global_kill_switch());
    assert!(manager.get_control(VenueId::Unknown).is_none());
}

#[test]
fn market_orders_are_priced_for_continuous_trading() {
    let symbol = *b"AAPL        ";
    let mut engine = AuctionEngine::new(VenueId::NYSE, 4);
    engine.start_auction(&symbol, 1, 0);
    let market = AuctionOrder { is_market_order: true, ..order(1, symbol, Side::Buy, 10, 3) };
    assert!(engine.submit_auction_order(market).is_ok());
    assert!(engine.submit_auction_order(order(2, symbol, Side::Sell, 12, 2)).is_ok());
    let orders = engine.reprice_for_continuous(&symbol, 77);
    let prices: Vec<(u64, i64, bool)> =
        orders.iter().map(|o| (o.order_id, o.price_ticks, o.is_market_order)).collect();
    assert_eq!(prices, vec![(1, 77, false), (2, 12, false)]);
    assert!(engine.reprice_for_continuous(&symbol, 77).is_empty());
}

#[test]
fn silent_detector_is_unhealthy() {
    let mut detector = HaltDetector::new(&[VenueId::Nasdaq]);
    assert!(detector.check_health(9_000_000_000));
    let halt = |at: u64| {
        HaltEvent::new(
            VenueId::Nasdaq,
            "AAPL",
            TradingState::VolatilityHalt,
            CircuitBreakerLevel::Level1,
            at,
            None,
            0,
        )
    };
    detector.process_halt_message(halt(1_000_000_000));
    assert!(detector.check_health(5_999_999_999));
    assert!(!detector.check_health(6_000_000_000));
    detector.set_active(false);
    assert!(detector.process_halt_message(halt(7_000_000_000)).is_none());
    let mut manager = ExchangeControlManager::new(&[VenueId::Nasdaq]);
    manager.refresh_all_states(42);
    assert_eq!(manager.get_control(VenueId::Nasdaq).unwrap().last_update_ns, 42);
}
