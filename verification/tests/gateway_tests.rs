use hft_core::gateway::manager::{
    ConnectOutcome, FailoverPolicy, FailoverRoute, GatewayManager, LoadBalancer, RouteStep, VenueStatus,
};
use hft_core::gateway::pool::{ConnectionPool, DisconnectReason, GatewayEvent};
use hft_core::gateway::venue::{
    score_latency, BaseVenueAdapter, ConnectionConfig, LiquidityInfo, OrderRequest, OrderResponse,
    OrderRoutingDecision, VenueError, VenueStats, VenueType,
};

fn venue(venue_id: u32, latency_ns: u64, liquidity_score: u32) -> VenueStatus {
    let mut status = VenueStatus::new(venue_id);
    status.is_connected = true;
    status.health_score = 100;
    status.latency_ns = latency_ns;
    status.liquidity_score = liquidity_score;
    status
}

fn order() -> OrderRequest {
    OrderRequest::new(12345, 67890, 0, 0, 50000, 1000, 0)
}

fn response() -> OrderResponse {
    OrderResponse {
        order_id: 7,
        client_order_id: 12345,
        status: 2,
        avg_fill_price: 50000,
        filled_qty: 1000,
        remaining_qty: 0,
        timestamp_ns: 1,
        error_code: 0,
    }
}

#[test]
fn test_venue_status_scoring() {
    let mut status = VenueStatus::new(1);
    status.is_connected = true;
    status.health_score = 100;
    status.latency_ns = 500_000;
    status.liquidity_score = 100;

    let score = status.calculate_routing_score();
    assert!(score > 0);
    assert!(score <= 100);
}

#[test]
fn test_load_balancer() {
    let mut lb = LoadBalancer::new(FailoverPolicy::default());

    assert!(lb.select_best_venue().is_none());

    let mut status = VenueStatus::new(1);
    status.is_connected = true;
    status.health_score = 100;
    status.latency_ns = 1_000_000;
    status.liquidity_score = 500;
    lb.update_venue_status(status);

    let decision = lb.select_best_venue();
    assert!(decision.is_some());
}

#[test]
fn test_gateway_manager_creation() {
    let mut manager = GatewayManager::new(5, FailoverPolicy::default());

    assert!(!manager.is_running());
    assert_eq!(manager.get_stats().venues_registered, 0);

    manager.start();
    assert!(manager.is_running());

    manager.stop(&Vec::new());
    assert!(!manager.is_running());
}

#[test]
fn test_failover_policy() {
    let mut lb = LoadBalancer::new(FailoverPolicy::StrictPrimary);

    let failover = lb.get_failover_venue(1);
    assert!(failover.is_none());

    let _lb_immediate = LoadBalancer::new(FailoverPolicy::Immediate);
}

#[test]
fn test_connection_pool() {
    let mut pool = ConnectionPool::new(5);

    assert!(pool.is_running());
    assert_eq!(pool.active_count(), 0);

    assert!(pool.try_acquire());
    assert_eq!(pool.active_count(), 1);

    pool.release();
    assert_eq!(pool.active_count(), 0);

    pool.stop();
    assert!(!pool.is_running());
    assert!(!pool.try_acquire());
}

#[test]
fn test_connection_config() {
    let config = ConnectionConfig::default();
    assert_eq!(config.venue_type, VenueType::CEX);
    assert_eq!(config.connect_timeout_ms, 5000);
    assert!(config.rate_limit_enabled);
}

#[test]
fn test_order_routing_decision() {
    let decision = OrderRoutingDecision::new(1, 500_000, 500_000_000);
    assert_eq!(decision.venue_id, 1);
    assert!(decision.score > 0);
    assert!(!decision.is_failover);

    let failover = decision.as_failover();
    assert!(failover.is_failover);
    assert!(failover.score < decision.score);
}

#[test]
fn test_order_request() {
    let order = OrderRequest::new(12345, 67890, 0, 0, 50000, 1000, 0);
    assert_eq!(order.client_order_id, 12345);
    assert_eq!(order.side, 0);
}

#[test]
fn test_liquidity_info() {
    let mut liq = LiquidityInfo::empty();
    assert!(!liq.is_valid());

    liq.best_bid = 49990;
    liq.best_ask = 50010;
    liq.bid_size = 1000;
    liq.ask_size = 1500;
    liq.spread = 20;
    liq.mid_price = 50000;

    assert!(liq.is_valid());
    assert_eq!(liq.spread, 20);
}

#[test]
fn test_base_venue_adapter() {
    let mut adapter = BaseVenueAdapter::new(1, VenueType::CEX);

    assert!(!adapter.is_connected());
    assert_eq!(adapter.get_uptime_seconds(9_000_000_000), 0);

    adapter.set_connected(true, 1_000_000_000);
    assert!(adapter.is_connected());

    adapter.update_latency(1_000_000);
    assert_eq!(adapter.get_latency_ns(), 1_000_000);

    adapter.increment_orders_submitted();
    assert_eq!(adapter.get_orders_submitted(), 1);
    assert_eq!(adapter.get_uptime_seconds(4_500_000_000), 3);
}

#[test]
fn best_route_has_the_highest_score() {
    let mut lb = LoadBalancer::new(FailoverPolicy::Immediate);
    lb.update_venue_status(venue(1, 90_000_000, 10));
    lb.update_venue_status(venue(2, 100_000, 900));
    lb.update_venue_status(venue(3, 50_000_000, 100));
    assert_eq!(lb.select_best_venue().unwrap().venue_id, 2);
    let failover = lb.get_failover_venue(2).unwrap();
    assert_ne!(failover.venue_id, 2);
    assert!(failover.is_failover);
    assert_eq!(lb.get_healthy_venues().len(), 3);
    assert_eq!(lb.get_stats().active_venues, 3);
    assert_eq!(lb.get_stats().failover_count, 1);
    let mut down = venue(2, 100_000, 900);
    down.is_connected = false;
    lb.update_venue_status(down);
    assert_ne!(lb.select_best_venue().unwrap().venue_id, 2);
}

#[test]
fn round_robin_visits_every_venue() {
    let mut lb = LoadBalancer::new(FailoverPolicy::RoundRobin);
    assert!(lb.select_round_robin().is_none());
    for id in 1..=3 {
        lb.update_venue_status(venue(id, 1_000_000, 100));
    }
    let mut ids: Vec<u32> = (0..3).map(|_| lb.select_round_robin().unwrap().venue_id).collect();
    ids.sort();
    assert_eq!(ids, vec![1, 2, 3]);
}

#[test]
fn faster_venues_score_higher() {
    assert!(score_latency(100) >= score_latency(1_000_000_000));
    assert_eq!(score_latency(0), 100);
}

#[test]
fn venue_error_codes_differ() {
    let all = [
        VenueError::NotConnected,
        VenueError::ConnectionFailed,
        VenueError::AuthenticationFailed,
        VenueError::RateLimited,
        VenueError::InvalidRequest,
        VenueError::Timeout,
        VenueError::ProtocolError,
        VenueError::InsufficientBalance,
        VenueError::OrderRejected,
        VenueError::SymbolNotFound,
        VenueError::InternalError,
    ];
    for a in 0..all.len() {
        for b in 0..a {
            assert_ne!(all[a].error_code(), all[b].error_code());
        }
    }
}

#[test]
fn venues_connect_and_disconnect() {
    let mut manager = GatewayManager::new(5, FailoverPolicy::Immediate);
    assert_eq!(manager.register_venue(1), Ok(()));
    assert_eq!(manager.register_venue(2), Ok(()));
    let outcomes = vec![
        ConnectOutcome { error: None, timestamp_ns: 5 },
        ConnectOutcome { error: Some(VenueError::Timeout), timestamp_ns: 6 },
    ];
    let connected = manager.connect_all(&outcomes).unwrap();
    assert!(connected.contains(&GatewayEvent::VenueConnected { venue_id: 1, timestamp_ns: 5 }));
    let events = manager.disconnect_all(&vec![7, 8]);
    assert!(events.contains(&GatewayEvent::VenueDisconnected {
        venue_id: 1,
        reason: DisconnectReason::GracefulShutdown,
    }));
}

#[test]
fn order_is_routed_or_refused() {
    let mut manager = GatewayManager::new(5, FailoverPolicy::Immediate);
    assert!(manager.route_order().is_err());
    assert!(manager.cancel_order(1).is_err());
    manager.register_venue(1).unwrap();
    assert!(manager.cancel_order(1).is_ok());
    manager.load_balancer.update_venue_status(venue(1, 1_000, 500));
    let routed = manager.route_order();
    assert!(routed == Ok(1) || routed.is_err());
    assert_eq!(
        manager.order_routed(&order(), 1),
        GatewayEvent::OrderRouted { order_id: 12345, venue_id: 1 }
    );
}

#[test]
fn failover_gives_up_after_its_attempts() {
    let mut manager = GatewayManager::new(5, FailoverPolicy::Immediate);
    manager.register_venue(1).unwrap();
    manager.load_balancer.update_venue_status(venue(1, 1_000, 500));
    let mut route = FailoverRoute { attempt_count: 0, last_error: None, failed_venue: None };
    let step = manager.route_order_with_failover(&order(), 1, Err(VenueError::Timeout), &mut route);
    assert_eq!(step, RouteStep::Retry);
    let step = manager.route_order_with_failover(&order(), 1, Err(VenueError::RateLimited), &mut route);
    assert_eq!(step, RouteStep::Retry);
    assert_eq!(route.attempt_count, 2);
    let step = manager.route_order_with_failover(&order(), 1, Err(VenueError::Timeout), &mut route);
    assert_eq!(step, RouteStep::Failed(VenueError::Timeout));
    let mut other = FailoverRoute { attempt_count: 0, last_error: None, failed_venue: None };
    match manager.route_order_with_failover(&order(), 1, Ok(response()), &mut other) {
        RouteStep::Done(r, GatewayEvent::OrderRouted { venue_id, .. }) => {
            assert!(r.is_filled());
            assert!(!r.is_rejected());
            assert_eq!(venue_id, 1);
        }
        other => panic!("{:?}", other),
    }
}

#[test]
fn retry_avoids_the_venue_that_failed() {
    let mut manager = GatewayManager::new(5, FailoverPolicy::Immediate);
    for id in [2, 5] {
        manager.register_venue(id).unwrap();
    }
    manager.load_balancer.update_venue_status(venue(2, 1_000, 500));
    manager.load_balancer.update_venue_status(venue(5, 1_000, 100));
    let mut route = FailoverRoute { attempt_count: 0, last_error: None, failed_venue: None };
    assert_eq!(manager.next_attempt(&route), Ok(2));
    let step = manager.route_order_with_failover(&order(), 2, Err(VenueError::Timeout), &mut route);
    assert_eq!(step, RouteStep::Retry);
    assert_eq!(route.failed_venue, Some(2));
    assert_eq!(manager.next_attempt(&route), Ok(5));
    let step = manager.route_order_with_failover(&order(), 5, Err(VenueError::Timeout), &mut route);
    assert_eq!(step, RouteStep::Retry);
    assert_eq!(manager.next_attempt(&route), Ok(2));
    assert_eq!(manager.get_stats().lb_stats.failover_count, 2);
    // With a single venue there is nowhere else to go.
    let mut alone = GatewayManager::new(5, FailoverPolicy::Immediate);
    alone.register_venue(2).unwrap();
    alone.load_balancer.update_venue_status(venue(2, 1_000, 500));
    assert_eq!(alone.next_attempt(&route), Ok(2));
    let failed = FailoverRoute { failed_venue: Some(2), ..route };
    assert_eq!(alone.next_attempt(&failed), Err(VenueError::Timeout));
}

#[test]
fn start_makes_the_pool_run_again() {
    let mut manager = GatewayManager::new(5, FailoverPolicy::Immediate);
    manager.register_venue(1).unwrap();
    manager.stop(&vec![1]);
    assert!(!manager.connection_pool.is_running());
    assert_eq!(manager.connect_all(&Vec::new()), Err(VenueError::NotConnected));
    manager.start();
    assert!(manager.connection_pool.is_running());
    let up = manager.connect_all(&vec![ConnectOutcome { error: None, timestamp_ns: 3 }]);
    assert_eq!(up, Ok(vec![GatewayEvent::VenueConnected { venue_id: 1, timestamp_ns: 3 }]));
}

#[test]
fn turns_visit_every_healthy_venue_once() {
    let mut lb = LoadBalancer::new(FailoverPolicy::RoundRobin);
    for id in [3, 17, 31] {
        lb.update_venue_status(venue(id, 1_000, 500));
    }
    let mut sick = venue(9, 1_000, 500);
    sick.health_score = 49;
    lb.update_venue_status(sick);
    lb.rr_index = 5;
    let mut seen = Vec::new();
    for _ in 0..4 {
        seen.push(lb.select_round_robin().unwrap().venue_id);
    }
    assert_eq!(seen, vec![17, 31, 3, 17]);
    assert_eq!(lb.routing_decisions, 4);
}

#[test]
fn aggregate_takes_the_best_quotes() {
    let manager = GatewayManager::new(5, FailoverPolicy::Immediate);
    let quote = |bid: u64, ask: u64| LiquidityInfo {
        best_bid: bid,
        best_ask: ask,
        bid_size: 10,
        ask_size: 20,
        spread: ask - bid,
        mid_price: (bid + ask) / 2,
        timestamp_ns: 0,
    };
    let all = manager.get_aggregated_liquidity(&vec![quote(99, 105), quote(100, 103), LiquidityInfo::empty()], 9);
    assert_eq!(all.best_bid, 100);
    assert_eq!(all.best_ask, 103);
    assert_eq!(all.spread, 3);
    assert_eq!(all.mid_price, 101);
    assert_eq!(all.total_bid_size, 20);
    assert_eq!(all.total_ask_size, 40);
    assert_eq!(all.venue_count, 2);
    assert_eq!(all.timestamp_ns, 9);
}

#[test]
fn pool_is_bounded_and_counts() {
    let mut pool = ConnectionPool::new(1);
    let mut acquired = 0;
    while acquired < 1000 && pool.try_acquire() {
        acquired += 1;
    }
    assert!(acquired < 1000);
    assert!(!pool.try_acquire());
    pool.release();
    assert!(pool.try_acquire());
    pool.record_error();
    pool.record_reconnect();
    assert_eq!(pool.get_stats().connection_errors, 1);
    assert_eq!(pool.get_stats().reconnection_attempts, 1);
    assert_eq!(VenueStats::new().orders_submitted, 0);
    assert_eq!(VenueType::DarkPool.as_str().is_empty(), false);
}

#[test]
fn primary_venue_is_marked() {
    let mut lb = LoadBalancer::new(FailoverPolicy::Immediate);
    lb.update_venue_status(venue(2, 100_000, 900));
    lb.set_primary_venue(2);
    assert_eq!(lb.select_best_venue().unwrap().venue_id, 2);
    assert_eq!(lb.get_healthy_venues().iter().filter(|v| v.is_primary).count(), 1);
    lb.set_primary_venue(u32::MAX);
    assert_eq!(lb.get_healthy_venues().len(), 1);
}
