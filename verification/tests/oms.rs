//! The order-management pipeline end to end: submission, validation,
//! simulated completion, events, idempotence.

use trading_core::data_model::{Order, OrderType, Side, TimeInForce};
use trading_core::fixed::{PNL_SCALE, PRICE_SCALE, QTY_LIMIT};
use trading_core::oms::{
    fill_delay_ms, FullOrder, Oms, OmsUpdate, OrderState, RejectReason, DEFAULT_FILL_DELAY_MIN_MS,
    DEFAULT_FILL_DELAY_SPAN_MS,
};

fn units(n: i64) -> i64 {
    n * PRICE_SCALE
}

fn limit_order(id: u128, symbol: &str, side: Side, quantity: i64, price: i64) -> Order {
    Order {
        order_id: id,
        client_order_id: format!("cl_{}", id),
        symbol: symbol.to_string(),
        side,
        order_type: OrderType::Limit,
        quantity,
        price: Some(price),
        tif: TimeInForce::GTC,
        placed_at: 0,
        state: OrderState::New,
    }
}

#[test]
fn valid_submission_publishes_one_created_event() {
    let mut oms = Oms::new();
    let order = limit_order(1, "BTCUSD", Side::Buy, units(1), units(100));
    let evs = oms.submit_order(order).unwrap();
    assert_eq!(evs.len(), 1);
    match &evs[0] {
        OmsUpdate::OrderCreated(o) => {
            assert_eq!(o.order_id, 1);
            assert_eq!(o.state, OrderState::PendingNew);
        }
        other => panic!("expected OrderCreated, got {:?}", other),
    }
    assert_eq!(oms.order_count(), 1);
}

#[test]
fn nonpositive_quantity_is_rejected_without_a_trace() {
    let mut oms = Oms::new();
    let order = limit_order(1, "BTCUSD", Side::Buy, 0, units(100));
    assert_eq!(
        oms.submit_order(order).unwrap_err(),
        RejectReason::NonPositiveQuantity
    );
    let order = limit_order(2, "BTCUSD", Side::Buy, -units(1), units(100));
    assert_eq!(
        oms.submit_order(order).unwrap_err(),
        RejectReason::NonPositiveQuantity
    );
    assert_eq!(oms.order_count(), 0);
}

#[test]
fn empty_symbol_is_rejected_without_a_trace() {
    let mut oms = Oms::new();
    let order = limit_order(1, "", Side::Buy, units(1), units(100));
    assert_eq!(oms.submit_order(order).unwrap_err(), RejectReason::EmptySymbol);
    assert_eq!(oms.order_count(), 0);
}

#[test]
fn out_of_range_orders_are_rejected() {
    let mut oms = Oms::new();
    let order = limit_order(1, "BTCUSD", Side::Buy, QTY_LIMIT + 1, units(100));
    assert_eq!(oms.submit_order(order).unwrap_err(), RejectReason::QuantityTooLarge);
    let order = limit_order(2, "BTCUSD", Side::Buy, units(1), -1);
    assert_eq!(oms.submit_order(order).unwrap_err(), RejectReason::PriceOutOfRange);
    assert_eq!(oms.order_count(), 0);
}

#[test]
fn duplicate_identifier_is_rejected() {
    let mut oms = Oms::new();
    let order = limit_order(7, "BTCUSD", Side::Buy, units(1), units(100));
    assert!(oms.submit_order(order).is_ok());
    let again = limit_order(7, "ETHUSD", Side::Sell, units(2), units(50));
    assert_eq!(oms.submit_order(again).unwrap_err(), RejectReason::DuplicateOrderId);
    assert_eq!(oms.order_count(), 1);
}

#[test]
fn completion_fills_and_publishes_in_order() {
    let mut oms = Oms::new();
    let order = limit_order(1, "BTCUSD", Side::Buy, units(2), units(100));
    oms.submit_order(order).unwrap();
    let evs = oms.complete_execution(1, units(100), 1_700_000_000_000);
    assert_eq!(evs.len(), 2);
    match &evs[0] {
        OmsUpdate::OrderStateChange {
            order_id,
            new_state,
            timestamp,
        } => {
            assert_eq!(*order_id, 1);
            assert_eq!(*new_state, OrderState::Filled);
            assert_eq!(*timestamp, 1_700_000_000_000);
        }
        other => panic!("expected OrderStateChange first, got {:?}", other),
    }
    match &evs[1] {
        OmsUpdate::PositionUpdate(p) => {
            assert_eq!(p.symbol, "BTCUSD");
            assert_eq!(p.quantity, units(2));
            assert_eq!(p.avg_cost, units(100));
        }
        other => panic!("expected PositionUpdate second, got {:?}", other),
    }
    let rec = oms.get_order(1).unwrap();
    assert_eq!(rec.current_state, OrderState::Filled);
    assert_eq!(rec.filled_quantity, units(2));
    assert_eq!(rec.avg_fill_price, units(100));
    assert_eq!(rec.last_fill_time, Some(1_700_000_000_000));
}

#[test]
fn terminal_redelivery_changes_nothing() {
    let mut oms = Oms::new();
    let order = limit_order(1, "BTCUSD", Side::Buy, units(2), units(100));
    oms.submit_order(order).unwrap();
    let first = oms.complete_execution(1, units(100), 10);
    assert_eq!(first.len(), 2);
    let pos_before = oms.get_position(&"BTCUSD".to_string()).unwrap();
    let again = oms.complete_execution(1, units(100), 20);
    assert!(again.is_empty());
    let rec = oms.get_order(1).unwrap();
    assert_eq!(rec.current_state, OrderState::Filled);
    assert_eq!(rec.last_fill_time, Some(10));
    let pos_after = oms.get_position(&"BTCUSD".to_string()).unwrap();
    assert_eq!(pos_before.quantity, pos_after.quantity);
    assert_eq!(pos_before.pnl_realized, pos_after.pnl_realized);
}

#[test]
fn completing_an_unknown_order_is_a_noop() {
    let mut oms = Oms::new();
    let evs = oms.complete_execution(99, units(100), 0);
    assert!(evs.is_empty());
    assert_eq!(oms.order_count(), 0);
}

#[test]
fn market_order_fills_at_the_reference_price() {
    let mut oms = Oms::new();
    let order = Order {
        order_id: 5,
        client_order_id: "cl_5".to_string(),
        symbol: "ETHUSD".to_string(),
        side: Side::Buy,
        order_type: OrderType::Market,
        quantity: units(1),
        price: None,
        tif: TimeInForce::IOC,
        placed_at: 0,
        state: OrderState::New,
    };
    oms.submit_order(order).unwrap();
    oms.complete_execution(5, units(1800), 0);
    let rec = oms.get_order(5).unwrap();
    assert_eq!(rec.avg_fill_price, units(1800));
}

#[test]
fn distinct_orders_all_reach_filled() {
    // Distinct identifiers proceed independently: submissions and
    // completions interleaved in an arbitrary order lose nothing.
    let mut oms = Oms::new();
    let n: u128 = 6;
    for id in 1..=n {
        let order = limit_order(id, "BTCUSD", Side::Buy, units(1), units(100));
        assert!(oms.submit_order(order).is_ok());
        if id % 2 == 0 {
            oms.complete_execution(id, units(100), id as i64);
            oms.complete_execution(id - 1, units(100), id as i64);
        }
    }
    assert_eq!(oms.order_count(), 6);
    for id in 1..=n {
        let rec = oms.get_order(id).unwrap();
        assert_eq!(rec.current_state, OrderState::Filled);
        assert_eq!(rec.filled_quantity, units(1));
    }
    let pos = oms.get_position(&"BTCUSD".to_string()).unwrap();
    assert_eq!(pos.quantity, units(6));
}

#[test]
fn fills_accumulate_into_the_position() {
    let mut oms = Oms::new();
    oms.submit_order(limit_order(1, "BTCUSD", Side::Buy, units(10), units(100)))
        .unwrap();
    oms.complete_execution(1, 0, 0);
    oms.submit_order(limit_order(2, "BTCUSD", Side::Sell, units(4), units(110)))
        .unwrap();
    let evs = oms.complete_execution(2, 0, 0);
    match &evs[1] {
        OmsUpdate::PositionUpdate(p) => {
            assert_eq!(p.quantity, units(6));
            assert_eq!(p.avg_cost, units(100));
            assert_eq!(p.pnl_realized, 40 * PNL_SCALE);
        }
        other => panic!("expected PositionUpdate, got {:?}", other),
    }
}

#[test]
fn market_tick_flows_through_to_positions() {
    let mut oms = Oms::new();
    oms.submit_order(limit_order(1, "BTCUSD", Side::Buy, units(1), units(100)))
        .unwrap();
    oms.complete_execution(1, 0, 0);
    oms.observe_market_price(&"BTCUSD".to_string(), units(150));
    let p = oms.get_position(&"BTCUSD".to_string()).unwrap();
    assert_eq!(p.last_price, units(150));
    assert_eq!(p.pnl_unrealized, 50 * PNL_SCALE);
}

#[test]
fn simulated_delay_stays_in_its_window() {
    for _ in 0..100 {
        let d = fill_delay_ms(DEFAULT_FILL_DELAY_MIN_MS, DEFAULT_FILL_DELAY_SPAN_MS);
        assert!((100..300).contains(&d));
    }
}

#[test]
fn generated_orders_carry_fresh_identity() {
    let a = Order::new(
        "BTCUSD".to_string(),
        Side::Buy,
        OrderType::Limit,
        units(1),
        Some(units(100)),
        TimeInForce::GTC,
    );
    let b = Order::new(
        "BTCUSD".to_string(),
        Side::Buy,
        OrderType::Limit,
        units(1),
        Some(units(100)),
        TimeInForce::GTC,
    );
    assert_eq!(a.state, OrderState::New);
    assert_eq!(a.client_order_id.len(), 39);
    assert!(a.client_order_id.starts_with("cl_"));
    // The correlation string is "cl_" plus the identifier's hyphenated
    // text form.
    let rendered = &a.client_order_id[3..];
    assert_eq!(rendered.len(), 36);
    for (i, c) in rendered.chars().enumerate() {
        if i == 8 || i == 13 || i == 18 || i == 23 {
            assert_eq!(c, '-');
        } else {
            assert!(c.is_ascii_hexdigit());
        }
    }
    assert_ne!(a.order_id, b.order_id);
}

#[test]
fn get_order_returns_none_for_unknown_identifier() {
    let oms = Oms::new();
    assert!(oms.get_order(123).is_none());
}

#[test]
fn full_order_wraps_a_fresh_intent() {
    let order = limit_order(9, "BTCUSD", Side::Buy, units(1), units(100));
    let rec = FullOrder::from(order);
    assert_eq!(rec.current_state, OrderState::New);
    assert_eq!(rec.filled_quantity, 0);
    assert_eq!(rec.avg_fill_price, 0);
    assert!(rec.last_fill_price.is_none());
    assert!(rec.exchange_order_id.is_none());
    assert!(rec.rejection_reason.is_none());
}

#[test]
fn state_machine_gates_updates() {
    let order = limit_order(9, "BTCUSD", Side::Buy, units(1), units(100));
    let mut rec = FullOrder::from(order);
    // New -> PendingNew -> Open -> Filled is allowed step by step.
    assert!(rec.update_state(OrderState::PendingNew));
    assert!(rec.update_state(OrderState::Open));
    assert!(rec.update_state(OrderState::Filled));
    assert_eq!(rec.current_state, OrderState::Filled);
    // Filled is terminal: every further attempt is a no-op.
    assert!(!rec.update_state(OrderState::Canceled));
    assert!(!rec.update_state(OrderState::Open));
    assert_eq!(rec.current_state, OrderState::Filled);
}

#[test]
fn unreachable_transitions_are_refused() {
    let order = limit_order(9, "BTCUSD", Side::Buy, units(1), units(100));
    let mut rec = FullOrder::from(order);
    // New cannot jump straight to Open or Filled.
    assert!(!rec.update_state(OrderState::Open));
    assert!(!rec.update_state(OrderState::Filled));
    assert_eq!(rec.current_state, OrderState::New);
    // A cancel can race a fill: PendingCancel may still fill.
    assert!(rec.update_state(OrderState::PendingNew));
    assert!(rec.update_state(OrderState::Open));
    assert!(rec.update_state(OrderState::PendingCancel));
    assert!(rec.update_state(OrderState::Filled));
}
