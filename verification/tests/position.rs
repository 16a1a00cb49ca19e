//! Position arithmetic on concrete fills.

use trading_core::data_model::Side;
use trading_core::fixed::{PNL_SCALE, PRICE_SCALE, QTY_LIMIT};
use trading_core::oms::position::{FillError, Position, PositionManager};

fn units(n: i64) -> i64 {
    n * PRICE_SCALE
}

#[test]
fn opening_buy_on_empty_position() {
    // A buy of quantity Q at price P on an empty position yields
    // quantity Q, avg cost P, and nothing realized.
    let mut p = Position::new("BTCUSD".to_string());
    let r = p.apply_fill(Side::Buy, units(5), units(100));
    assert_eq!(r, Ok(()));
    assert_eq!(p.quantity, units(5));
    assert_eq!(p.avg_cost, units(100));
    assert_eq!(p.pnl_realized, 0);
    assert_eq!(p.last_price, units(100));
}

#[test]
fn partial_offset_realizes_gain() {
    // {quantity 10, avg cost 100}; sell 4 at 110: quantity 6, avg cost
    // unchanged, realized += (110 - 100) * 4 = 40.
    let mut p = Position::new("BTCUSD".to_string());
    assert_eq!(p.apply_fill(Side::Buy, units(10), units(100)), Ok(()));
    assert_eq!(p.apply_fill(Side::Sell, units(4), units(110)), Ok(()));
    assert_eq!(p.quantity, units(6));
    assert_eq!(p.avg_cost, units(100));
    assert_eq!(p.pnl_realized, 40 * PNL_SCALE);
}

#[test]
fn flat_position_has_zero_unrealized_pnl() {
    // Fully closing a position zeroes the unrealized profit-and-loss.
    let mut p = Position::new("ETHUSD".to_string());
    assert_eq!(p.apply_fill(Side::Buy, units(3), units(50)), Ok(()));
    assert_eq!(p.apply_fill(Side::Sell, units(3), units(60)), Ok(()));
    assert_eq!(p.quantity, 0);
    assert_eq!(p.pnl_unrealized, 0);
    assert_eq!(p.avg_cost, 0);
    assert_eq!(p.pnl_realized, 30 * PNL_SCALE);
}

#[test]
fn short_position_buy_offset() {
    // Selling from flat opens a short; buying back below cost realizes
    // a gain.
    let mut p = Position::new("BTCUSD".to_string());
    assert_eq!(p.apply_fill(Side::Sell, units(5), units(100)), Ok(()));
    assert_eq!(p.quantity, -units(5));
    assert_eq!(p.avg_cost, units(100));
    assert_eq!(p.apply_fill(Side::Buy, units(2), units(90)), Ok(()));
    assert_eq!(p.quantity, -units(3));
    assert_eq!(p.avg_cost, units(100));
    assert_eq!(p.pnl_realized, 20 * PNL_SCALE);
}

#[test]
fn fill_through_zero_flips_the_position() {
    // Selling more than is held closes the long and opens a short at
    // the fill price.
    let mut p = Position::new("BTCUSD".to_string());
    assert_eq!(p.apply_fill(Side::Buy, units(2), units(100)), Ok(()));
    assert_eq!(p.apply_fill(Side::Sell, units(5), units(110)), Ok(()));
    assert_eq!(p.quantity, -units(3));
    assert_eq!(p.avg_cost, units(110));
    assert_eq!(p.pnl_realized, 20 * PNL_SCALE);
}

#[test]
fn same_direction_fills_blend_cost() {
    let mut p = Position::new("BTCUSD".to_string());
    assert_eq!(p.apply_fill(Side::Buy, units(1), units(100)), Ok(()));
    assert_eq!(p.apply_fill(Side::Buy, units(3), units(200)), Ok(()));
    assert_eq!(p.quantity, units(4));
    // (1*100 + 3*200) / 4 = 175
    assert_eq!(p.avg_cost, units(175));
}

#[test]
fn position_limit_rejects_the_overflowing_fill() {
    let mut p = Position::new("BTCUSD".to_string());
    for _ in 0..1000 {
        assert_eq!(p.apply_fill(Side::Buy, QTY_LIMIT, 0), Ok(()));
    }
    let before_qty = p.quantity;
    let r = p.apply_fill(Side::Buy, QTY_LIMIT, 0);
    assert_eq!(r, Err(FillError::PositionLimitExceeded));
    assert_eq!(p.quantity, before_qty);
}

#[test]
fn observe_price_remarks_the_open_position() {
    let mut p = Position::new("BTCUSD".to_string());
    assert_eq!(p.apply_fill(Side::Buy, units(2), units(100)), Ok(()));
    p.observe_price(units(120));
    assert_eq!(p.last_price, units(120));
    assert_eq!(p.pnl_unrealized, 40 * PNL_SCALE);
}

#[test]
fn manager_creates_positions_lazily() {
    let mut m = PositionManager::new();
    assert!(m.get_position(&"BTCUSD".to_string()).is_none());
    let p = m
        .update_position("BTCUSD".to_string(), Side::Buy, units(1), units(100))
        .unwrap();
    assert_eq!(p.quantity, units(1));
    let got = m.get_position(&"BTCUSD".to_string()).unwrap();
    assert_eq!(got.quantity, units(1));
    assert_eq!(got.avg_cost, units(100));
    assert!(m.get_position(&"ETHUSD".to_string()).is_none());
}

#[test]
fn manager_keeps_symbols_apart() {
    let mut m = PositionManager::new();
    m.update_position("BTCUSD".to_string(), Side::Buy, units(1), units(100))
        .unwrap();
    m.update_position("ETHUSD".to_string(), Side::Sell, units(2), units(10))
        .unwrap();
    let all = m.get_all_positions();
    assert_eq!(all.len(), 2);
    assert_eq!(all[0].symbol, "BTCUSD");
    assert_eq!(all[0].quantity, units(1));
    assert_eq!(all[1].symbol, "ETHUSD");
    assert_eq!(all[1].quantity, -units(2));
}

#[test]
fn manager_market_tick_updates_last_price() {
    let mut m = PositionManager::new();
    m.update_position("BTCUSD".to_string(), Side::Buy, units(1), units(100))
        .unwrap();
    m.observe_market_price(&"BTCUSD".to_string(), units(130));
    let p = m.get_position(&"BTCUSD".to_string()).unwrap();
    assert_eq!(p.last_price, units(130));
    assert_eq!(p.pnl_unrealized, 30 * PNL_SCALE);
    // A tick for a symbol never filled creates nothing.
    m.observe_market_price(&"SOLUSD".to_string(), units(5));
    assert!(m.get_position(&"SOLUSD".to_string()).is_none());
}

#[test]
fn recomputing_unrealized_pnl_marks_to_market() {
    let mut p = Position::new("BTCUSD".to_string());
    assert_eq!(p.apply_fill(Side::Buy, units(2), units(100)), Ok(()));
    p.last_price = units(110);
    p.update_unrealized_pnl();
    assert_eq!(p.pnl_unrealized, 20 * PNL_SCALE);
}
