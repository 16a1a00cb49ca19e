//! The threshold policy and the engine's control handling.

use trading_core::config::StrategyConfig;
use trading_core::data_model::{MarketDataUpdate, OrderType, Side, TimeInForce};
use trading_core::fixed::PRICE_SCALE;
use trading_core::strategy::mean_reversion::{MeanReversionStrategy, DEFAULT_ORDER_SIZE};
use trading_core::strategy::{StrategyControl, StrategyEngine};

fn units(n: i64) -> i64 {
    n * PRICE_SCALE
}

fn mr_config(enabled: bool) -> StrategyConfig {
    StrategyConfig {
        enabled,
        name: "MeanReversion".to_string(),
        mean_reversion_threshold: 500_000,
    }
}

fn tick(symbol: &str, last_price: Option<i64>) -> MarketDataUpdate {
    MarketDataUpdate {
        symbol: symbol.to_string(),
        timestamp: 1_700_000_000_000,
        bid_price: None,
        bid_quantity: None,
        ask_price: None,
        ask_quantity: None,
        last_price,
        last_quantity: None,
    }
}

#[test]
fn price_above_the_upper_band_emits_one_sell() {
    // Bands 25000/19000 (the defaults); last price 26000 for BTCUSD
    // yields exactly one sell limit order at 26000 of the fixed size.
    let mut s = MeanReversionStrategy::new(mr_config(true));
    let order = s
        .process_market_data(&tick("BTCUSD", Some(units(26_000))))
        .expect("an order");
    assert_eq!(order.symbol, "BTCUSD");
    assert_eq!(order.side, Side::Sell);
    assert_eq!(order.order_type, OrderType::Limit);
    assert_eq!(order.quantity, DEFAULT_ORDER_SIZE);
    assert_eq!(order.price, Some(units(26_000)));
    assert_eq!(order.tif, TimeInForce::GTC);
}

#[test]
fn price_inside_the_band_emits_nothing() {
    let mut s = MeanReversionStrategy::new(mr_config(true));
    assert!(s
        .process_market_data(&tick("BTCUSD", Some(units(22_000))))
        .is_none());
}

#[test]
fn price_below_the_lower_band_emits_one_buy() {
    let mut s = MeanReversionStrategy::new(mr_config(true));
    let order = s
        .process_market_data(&tick("BTCUSD", Some(units(18_000))))
        .expect("an order");
    assert_eq!(order.side, Side::Buy);
    assert_eq!(order.price, Some(units(18_000)));
    assert_eq!(order.quantity, DEFAULT_ORDER_SIZE);
}

#[test]
fn disabled_policy_emits_nothing() {
    let mut s = MeanReversionStrategy::new(mr_config(false));
    assert!(s
        .process_market_data(&tick("BTCUSD", Some(units(26_000))))
        .is_none());
}

#[test]
fn unselected_policy_emits_nothing() {
    let mut s = MeanReversionStrategy::new(StrategyConfig {
        enabled: true,
        name: "Momentum".to_string(),
        mean_reversion_threshold: 500_000,
    });
    assert!(s
        .process_market_data(&tick("BTCUSD", Some(units(26_000))))
        .is_none());
}

#[test]
fn update_without_a_trade_price_emits_nothing() {
    let mut s = MeanReversionStrategy::new(mr_config(true));
    assert!(s.process_market_data(&tick("BTCUSD", None)).is_none());
}

#[test]
fn reconfigured_bands_take_effect() {
    let mut s = MeanReversionStrategy::new(mr_config(true));
    s.set_bands(units(30_000), units(20_000), 5 * DEFAULT_ORDER_SIZE);
    assert!(s
        .process_market_data(&tick("BTCUSD", Some(units(26_000))))
        .is_none());
    let order = s
        .process_market_data(&tick("BTCUSD", Some(units(31_000))))
        .expect("an order");
    assert_eq!(order.quantity, 5 * DEFAULT_ORDER_SIZE);
}

#[test]
fn engine_stop_and_start_gate_evaluation() {
    let mut e = StrategyEngine::new(mr_config(true));
    assert!(e
        .handle_market_data(&tick("BTCUSD", Some(units(26_000))))
        .is_some());
    e.handle_control(StrategyControl::Stop);
    assert!(e
        .handle_market_data(&tick("BTCUSD", Some(units(26_000))))
        .is_none());
    e.handle_control(StrategyControl::Start);
    assert!(e
        .handle_market_data(&tick("BTCUSD", Some(units(26_000))))
        .is_some());
}

#[test]
fn engine_parameter_update_replaces_the_configuration() {
    let mut e = StrategyEngine::new(mr_config(true));
    // New parameters with the policy switched off: the engine stays
    // enabled but the policy itself now declines to trade.
    e.handle_control(StrategyControl::UpdateParams(mr_config(false)));
    assert!(e
        .handle_market_data(&tick("BTCUSD", Some(units(26_000))))
        .is_none());
    e.handle_control(StrategyControl::UpdateParams(mr_config(true)));
    assert!(e
        .handle_market_data(&tick("BTCUSD", Some(units(26_000))))
        .is_some());
}
