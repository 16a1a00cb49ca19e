//! Feed-message parsing and the streaming session's reactions.

use trading_core::market_data::websocket::{
    agg_trade_update, parse_binance_agg_trade, ParseError,
};
use trading_core::market_data::{reconnect_backoff_ms, WsInbound, WsReaction, PING_INTERVAL_SECS};

#[test]
fn well_formed_aggregate_trade_parses() {
    let payload = r#"{"e":"aggTrade","E":1700000000000,"s":"ETHUSD","p":"1800.5","q":"2.0"}"#;
    let u = parse_binance_agg_trade(payload).expect("an update");
    assert_eq!(u.symbol, "ETHUSD");
    assert_eq!(u.timestamp, 1_700_000_000_000);
    assert_eq!(u.last_price, Some(180_050_000_000));
    assert_eq!(u.last_quantity, Some(200_000_000));
    assert_eq!(u.bid_price, None);
    assert_eq!(u.bid_quantity, None);
    assert_eq!(u.ask_price, None);
    assert_eq!(u.ask_quantity, None);
}

#[test]
fn unrecognized_event_type_yields_no_update() {
    let payload = r#"{"e":"kline","E":1700000000000,"s":"ETHUSD","p":"1800.5","q":"2.0"}"#;
    assert_eq!(
        parse_binance_agg_trade(payload).unwrap_err(),
        ParseError::UnsupportedEvent
    );
    let payload = r#"{"E":1700000000000,"s":"ETHUSD","p":"1800.5","q":"2.0"}"#;
    assert_eq!(
        parse_binance_agg_trade(payload).unwrap_err(),
        ParseError::UnsupportedEvent
    );
}

#[test]
fn malformed_messages_yield_local_errors() {
    assert_eq!(
        parse_binance_agg_trade("not json at all").unwrap_err(),
        ParseError::NotJson
    );
    let no_price = r#"{"e":"aggTrade","E":1,"s":"ETHUSD","q":"2.0"}"#;
    assert_eq!(
        parse_binance_agg_trade(no_price).unwrap_err(),
        ParseError::MissingPrice
    );
    let bad_price = r#"{"e":"aggTrade","E":1,"s":"ETHUSD","p":"12x","q":"2.0"}"#;
    assert_eq!(
        parse_binance_agg_trade(bad_price).unwrap_err(),
        ParseError::BadPrice
    );
    let bad_qty = r#"{"e":"aggTrade","E":1,"s":"ETHUSD","p":"1.0","q":""}"#;
    assert_eq!(
        parse_binance_agg_trade(bad_qty).unwrap_err(),
        ParseError::BadQuantity
    );
    let no_ts = r#"{"e":"aggTrade","s":"ETHUSD","p":"1.0","q":"2.0"}"#;
    assert_eq!(
        parse_binance_agg_trade(no_ts).unwrap_err(),
        ParseError::MissingTimestamp
    );
}

#[test]
fn builder_checks_each_field_exactly() {
    let tag = "aggTrade".to_string();
    let other = "kline".to_string();
    let p = "1800.5".to_string();
    let q = "2.0".to_string();
    let u = agg_trade_update(&tag, "ETHUSD".to_string(), &p, &q, 1_700_000_000_000).unwrap();
    assert_eq!(u.last_price, Some(180_050_000_000));
    assert_eq!(
        agg_trade_update(&other, "ETHUSD".to_string(), &p, &q, 1).unwrap_err(),
        ParseError::UnsupportedEvent
    );
    assert_eq!(
        agg_trade_update(&tag, "ETHUSD".to_string(), &p, &q, u64::MAX).unwrap_err(),
        ParseError::BadTimestamp
    );
}

#[test]
fn session_reacts_to_frames() {
    let good = r#"{"e":"aggTrade","E":1,"s":"ETHUSD","p":"1.5","q":"2.0"}"#;
    match reaction_of(WsInbound::Text(good.to_string())) {
        WsReaction::Publish(u) => assert_eq!(u.last_price, Some(150_000_000)),
        other => panic!("expected Publish, got {:?}", other),
    }
    match reaction_of(WsInbound::Text("garbage".to_string())) {
        WsReaction::Ignore => {}
        other => panic!("a bad message is skipped, got {:?}", other),
    }
    match reaction_of(WsInbound::Ping(vec![1, 2, 3])) {
        WsReaction::SendPong(p) => assert_eq!(p, vec![1, 2, 3]),
        other => panic!("expected SendPong, got {:?}", other),
    }
    assert!(matches!(
        reaction_of(WsInbound::Pong(vec![])),
        WsReaction::Ignore
    ));
    assert!(matches!(
        reaction_of(WsInbound::Binary(vec![0])),
        WsReaction::Ignore
    ));
    assert!(matches!(reaction_of(WsInbound::Close), WsReaction::Disconnect));
    assert!(matches!(
        reaction_of(WsInbound::TransportError),
        WsReaction::Disconnect
    ));
}

fn reaction_of(msg: WsInbound) -> WsReaction {
    trading_core::market_data::reaction_for(msg)
}

#[test]
fn backoff_doubles_to_a_cap() {
    assert_eq!(reconnect_backoff_ms(0), 1000);
    assert_eq!(reconnect_backoff_ms(1), 2000);
    assert_eq!(reconnect_backoff_ms(2), 4000);
    assert_eq!(reconnect_backoff_ms(3), 8000);
    assert_eq!(reconnect_backoff_ms(4), 16_000);
    assert_eq!(reconnect_backoff_ms(5), 30_000);
    assert_eq!(reconnect_backoff_ms(100), 30_000);
    assert_eq!(PING_INTERVAL_SECS, 30);
}
