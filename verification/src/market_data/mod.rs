//! Market-data ingestion: the decisions of the streaming session.
//!
//! The connection itself — socket, timers, reconnect supervision — is
//! run outside the library; every inbound event is handed to
//! [`reaction_for`], and the reconnect pacing comes from
//! [`reconnect_backoff_ms`].

pub mod websocket;

use vstd::prelude::*;
use crate::data_model::MarketDataUpdate;
use websocket::{is_parsed_update, parse_binance_agg_trade, spec_parse_error};

verus! {

/// Seconds between protocol-level pings on the independent keep-alive
/// path.
pub const PING_INTERVAL_SECS: u64 = 30;

/// One inbound event of a streaming session.
#[derive(Debug, Clone)]
pub enum WsInbound {
    /// A text frame carrying a feed message.
    Text(String),
    /// A server-initiated ping with its payload.
    Ping(Vec<u8>),
    /// An answer to one of our pings.
    Pong(Vec<u8>),
    /// A binary frame; the feed sends none that concern us.
    Binary(Vec<u8>),
    /// A close frame.
    Close,
    /// A transport-level error.
    TransportError,
}

/// What the session does in answer to one inbound event.
#[derive(Debug, Clone)]
pub enum WsReaction {
    /// Publish this update to every subscriber.
    Publish(MarketDataUpdate),
    /// Answer a ping with this payload, on the outbound path.
    SendPong(Vec<u8>),
    /// Nothing: the event was a keep-alive, noise, or an unparsable
    /// message that is logged and skipped.
    Ignore,
    /// The connection attempt is over; the supervisor restarts it with
    /// a backoff.
    Disconnect,
}

/// Decides the session's reaction to one inbound event. A text frame
/// that parses as an aggregate trade publishes exactly the update it
/// denotes; one that does not is skipped — a bad message never
/// terminates the connection. A ping is answered with its own payload;
/// a close frame or transport error ends the attempt.
pub fn reaction_for(msg: WsInbound) -> (r: WsReaction)
    ensures
        match msg {
            WsInbound::Text(t) => match spec_parse_error(t@) {
                Some(_) => r == WsReaction::Ignore,
                None => r matches WsReaction::Publish(u) && is_parsed_update(t@, u),
            },
            WsInbound::Ping(p) => r == WsReaction::SendPong(p),
            WsInbound::Pong(_) => r == WsReaction::Ignore,
            WsInbound::Binary(_) => r == WsReaction::Ignore,
            WsInbound::Close => r == WsReaction::Disconnect,
            WsInbound::TransportError => r == WsReaction::Disconnect,
        },
{
    match msg {
        WsInbound::Text(text) => match parse_binance_agg_trade(text.as_str()) {
            Ok(update) => WsReaction::Publish(update),
            Err(_) => WsReaction::Ignore,
        },
        WsInbound::Ping(payload) => WsReaction::SendPong(payload),
        WsInbound::Pong(_) => WsReaction::Ignore,
        WsInbound::Binary(_) => WsReaction::Ignore,
        WsInbound::Close => WsReaction::Disconnect,
        WsInbound::TransportError => WsReaction::Disconnect,
    }
}

/// The reconnect pacing after `attempt` consecutive failures: one
/// second, doubling each failure, capped at thirty seconds.
pub open spec fn spec_backoff_ms(attempt: int) -> int {
    if attempt <= 0 {
        1000
    } else if attempt == 1 {
        2000
    } else if attempt == 2 {
        4000
    } else if attempt == 3 {
        8000
    } else if attempt == 4 {
        16_000
    } else {
        30_000
    }
}

/// How long the supervisor waits before reconnecting, so that a failing
/// feed is never retried in a tight loop.
pub fn reconnect_backoff_ms(attempt: u32) -> (r: u64)
    ensures
        r == spec_backoff_ms(attempt as int),
        1000 <= r <= 30_000,
{
    match attempt {
        0 => 1000,
        1 => 2000,
        2 => 4000,
        3 => 8000,
        4 => 16_000,
        _ => 30_000,
    }
}

} // verus!
