//! Parsing the feed's aggregate-trade messages into normalized updates.
//!
//! Reading fields out of the JSON envelope is delegated to serde_json
//! behind trusted wrappers. What each extraction returns is a function
//! of the message text alone, so it carries a name
//! ([`json_wf`], [`json_text_field`], [`json_u64_field`]); over those
//! names the whole parse — which error on which shape, and exactly what
//! an `Ok` carries — is specified in [`spec_parse_error`] and
//! [`is_parsed_update`] and proved of [`parse_binance_agg_trade`].
//! Everything done with the extracted fields — the event-type gate, the
//! decimal conversion, the range checks — is verified in
//! [`agg_trade_update`].

use vstd::prelude::*;
use vstd::utf8::encode_utf8;
use crate::data_model::MarketDataUpdate;
use crate::fixed::{parse_scaled_decimal, spec_decimal_value, PRICE_LIMIT, QTY_LIMIT};

verus! {

/// Why a feed message yielded no update. All of these are local,
/// per-message outcomes; none terminates the connection.
#[derive(Debug, Clone, Copy, PartialEq, Eq, Structural)]
pub enum ParseError {
    /// The message is not well-formed JSON.
    NotJson,
    /// The event-type field is absent or names another event.
    UnsupportedEvent,
    /// No symbol field.
    MissingSymbol,
    /// No price field.
    MissingPrice,
    /// No quantity field.
    MissingQuantity,
    /// No event-timestamp field.
    MissingTimestamp,
    /// The price string is not a decimal in range.
    BadPrice,
    /// The quantity string is not a decimal in range.
    BadQuantity,
    /// The event timestamp does not fit a signed millisecond count.
    BadTimestamp,
}

/// Whether the text is well-formed JSON — what serde_json::from_str
/// decides, a function of the text alone.
pub uninterp spec fn json_wf(text: Seq<char>) -> bool;

/// The string field under `key` of the JSON text, if the text is an
/// object holding a string there — the composition of
/// serde_json::from_str, Value::get and Value::as_str, a function of
/// text and key alone.
pub uninterp spec fn json_text_field(text: Seq<char>, key: Seq<char>) -> Option<Seq<char>>;

/// The unsigned-integer field under `key` of the JSON text, if the text
/// is an object holding one there — the composition of
/// serde_json::from_str, Value::get and Value::as_u64, a function of
/// text and key alone.
pub uninterp spec fn json_u64_field(text: Seq<char>, key: Seq<char>) -> Option<u64>;

/// Relies on serde_json::from_str: whether the text parses as JSON.
#[verifier::external_body]
fn json_is_wf(text: &str) -> (r: bool)
    ensures
        r == json_wf(text@),
{
    serde_json::from_str::<serde_json::Value>(text).is_ok()
}

/// Relies on serde_json::from_str, Value::get and Value::as_str: the
/// string field under `key`, when the text is an object holding a
/// string there.
#[verifier::external_body]
fn json_string_field(text: &str, key: &str) -> (r: Option<String>)
    ensures
        match json_text_field(text@, key@) {
            Some(s) => r matches Some(x) && x@ == s,
            None => r is None,
        },
{
    serde_json::from_str::<serde_json::Value>(text)
        .ok()
        .and_then(|v| v.get(key).and_then(|f| f.as_str()).map(|s| s.to_string()))
}

/// Relies on serde_json::from_str, Value::get and Value::as_u64: the
/// unsigned-integer field under `key`, when the text is an object
/// holding one there.
#[verifier::external_body]
fn json_integer_field(text: &str, key: &str) -> (r: Option<u64>)
    ensures
        r == json_u64_field(text@, key@),
{
    serde_json::from_str::<serde_json::Value>(text)
        .ok()
        .and_then(|v| v.get(key).and_then(|f| f.as_u64()))
}

/// The error a feed message yields, if any: the first failing check in
/// parse order, over the JSON-extraction names. `None` means the
/// message is a well-formed aggregate trade whose numbers are decimals
/// in range.
pub open spec fn spec_parse_error(text: Seq<char>) -> Option<ParseError> {
    if !json_wf(text) {
        Some(ParseError::NotJson)
    } else {
        match json_text_field(text, "e"@) {
            None => Some(ParseError::UnsupportedEvent),
            Some(tag) => {
                if tag != "aggTrade"@ {
                    Some(ParseError::UnsupportedEvent)
                } else {
                    match json_text_field(text, "s"@) {
                        None => Some(ParseError::MissingSymbol),
                        Some(_) => {
                            match json_text_field(text, "p"@) {
                                None => Some(ParseError::MissingPrice),
                                Some(price_text) => {
                                    match json_text_field(text, "q"@) {
                                        None => Some(ParseError::MissingQuantity),
                                        Some(quantity_text) => {
                                            match json_u64_field(text, "E"@) {
                                                None => Some(ParseError::MissingTimestamp),
                                                Some(ts) => {
                                                    let pv = spec_decimal_value(
                                                        encode_utf8(price_text),
                                                    );
                                                    let qv = spec_decimal_value(
                                                        encode_utf8(quantity_text),
                                                    );
                                                    if !(pv matches Some(p) && 0 <= p
                                                        <= PRICE_LIMIT) {
                                                        Some(ParseError::BadPrice)
                                                    } else if !(qv matches Some(q) && 0 <= q
                                                        <= QTY_LIMIT) {
                                                        Some(ParseError::BadQuantity)
                                                    } else if ts > i64::MAX {
                                                        Some(ParseError::BadTimestamp)
                                                    } else {
                                                        None
                                                    }
                                                },
                                            }
                                        },
                                    }
                                },
                            }
                        },
                    }
                }
            },
        }
    }
}

/// `u` is exactly the update a well-formed aggregate-trade message
/// denotes: its extracted symbol and timestamp, its price and quantity
/// strings converted to scaled decimals, and nothing else set.
/// Meaningful when [`spec_parse_error`] is `None`.
pub open spec fn is_parsed_update(text: Seq<char>, u: MarketDataUpdate) -> bool {
    &&& json_text_field(text, "s"@) matches Some(sym) && u.symbol@ == sym
    &&& json_u64_field(text, "E"@) matches Some(ts) && u.timestamp == ts
    &&& json_text_field(text, "p"@) matches Some(pt) && (u.last_price matches Some(p)
        && spec_decimal_value(encode_utf8(pt)) == Some(p as int))
    &&& json_text_field(text, "q"@) matches Some(qt) && (u.last_quantity matches Some(q)
        && spec_decimal_value(encode_utf8(qt)) == Some(q as int))
    &&& u.bid_price is None
    &&& u.bid_quantity is None
    &&& u.ask_price is None
    &&& u.ask_quantity is None
    &&& u.wf()
}

/// Builds a normalized update from the fields extracted out of an
/// aggregate-trade envelope. Pure and fully specified: the event-type
/// gate, both decimal conversions, the range checks and the timestamp
/// conversion are each an exact case below.
pub fn agg_trade_update(
    event_type: &String,
    symbol: String,
    price_text: &String,
    quantity_text: &String,
    timestamp_ms: u64,
) -> (r: Result<MarketDataUpdate, ParseError>)
    ensures
        ({
            let pv = spec_decimal_value(encode_utf8(price_text@));
            let qv = spec_decimal_value(encode_utf8(quantity_text@));
            if event_type@ != "aggTrade"@ {
                r == Err::<MarketDataUpdate, ParseError>(ParseError::UnsupportedEvent)
            } else if !(pv matches Some(p) && 0 <= p <= PRICE_LIMIT) {
                r == Err::<MarketDataUpdate, ParseError>(ParseError::BadPrice)
            } else if !(qv matches Some(q) && 0 <= q <= QTY_LIMIT) {
                r == Err::<MarketDataUpdate, ParseError>(ParseError::BadQuantity)
            } else if timestamp_ms > i64::MAX {
                r == Err::<MarketDataUpdate, ParseError>(ParseError::BadTimestamp)
            } else {
                &&& r matches Ok(u)
                &&& u.symbol == symbol
                &&& u.timestamp == timestamp_ms
                &&& u.last_price matches Some(p) && pv == Some(p as int)
                &&& u.last_quantity matches Some(q) && qv == Some(q as int)
                &&& u.bid_price is None
                &&& u.bid_quantity is None
                &&& u.ask_price is None
                &&& u.ask_quantity is None
                &&& u.wf()
            }
        }),
{
    let tag: String = "aggTrade".to_owned();
    if !(*event_type == tag) {
        return Err(ParseError::UnsupportedEvent);
    }
    let price = match parse_scaled_decimal(price_text.as_str().as_bytes()) {
        None => {
            return Err(ParseError::BadPrice);
        },
        Some(p) => p,
    };
    if price > PRICE_LIMIT {
        return Err(ParseError::BadPrice);
    }
    let quantity = match parse_scaled_decimal(quantity_text.as_str().as_bytes()) {
        None => {
            return Err(ParseError::BadQuantity);
        },
        Some(q) => q,
    };
    if quantity > QTY_LIMIT {
        return Err(ParseError::BadQuantity);
    }
    if timestamp_ms > i64::MAX as u64 {
        return Err(ParseError::BadTimestamp);
    }
    Ok(
        MarketDataUpdate {
            symbol,
            timestamp: timestamp_ms as i64,
            bid_price: None,
            bid_quantity: None,
            ask_price: None,
            ask_quantity: None,
            last_price: Some(price),
            last_quantity: Some(quantity),
        },
    )
}

/// Parses one text message from the feed: the update a well-formed
/// aggregate-trade payload denotes, or the exact diagnostic error for
/// anything else, as [`spec_parse_error`] prescribes over the
/// JSON-extraction names. Total: every input gets an answer.
pub fn parse_binance_agg_trade(text: &str) -> (r: Result<MarketDataUpdate, ParseError>)
    ensures
        match spec_parse_error(text@) {
            Some(e) => r == Err::<MarketDataUpdate, ParseError>(e),
            None => r matches Ok(u) && is_parsed_update(text@, u),
        },
{
    if !json_is_wf(text) {
        return Err(ParseError::NotJson);
    }
    let event_type = match json_string_field(text, "e") {
        None => {
            return Err(ParseError::UnsupportedEvent);
        },
        Some(s) => s,
    };
    let tag: String = "aggTrade".to_owned();
    if !(event_type == tag) {
        return Err(ParseError::UnsupportedEvent);
    }
    let symbol = match json_string_field(text, "s") {
        None => {
            return Err(ParseError::MissingSymbol);
        },
        Some(s) => s,
    };
    let price_text = match json_string_field(text, "p") {
        None => {
            return Err(ParseError::MissingPrice);
        },
        Some(s) => s,
    };
    let quantity_text = match json_string_field(text, "q") {
        None => {
            return Err(ParseError::MissingQuantity);
        },
        Some(s) => s,
    };
    let timestamp_ms = match json_integer_field(text, "E") {
        None => {
            return Err(ParseError::MissingTimestamp);
        },
        Some(t) => t,
    };
    agg_trade_update(&event_type, symbol, &price_text, &quantity_text, timestamp_ms)
}

} // verus!
