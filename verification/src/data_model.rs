//! The plain data the pipeline moves around: market-data updates and
//! order intents.
//!
//! Prices and quantities are fixed-point `i64` values scaled by
//! [`crate::fixed::PRICE_SCALE`]; timestamps are milliseconds since the
//! Unix epoch.

use vstd::prelude::*;
use crate::fixed::{PRICE_LIMIT, QTY_LIMIT};
use crate::oms::order::OrderState;

verus! {

/// Which way an order trades.
#[derive(Debug, Clone, Copy, PartialEq, Eq, Structural)]
pub enum Side {
    Buy,
    Sell,
}

/// How an order prices itself.
#[derive(Debug, Clone, Copy, PartialEq, Eq, Structural)]
pub enum OrderType {
    Market,
    Limit,
}

/// How long an order stays eligible for execution.
#[derive(Debug, Clone, Copy, PartialEq, Eq, Structural)]
pub enum TimeInForce {
    GTC,
    IOC,
}

/// One bar of price history.
#[derive(Debug, Clone)]
pub struct Candlestick {
    pub timestamp: i64,
    pub open: i64,
    pub high: i64,
    pub low: i64,
    pub close: i64,
    pub volume: i64,
}

/// One normalized tick from the market-data feed. Constructed once per
/// inbound message and never mutated.
#[derive(Debug, Clone)]
pub struct MarketDataUpdate {
    pub symbol: String,
    pub timestamp: i64,
    pub bid_price: Option<i64>,
    pub bid_quantity: Option<i64>,
    pub ask_price: Option<i64>,
    pub ask_quantity: Option<i64>,
    pub last_price: Option<i64>,
    pub last_quantity: Option<i64>,
}

impl MarketDataUpdate {
    /// The bounds every normalized update observes: a non-negative
    /// timestamp and prices and quantities inside the representable
    /// range.
    pub open spec fn wf(self) -> bool {
        &&& self.timestamp >= 0
        &&& match self.bid_price {
            Some(p) => 0 <= p <= PRICE_LIMIT,
            None => true,
        }
        &&& match self.bid_quantity {
            Some(q) => 0 <= q <= QTY_LIMIT,
            None => true,
        }
        &&& match self.ask_price {
            Some(p) => 0 <= p <= PRICE_LIMIT,
            None => true,
        }
        &&& match self.ask_quantity {
            Some(q) => 0 <= q <= QTY_LIMIT,
            None => true,
        }
        &&& match self.last_price {
            Some(p) => 0 <= p <= PRICE_LIMIT,
            None => true,
        }
        &&& match self.last_quantity {
            Some(q) => 0 <= q <= QTY_LIMIT,
            None => true,
        }
    }
}

/// An order intent, created by the presentation layer or the strategy
/// engine and owned thereafter by the order-management system.
#[derive(Debug, Clone)]
pub struct Order {
    pub order_id: u128,
    pub client_order_id: String,
    pub symbol: String,
    pub side: Side,
    pub order_type: OrderType,
    pub quantity: i64,
    pub price: Option<i64>,
    pub tif: TimeInForce,
    pub placed_at: i64,
    pub state: OrderState,
}

/// Relies on uuid::Uuid::new_v4 for a fresh random identifier. Nothing
/// can be promised of the value drawn.
#[verifier::external_body]
fn fresh_order_id() -> u128 {
    uuid::Uuid::new_v4().as_u128()
}

/// Relies on chrono::Utc::now and DateTime::timestamp_millis for the wall
/// clock, in milliseconds since the Unix epoch. Nothing can be promised
/// of the value read.
#[verifier::external_body]
pub(crate) fn now_millis() -> i64 {
    chrono::Utc::now().timestamp_millis()
}

/// The hyphenated text form of a 128-bit identifier — what uuid's
/// Display renders, a function of the identifier alone, 36 characters
/// long.
pub uninterp spec fn uuid_hyphenated(id: u128) -> Seq<char>;

/// Relies on uuid's hyphenated Display form: a pure rendering of the
/// identifier, exactly 36 characters for every value, prefixed here
/// with "cl_".
#[verifier::external_body]
fn client_id_for(id: u128) -> (r: String)
    ensures
        r@ == "cl_"@ + uuid_hyphenated(id),
        r@.len() == 39,
{
    format!("cl_{}", uuid::Uuid::from_u128(id))
}

impl Order {
    /// Builds a fresh intent in state `New`, with a newly drawn
    /// identifier, a derived correlation string and the clock's timestamp.
    /// Validation is the order-management system's job, not the
    /// constructor's.
    pub fn new(
        symbol: String,
        side: Side,
        order_type: OrderType,
        quantity: i64,
        price: Option<i64>,
        tif: TimeInForce,
    ) -> (r: Order)
        ensures
            r.symbol == symbol,
            r.side == side,
            r.order_type == order_type,
            r.quantity == quantity,
            r.price == price,
            r.tif == tif,
            r.state == OrderState::New,
            r.client_order_id@ == "cl_"@ + uuid_hyphenated(r.order_id),
            r.client_order_id@.len() == 39,
    {
        let order_id = fresh_order_id();
        let client_order_id = client_id_for(order_id);
        Order {
            order_id,
            client_order_id,
            symbol,
            side,
            order_type,
            quantity,
            price,
            tif,
            placed_at: now_millis(),
            state: OrderState::New,
        }
    }

    /// An exact copy of the intent, for handing out as a read-only
    /// snapshot.
    pub fn snapshot(&self) -> (r: Order)
        ensures
            r == *self,
    {
        Order {
            order_id: self.order_id,
            client_order_id: self.client_order_id.clone(),
            symbol: self.symbol.clone(),
            side: self.side,
            order_type: self.order_type,
            quantity: self.quantity,
            price: self.price,
            tif: self.tif,
            placed_at: self.placed_at,
            state: self.state,
        }
    }
}

} // verus!
