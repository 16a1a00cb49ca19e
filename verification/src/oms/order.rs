//! Order lifecycle states and the order-management system's internal
//! order record.

use vstd::prelude::*;
use crate::data_model::Order;
use crate::fixed::{PRICE_LIMIT, QTY_LIMIT};

verus! {

/// The lifecycle states of an order. `Filled`, `Canceled`, `Rejected` and
/// `Expired` are terminal: once reached, no further transition is allowed.
#[derive(Debug, Clone, Copy, PartialEq, Eq, Structural)]
pub enum OrderState {
    New,
    PendingNew,
    Open,
    Filled,
    PartialFill,
    Canceled,
    PendingCancel,
    Rejected,
    Expired,
}

/// A state from which no transition leaves.
pub open spec fn spec_is_terminal(s: OrderState) -> bool {
    match s {
        OrderState::Filled => true,
        OrderState::Canceled => true,
        OrderState::Rejected => true,
        OrderState::Expired => true,
        _ => false,
    }
}

/// The order state machine. `PendingCancel` may still become `Filled`
/// because a cancel can race a fill, and the simulated executor fills
/// straight from `PendingNew`.
pub open spec fn spec_valid_transition(from: OrderState, to: OrderState) -> bool {
    match (from, to) {
        (OrderState::New, OrderState::PendingNew) => true,
        (OrderState::PendingNew, OrderState::Open) => true,
        (OrderState::PendingNew, OrderState::Rejected) => true,
        (OrderState::PendingNew, OrderState::Filled) => true,
        (OrderState::Open, OrderState::PartialFill) => true,
        (OrderState::Open, OrderState::Filled) => true,
        (OrderState::Open, OrderState::PendingCancel) => true,
        (OrderState::Open, OrderState::Expired) => true,
        (OrderState::PartialFill, OrderState::PartialFill) => true,
        (OrderState::PartialFill, OrderState::Filled) => true,
        (OrderState::PendingCancel, OrderState::Canceled) => true,
        (OrderState::PendingCancel, OrderState::Filled) => true,
        _ => false,
    }
}

impl OrderState {
    /// Whether this state is terminal.
    pub fn is_terminal(self) -> (r: bool)
        ensures
            r == spec_is_terminal(self),
    {
        match self {
            OrderState::Filled => true,
            OrderState::Canceled => true,
            OrderState::Rejected => true,
            OrderState::Expired => true,
            _ => false,
        }
    }

    /// Whether the state machine allows moving from this state to `to`.
    pub fn allows_transition_to(self, to: OrderState) -> (r: bool)
        ensures
            r == spec_valid_transition(self, to),
    {
        match (self, to) {
            (OrderState::New, OrderState::PendingNew) => true,
            (OrderState::PendingNew, OrderState::Open) => true,
            (OrderState::PendingNew, OrderState::Rejected) => true,
            (OrderState::PendingNew, OrderState::Filled) => true,
            (OrderState::Open, OrderState::PartialFill) => true,
            (OrderState::Open, OrderState::Filled) => true,
            (OrderState::Open, OrderState::PendingCancel) => true,
            (OrderState::Open, OrderState::Expired) => true,
            (OrderState::PartialFill, OrderState::PartialFill) => true,
            (OrderState::PartialFill, OrderState::Filled) => true,
            (OrderState::PendingCancel, OrderState::Canceled) => true,
            (OrderState::PendingCancel, OrderState::Filled) => true,
            _ => false,
        }
    }
}

/// No transition leaves a terminal state.
pub proof fn lemma_terminal_states_are_final(from: OrderState, to: OrderState)
    ensures
        spec_is_terminal(from) ==> !spec_valid_transition(from, to),
{
}

/// The full, internal record of an order inside the order-management
/// system: the intent plus execution bookkeeping.
#[derive(Debug, Clone)]
pub struct FullOrder {
    pub order: Order,
    pub current_state: OrderState,
    pub filled_quantity: i64,
    pub avg_fill_price: i64,
    pub last_fill_price: Option<i64>,
    pub last_fill_quantity: Option<i64>,
    pub last_fill_time: Option<i64>,
    pub exchange_order_id: Option<String>,
    pub rejection_reason: Option<String>,
}

impl FullOrder {
    /// The record's invariant: the wrapped intent was validated, the
    /// filled quantity never exceeds the ordered one, and the average
    /// fill price is meaningful only once something filled.
    pub open spec fn wf(self) -> bool {
        &&& 0 < self.order.quantity <= QTY_LIMIT
        &&& self.order.symbol@.len() > 0
        &&& match self.order.price {
            Some(p) => 0 <= p <= PRICE_LIMIT,
            None => true,
        }
        &&& 0 <= self.filled_quantity <= self.order.quantity
        &&& self.filled_quantity == 0 ==> self.avg_fill_price == 0
        &&& 0 <= self.avg_fill_price <= PRICE_LIMIT
    }

    /// Wraps a fresh intent: nothing filled yet, current state taken from
    /// the intent.
    pub fn from(ui_order: Order) -> (r: FullOrder)
        ensures
            r.order == ui_order,
            r.current_state == ui_order.state,
            r.filled_quantity == 0,
            r.avg_fill_price == 0,
            r.last_fill_price is None,
            r.last_fill_quantity is None,
            r.last_fill_time is None,
            r.exchange_order_id is None,
            r.rejection_reason is None,
    {
        let current_state = ui_order.state;
        FullOrder {
            order: ui_order,
            current_state,
            filled_quantity: 0,
            avg_fill_price: 0,
            last_fill_price: None,
            last_fill_quantity: None,
            last_fill_time: None,
            exchange_order_id: None,
            rejection_reason: None,
        }
    }

    /// An exact copy of the record, for handing out as a read-only
    /// snapshot.
    pub fn snapshot(&self) -> (r: FullOrder)
        ensures
            r == *self,
    {
        FullOrder {
            order: self.order.snapshot(),
            current_state: self.current_state,
            filled_quantity: self.filled_quantity,
            avg_fill_price: self.avg_fill_price,
            last_fill_price: self.last_fill_price,
            last_fill_quantity: self.last_fill_quantity,
            last_fill_time: self.last_fill_time,
            exchange_order_id: match &self.exchange_order_id {
                Some(s) => Some(s.clone()),
                None => None,
            },
            rejection_reason: match &self.rejection_reason {
                Some(s) => Some(s.clone()),
                None => None,
            },
        }
    }

    /// Moves the record to `new_state` when the state machine allows it;
    /// an attempt to mutate a terminal (or otherwise unreachable) state
    /// is a no-op and reports `false`.
    pub fn update_state(&mut self, new_state: OrderState) -> (applied: bool)
        ensures
            applied == spec_valid_transition(old(self).current_state, new_state),
            applied ==> *final(self) == (FullOrder { current_state: new_state, ..*old(self) }),
            !applied ==> *final(self) == *old(self),
    {
        if self.current_state.allows_transition_to(new_state) {
            self.current_state = new_state;
            true
        } else {
            false
        }
    }
}

} // verus!
