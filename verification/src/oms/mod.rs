//! The order-management system: sole writer of order lifecycle state and
//! the transactional boundary between "an order exists" and "a position
//! changed".
//!
//! The asynchronous loop that feeds it — channel receives, the randomized
//! execution delay, the mutual exclusion around the shared state — runs
//! outside the library. Each operation here is one atomic
//! read-modify-write step on the ledger and the position table, and
//! returns the events it publishes; a ghost log of everything ever
//! published carries the ordering guarantees.

pub mod order;
pub mod position;

pub use order::{FullOrder, OrderState};

use vstd::prelude::*;
use crate::data_model::Order;
use crate::fixed::{PRICE_LIMIT, POSITION_LIMIT, QTY_LIMIT};
use order::spec_valid_transition;
use position::{
    has_symbol,
    index_of,
    next_avg_cost,
    next_quantity,
    realized_gain,
    spec_base,
    unrealized_for,
    Position,
    PositionManager,
};

verus! {

/// Default lower edge of the simulated execution delay, in milliseconds.
pub const DEFAULT_FILL_DELAY_MIN_MS: u64 = 100;

/// Default width of the simulated execution delay window, in
/// milliseconds.
pub const DEFAULT_FILL_DELAY_SPAN_MS: u64 = 200;

/// An event published to the consumers of order and position changes.
#[derive(Debug, Clone)]
pub enum OmsUpdate {
    /// A validated order entered the ledger; carries its snapshot.
    OrderCreated(Order),
    /// An order moved to a new lifecycle state.
    OrderStateChange { order_id: u128, new_state: OrderState, timestamp: i64 },
    /// A position changed; carries its snapshot.
    PositionUpdate(Position),
}

/// Why a submitted order was rejected rather than entered.
#[derive(Debug, Clone, Copy, PartialEq, Eq, Structural)]
pub enum RejectReason {
    /// The quantity is zero or negative.
    NonPositiveQuantity,
    /// The symbol is empty.
    EmptySymbol,
    /// The quantity exceeds the representable range.
    QuantityTooLarge,
    /// The limit price lies outside the representable range.
    PriceOutOfRange,
    /// An order with this identifier already exists.
    DuplicateOrderId,
}

/// `e` announces the creation of order `id`.
pub open spec fn is_created_for(e: OmsUpdate, id: u128) -> bool {
    e matches OmsUpdate::OrderCreated(o) && o.order_id == id
}

/// `e` announces a state change of order `id`.
pub open spec fn is_state_change_for(e: OmsUpdate, id: u128) -> bool {
    e matches OmsUpdate::OrderStateChange { order_id, .. } && order_id == id
}

/// How many creation events for `id` the log holds.
pub open spec fn count_created(log: Seq<OmsUpdate>, id: u128) -> nat
    decreases log.len(),
{
    if log.len() == 0 {
        0
    } else {
        count_created(log.drop_last(), id) + if is_created_for(log.last(), id) {
            1nat
        } else {
            0nat
        }
    }
}

/// Every state change for `id` in the log is preceded by a creation
/// event for `id`.
pub open spec fn created_precedes_changes(log: Seq<OmsUpdate>, id: u128) -> bool {
    forall|j: int|
        0 <= j < log.len() && is_state_change_for(#[trigger] log[j], id) ==> exists|k: int|
            0 <= k < j && is_created_for(#[trigger] log[k], id)
}

/// Some record in the ledger carries order `id`.
pub open spec fn ledger_has(s: Seq<FullOrder>, id: u128) -> bool {
    exists|i: int| 0 <= i < s.len() && s[i].order.order_id == id
}

/// The index of order `id`'s record; meaningful only when [`ledger_has`]
/// holds and identifiers are distinct.
pub open spec fn ledger_index_of(s: Seq<FullOrder>, id: u128) -> int {
    choose|i: int| 0 <= i < s.len() && s[i].order.order_id == id
}

/// Why a submitted order is rejected, if it is: the first failing check
/// in validation order.
pub open spec fn spec_reject_reason(ledger: Seq<FullOrder>, order: Order) -> Option<RejectReason> {
    if order.quantity <= 0 {
        Some(RejectReason::NonPositiveQuantity)
    } else if order.symbol@.len() == 0 {
        Some(RejectReason::EmptySymbol)
    } else if order.quantity > QTY_LIMIT {
        Some(RejectReason::QuantityTooLarge)
    } else if order.price matches Some(p) && !(0 <= p <= PRICE_LIMIT) {
        Some(RejectReason::PriceOutOfRange)
    } else if ledger_has(ledger, order.order_id) {
        Some(RejectReason::DuplicateOrderId)
    } else {
        None
    }
}

/// Counting creation events distributes over concatenation.
proof fn lemma_count_created_concat(a: Seq<OmsUpdate>, b: Seq<OmsUpdate>, id: u128)
    ensures
        count_created(a + b, id) == count_created(a, id) + count_created(b, id),
    decreases b.len(),
{
    if b.len() == 0 {
        assert(a + b =~= a);
    } else {
        lemma_count_created_concat(a, b.drop_last(), id);
        assert((a + b).drop_last() =~= a + b.drop_last());
        assert((a + b).last() == b.last());
    }
}

/// A log with no creation event for `id` counts zero.
proof fn lemma_count_created_none(log: Seq<OmsUpdate>, id: u128)
    requires
        forall|m: int| 0 <= m < log.len() ==> !is_created_for(#[trigger] log[m], id),
    ensures
        count_created(log, id) == 0,
    decreases log.len(),
{
    if log.len() > 0 {
        assert forall|m: int| 0 <= m < log.drop_last().len() implies !is_created_for(
            #[trigger] log.drop_last()[m],
            id,
        ) by {
            assert(log.drop_last()[m] == log[m]);
        }
        lemma_count_created_none(log.drop_last(), id);
        assert(!is_created_for(log[log.len() - 1], id));
    }
}

/// A log whose only creation event for `id` sits at `at` counts one.
proof fn lemma_count_created_one(log: Seq<OmsUpdate>, id: u128, at: int)
    requires
        0 <= at < log.len(),
        is_created_for(log[at], id),
        forall|m: int| 0 <= m < log.len() && m != at ==> !is_created_for(#[trigger] log[m], id),
    ensures
        count_created(log, id) == 1,
    decreases log.len(),
{
    if at == log.len() - 1 {
        assert forall|m: int| 0 <= m < log.drop_last().len() implies !is_created_for(
            #[trigger] log.drop_last()[m],
            id,
        ) by {
            assert(log.drop_last()[m] == log[m]);
        }
        lemma_count_created_none(log.drop_last(), id);
        assert(is_created_for(log.last(), id));
    } else {
        assert forall|m: int|
            0 <= m < log.drop_last().len() && m != at implies !is_created_for(
            #[trigger] log.drop_last()[m],
            id,
        ) by {
            assert(log.drop_last()[m] == log[m]);
        }
        assert(log.drop_last()[at] == log[at]);
        lemma_count_created_one(log.drop_last(), id, at);
        assert(!is_created_for(log[log.len() - 1], id));
    }
}

/// A positive creation count exhibits a creation event's index.
proof fn lemma_count_created_pos_exists(log: Seq<OmsUpdate>, id: u128)
    requires
        count_created(log, id) > 0,
    ensures
        exists|k: int| 0 <= k < log.len() && is_created_for(#[trigger] log[k], id),
    decreases log.len(),
{
    if is_created_for(log.last(), id) {
        assert(is_created_for(log[log.len() - 1], id));
    } else {
        lemma_count_created_pos_exists(log.drop_last(), id);
        let k = choose|k: int|
            0 <= k < log.drop_last().len() && is_created_for(#[trigger] log.drop_last()[k], id);
        assert(is_created_for(log[k], id));
    }
}

/// Appending events none of which is an unheralded state change keeps
/// the creation-before-change ordering.
proof fn lemma_precedes_concat(a: Seq<OmsUpdate>, b: Seq<OmsUpdate>, id: u128)
    requires
        created_precedes_changes(a, id),
        forall|m: int|
            0 <= m < b.len() && is_state_change_for(#[trigger] b[m], id) ==> count_created(a, id)
                > 0,
    ensures
        created_precedes_changes(a + b, id),
{
    let c = a + b;
    assert forall|j: int|
        0 <= j < c.len() && is_state_change_for(#[trigger] c[j], id) implies exists|k: int|
        0 <= k < j && is_created_for(#[trigger] c[k], id) by {
        if j < a.len() {
            assert(is_state_change_for(a[j], id));
            let k = choose|k: int| 0 <= k < j && is_created_for(#[trigger] a[k], id);
            assert(is_created_for(c[k], id));
        } else {
            assert(is_state_change_for(b[j - a.len()], id));
            lemma_count_created_pos_exists(a, id);
            let k = choose|k: int| 0 <= k < a.len() && is_created_for(#[trigger] a[k], id);
            assert(is_created_for(c[k], id));
            assert(k < j);
        }
    }
}

/// With distinct identifiers, a record carrying `id` at `k` pins
/// [`ledger_index_of`] to `k`.
pub proof fn lemma_ledger_index_unique(s: Seq<FullOrder>, id: u128, k: int)
    requires
        forall|i: int, j: int|
            0 <= i < j < s.len() ==> (#[trigger] s[i].order.order_id) != (
            #[trigger] s[j].order.order_id),
        0 <= k < s.len(),
        s[k].order.order_id == id,
    ensures
        ledger_has(s, id),
        ledger_index_of(s, id) == k,
{
    assert(ledger_has(s, id));
    let c = ledger_index_of(s, id);
    if c < k {
        assert(s[c].order.order_id != s[k].order.order_id);
    } else if c > k {
        assert(s[k].order.order_id != s[c].order.order_id);
    }
}

/// Law: for every order in the ledger, exactly one `OrderCreated` event
/// was ever published for its identifier, and it precedes every
/// `OrderStateChange` for that identifier; for an identifier not in the
/// ledger, none was.
pub proof fn lemma_one_creation_event_first(oms: Oms, id: u128)
    requires
        oms.wf(),
    ensures
        ledger_has(oms.ledger_view(), id) ==> count_created(oms.published_log(), id) == 1,
        !ledger_has(oms.ledger_view(), id) ==> count_created(oms.published_log(), id) == 0,
        created_precedes_changes(oms.published_log(), id),
{
    assert(count_created(oms.published@, id) == if ledger_has(oms.ledger@, id) {
        1nat
    } else {
        0nat
    });
    assert(created_precedes_changes(oms.published@, id));
}

/// Law: every record the ledger holds is well-formed — validated
/// quantity and price, filled quantity never above the ordered one —
/// so a snapshot from [`Oms::get_order`] carries those bounds.
pub proof fn lemma_ledger_records_well_formed(oms: Oms, id: u128)
    requires
        oms.wf(),
        ledger_has(oms.ledger_view(), id),
    ensures
        0 <= ledger_index_of(oms.ledger_view(), id) < oms.ledger_view().len(),
        oms.ledger_view()[ledger_index_of(oms.ledger_view(), id)].order.order_id == id,
        oms.ledger_view()[ledger_index_of(oms.ledger_view(), id)].wf(),
{
    let s = oms.ledger_view();
    let k = ledger_index_of(s, id);
    assert(0 <= k < s.len() && s[k].order.order_id == id);
    assert(s[k].wf());
}

/// Law: an order with non-positive quantity or an empty symbol is
/// rejected whatever the ledger holds — and, by
/// [`Oms::submit_order`]'s contract, a rejection leaves no ledger entry
/// and publishes nothing.
pub proof fn lemma_invalid_order_rejected(ledger: Seq<FullOrder>, order: Order)
    requires
        order.quantity <= 0 || order.symbol@.len() == 0,
    ensures
        spec_reject_reason(ledger, order) is Some,
{
}

/// Law: replacing one record leaves every other identifier's presence
/// and record exactly as they were, so operations on distinct orders
/// never disturb each other.
pub proof fn lemma_update_preserves_other_orders(s: Seq<FullOrder>, k: int, rec: FullOrder, id: u128)
    requires
        forall|i: int, j: int|
            0 <= i < j < s.len() ==> (#[trigger] s[i].order.order_id) != (
            #[trigger] s[j].order.order_id),
        0 <= k < s.len(),
        rec.order.order_id == s[k].order.order_id,
        id != s[k].order.order_id,
    ensures
        ledger_has(s.update(k, rec), id) == ledger_has(s, id),
        ledger_has(s, id) ==> s.update(k, rec)[ledger_index_of(s.update(k, rec), id)] == s[
            ledger_index_of(s, id)
        ],
{
    let t = s.update(k, rec);
    if ledger_has(s, id) {
        let w = ledger_index_of(s, id);
        assert(s[w].order.order_id == id);
        assert(w != k);
        assert(t[w].order.order_id == id);
        assert(ledger_has(t, id));
        assert forall|i: int, j: int|
            0 <= i < j < t.len() implies (#[trigger] t[i].order.order_id) != (
            #[trigger] t[j].order.order_id) by {
            assert(t[i].order.order_id == if i == k {
                rec.order.order_id
            } else {
                s[i].order.order_id
            });
            assert(t[j].order.order_id == if j == k {
                rec.order.order_id
            } else {
                s[j].order.order_id
            });
            assert(s[i].order.order_id != s[j].order.order_id);
        }
        lemma_ledger_index_unique(t, id, w);
    }
    if ledger_has(t, id) {
        let w = choose|i: int| 0 <= i < t.len() && t[i].order.order_id == id;
        assert(w != k);
        assert(s[w].order.order_id == id);
        assert(ledger_has(s, id));
    }
}

/// Relies on rand::random for a uniformly drawn 64-bit integer. Nothing
/// can be promised of the value.
#[verifier::external_body]
fn random_u64() -> u64 {
    rand::random::<u64>()
}

/// The simulated execution delay: somewhere inside
/// `[min_ms, min_ms + span_ms)`, drawn fresh for every execution.
pub fn fill_delay_ms(min_ms: u64, span_ms: u64) -> (r: u64)
    requires
        0 < span_ms,
        min_ms + span_ms <= u64::MAX,
    ensures
        min_ms <= r < min_ms + span_ms,
{
    let draw = random_u64();
    min_ms + draw % span_ms
}

/// The order-management system's state: the order ledger, the position
/// table, and (as a ghost) everything it ever published. The lock that
/// guards it in a running system sits outside the library; every method
/// here is one critical section.
pub struct Oms {
    ledger: Vec<FullOrder>,
    positions: PositionManager,
    published: Ghost<Seq<OmsUpdate>>,
}

impl Oms {
    /// The ledger's records, in insertion order.
    pub closed spec fn ledger_view(self) -> Seq<FullOrder> {
        self.ledger@
    }

    /// The position records, in insertion order.
    pub closed spec fn positions_view(self) -> Seq<Position> {
        self.positions@
    }

    /// Every event published so far, in publication order.
    pub closed spec fn published_log(self) -> Seq<OmsUpdate> {
        self.published@
    }

    /// The system's invariant: distinct well-formed ledger records, a
    /// well-formed position table, exactly one creation event per ledger
    /// identifier (and none for any other identifier), and every state
    /// change preceded by its creation event.
    pub closed spec fn wf(self) -> bool {
        &&& forall|i: int, j: int|
            0 <= i < j < self.ledger@.len() ==> (#[trigger] self.ledger@[i].order.order_id) != (
            #[trigger] self.ledger@[j].order.order_id)
        &&& forall|i: int| 0 <= i < self.ledger@.len() ==> (#[trigger] self.ledger@[i]).wf()
        &&& self.positions.wf()
        &&& forall|id: u128|
            #[trigger] count_created(self.published@, id) == if ledger_has(self.ledger@, id) {
                1nat
            } else {
                0nat
            }
        &&& forall|id: u128| #[trigger] created_precedes_changes(self.published@, id)
    }

    /// A fresh system: empty ledger, empty position table, nothing
    /// published.
    pub fn new() -> (r: Oms)
        ensures
            r.wf(),
            r.ledger_view() == Seq::<FullOrder>::empty(),
            r.positions_view() == Seq::<Position>::empty(),
            r.published_log() == Seq::<OmsUpdate>::empty(),
    {
        let r = Oms {
            ledger: Vec::new(),
            positions: PositionManager::new(),
            published: Ghost(Seq::empty()),
        };
        proof {
            assert forall|id: u128|
                #[trigger] count_created(r.published@, id) == if ledger_has(r.ledger@, id) {
                    1nat
                } else {
                    0nat
                } by {
                assert(!ledger_has(r.ledger@, id));
            }
        }
        r
    }

    /// The index of order `id`'s record, if one exists.
    fn find_order(&self, order_id: u128) -> (r: Option<usize>)
        ensures
            match r {
                Some(k) => k < self.ledger@.len() && self.ledger@[k as int].order.order_id
                    == order_id,
                None => !ledger_has(self.ledger@, order_id),
            },
    {
        let n = self.ledger.len();
        let mut i: usize = 0;
        while i < n
            invariant
                0 <= i <= n == self.ledger@.len(),
                forall|j: int| 0 <= j < i ==> (#[trigger] self.ledger@[j].order.order_id) != order_id,
            decreases n - i,
        {
            if self.ledger[i].order.order_id == order_id {
                return Some(i);
            }
            i = i + 1;
        }
        None
    }

    /// Accepts or rejects one submitted order. A rejected order leaves
    /// no trace: no ledger entry, no event. An accepted order enters the
    /// ledger in state `PendingNew` and exactly one `OrderCreated` event
    /// for its identifier is published, before any state change for it
    /// can ever be.
    pub fn submit_order(&mut self, order: Order) -> (r: Result<Vec<OmsUpdate>, RejectReason>)
        requires
            old(self).wf(),
        ensures
            final(self).wf(),
            match r {
                Err(e) => {
                    &&& spec_reject_reason(old(self).ledger_view(), order) == Some(e)
                    &&& final(self).ledger_view() == old(self).ledger_view()
                    &&& final(self).positions_view() == old(self).positions_view()
                    &&& final(self).published_log() == old(self).published_log()
                },
                Ok(evs) => {
                    &&& spec_reject_reason(old(self).ledger_view(), order) is None
                    &&& evs@.len() == 1
                    &&& evs@[0] matches OmsUpdate::OrderCreated(o) && o == (Order {
                        state: OrderState::PendingNew,
                        ..order
                    })
                    &&& ({
                        let rec = final(self).ledger_view().last();
                        &&& final(self).ledger_view() == old(self).ledger_view().push(rec)
                        &&& rec.order == (Order { state: OrderState::PendingNew, ..order })
                        &&& rec.current_state == OrderState::PendingNew
                        &&& rec.filled_quantity == 0
                        &&& rec.avg_fill_price == 0
                    })
                    &&& final(self).positions_view() == old(self).positions_view()
                    &&& final(self).published_log() == old(self).published_log() + evs@
                },
            },
    {
        if order.quantity <= 0 {
            return Err(RejectReason::NonPositiveQuantity);
        }
        if order.symbol.as_str().is_empty() {
            return Err(RejectReason::EmptySymbol);
        }
        if order.quantity > QTY_LIMIT {
            return Err(RejectReason::QuantityTooLarge);
        }
        match order.price {
            Some(p) => {
                if p < 0 || p > PRICE_LIMIT {
                    return Err(RejectReason::PriceOutOfRange);
                }
            },
            None => {},
        }
        match self.find_order(order.order_id) {
            Some(_) => {
                return Err(RejectReason::DuplicateOrderId);
            },
            None => {},
        }
        let mut accepted = order;
        accepted.state = OrderState::PendingNew;
        let snapshot = accepted.snapshot();
        let rec = FullOrder::from(accepted);
        self.ledger.push(rec);
        let mut evs: Vec<OmsUpdate> = Vec::new();
        evs.push(OmsUpdate::OrderCreated(snapshot));
        proof {
            let oldpub = old(self).published@;
            let oldled = old(self).ledger@;
            let newled = self.ledger@;
            assert forall|id: u128|
                #[trigger] count_created(oldpub + evs@, id) == if ledger_has(newled, id) {
                    1nat
                } else {
                    0nat
                } by {
                lemma_count_created_concat(oldpub, evs@, id);
                if is_created_for(evs@[0], id) {
                    lemma_count_created_one(evs@, id, 0);
                } else {
                    lemma_count_created_none(evs@, id);
                }
                if id == order.order_id {
                    assert(!ledger_has(oldled, id));
                    assert(newled[newled.len() - 1].order.order_id == id);
                    assert(ledger_has(newled, id));
                } else {
                    if ledger_has(newled, id) {
                        let w = choose|i: int|
                            0 <= i < newled.len() && newled[i].order.order_id == id;
                        assert(oldled[w].order.order_id == id);
                        assert(ledger_has(oldled, id));
                    }
                    if ledger_has(oldled, id) {
                        let w = choose|i: int|
                            0 <= i < oldled.len() && oldled[i].order.order_id == id;
                        assert(newled[w].order.order_id == id);
                        assert(ledger_has(newled, id));
                    }
                }
            }
            assert forall|id: u128| #[trigger] created_precedes_changes(oldpub + evs@, id) by {
                lemma_precedes_concat(oldpub, evs@, id);
            }
        }
        self.published = Ghost(self.published@ + evs@);
        Ok(evs)
    }

    /// Completes the simulated execution of an order: the step the
    /// detached execution task takes after its randomized delay. The
    /// ledger entry is re-validated first — a missing identifier or a
    /// terminal state makes the whole operation a no-op, so delivering a
    /// terminal transition twice changes nothing the second time.
    /// Otherwise the order fills completely at its limit price (or at
    /// `reference_price` for a market order), the fill is applied to the
    /// position table, and the state change is published before the
    /// position update.
    pub fn complete_execution(&mut self, order_id: u128, reference_price: i64, now_ms: i64) -> (evs:
        Vec<OmsUpdate>)
        requires
            old(self).wf(),
            0 <= reference_price <= PRICE_LIMIT,
        ensures
            final(self).wf(),
            final(self).published_log() == old(self).published_log() + evs@,
            ({
                let oldled = old(self).ledger_view();
                if !ledger_has(oldled, order_id) {
                    &&& evs@.len() == 0
                    &&& final(self).ledger_view() == oldled
                    &&& final(self).positions_view() == old(self).positions_view()
                } else {
                    let k = ledger_index_of(oldled, order_id);
                    let rec = oldled[k];
                    if !spec_valid_transition(rec.current_state, OrderState::Filled) {
                        &&& evs@.len() == 0
                        &&& final(self).ledger_view() == oldled
                        &&& final(self).positions_view() == old(self).positions_view()
                    } else {
                        let fill_price = match rec.order.price {
                            Some(p) => p as int,
                            None => reference_price as int,
                        };
                        let (q0, avg0, real0) = spec_base(
                            old(self).positions_view(),
                            rec.order.symbol@,
                        );
                        let nq = next_quantity(q0, rec.order.side, rec.order.quantity as int);
                        let navg = next_avg_cost(
                            q0,
                            avg0,
                            rec.order.side,
                            rec.order.quantity as int,
                            fill_price,
                        );
                        let nr = real0 + realized_gain(
                            q0,
                            avg0,
                            rec.order.side,
                            rec.order.quantity as int,
                            fill_price,
                        );
                        let newrec = final(self).ledger_view()[k];
                        &&& final(self).ledger_view() == oldled.update(k, newrec)
                        &&& newrec.order == rec.order
                        &&& newrec.current_state == OrderState::Filled
                        &&& newrec.filled_quantity == rec.order.quantity
                        &&& newrec.avg_fill_price == fill_price
                        &&& newrec.last_fill_price == Some(newrec.avg_fill_price)
                        &&& newrec.last_fill_quantity == Some(rec.order.quantity)
                        &&& newrec.last_fill_time == Some(now_ms)
                        &&& evs@.len() >= 1
                        &&& evs@[0] == (OmsUpdate::OrderStateChange {
                            order_id,
                            new_state: OrderState::Filled,
                            timestamp: now_ms,
                        })
                        &&& if -POSITION_LIMIT <= nq <= POSITION_LIMIT && i128::MIN <= nr
                            <= i128::MAX {
                            &&& evs@.len() == 2
                            &&& evs@[1] matches OmsUpdate::PositionUpdate(p)
                            &&& ({
                                let p = final(self).positions_view()[if has_symbol(
                                    old(self).positions_view(),
                                    rec.order.symbol@,
                                ) {
                                    index_of(old(self).positions_view(), rec.order.symbol@)
                                } else {
                                    old(self).positions_view().len() as int
                                }];
                                &&& evs@[1] == OmsUpdate::PositionUpdate(p)
                                &&& p.symbol@ == rec.order.symbol@
                                &&& p.quantity == nq
                                &&& p.avg_cost == navg
                                &&& p.last_price == fill_price
                                &&& p.pnl_realized == nr
                                &&& p.pnl_unrealized == unrealized_for(nq, navg, fill_price)
                                &&& if has_symbol(old(self).positions_view(), rec.order.symbol@) {
                                    final(self).positions_view() == old(
                                        self,
                                    ).positions_view().update(
                                        index_of(old(self).positions_view(), rec.order.symbol@),
                                        p,
                                    )
                                } else {
                                    final(self).positions_view() == old(
                                        self,
                                    ).positions_view().push(p)
                                }
                            })
                        } else {
                            // the fill itself stands; the position change
                            // is dropped as an anomaly
                            evs@.len() == 1 && final(self).positions_view() == old(
                                self,
                            ).positions_view()
                        }
                    }
                }
            }),
    {
        let found = self.find_order(order_id);
        match found {
            None => {
                let evs: Vec<OmsUpdate> = Vec::new();
                proof {
                    assert(self.published@ + evs@ =~= self.published@);
                }
                self.published = Ghost(self.published@ + evs@);
                evs
            },
            Some(k) => {
                proof {
                    lemma_ledger_index_unique(self.ledger@, order_id, k as int);
                }
                if !self.ledger[k].current_state.allows_transition_to(OrderState::Filled) {
                    let evs: Vec<OmsUpdate> = Vec::new();
                    proof {
                        assert(self.published@ + evs@ =~= self.published@);
                    }
                    self.published = Ghost(self.published@ + evs@);
                    return evs;
                }
                let fill_price = match self.ledger[k].order.price {
                    Some(p) => p,
                    None => reference_price,
                };
                let qty = self.ledger[k].order.quantity;
                let side = self.ledger[k].order.side;
                let symbol = self.ledger[k].order.symbol.clone();
                self.ledger[k].current_state = OrderState::Filled;
                self.ledger[k].filled_quantity = qty;
                self.ledger[k].avg_fill_price = fill_price;
                self.ledger[k].last_fill_price = Some(fill_price);
                self.ledger[k].last_fill_quantity = Some(qty);
                self.ledger[k].last_fill_time = Some(now_ms);
                let mut evs: Vec<OmsUpdate> = Vec::new();
                evs.push(
                    OmsUpdate::OrderStateChange {
                        order_id,
                        new_state: OrderState::Filled,
                        timestamp: now_ms,
                    },
                );
                let fill_res = self.positions.update_position(symbol, side, qty, fill_price);
                match fill_res {
                    Ok(p) => {
                        evs.push(OmsUpdate::PositionUpdate(p));
                    },
                    Err(_) => {},
                }
                proof {
                    let oldpub = old(self).published@;
                    assert forall|id: u128|
                        #[trigger] count_created(oldpub + evs@, id) == if ledger_has(
                            self.ledger@,
                            id,
                        ) {
                            1nat
                        } else {
                            0nat
                        } by {
                        lemma_count_created_concat(oldpub, evs@, id);
                        lemma_count_created_none(evs@, id);
                        assert(ledger_has(self.ledger@, id) == ledger_has(old(self).ledger@, id))
                            by {
                            if ledger_has(self.ledger@, id) {
                                let w = choose|i: int|
                                    0 <= i < self.ledger@.len()
                                        && self.ledger@[i].order.order_id == id;
                                assert(old(self).ledger@[w].order.order_id == id);
                            }
                            if ledger_has(old(self).ledger@, id) {
                                let w = choose|i: int|
                                    0 <= i < old(self).ledger@.len() && old(
                                        self,
                                    ).ledger@[i].order.order_id == id;
                                assert(self.ledger@[w].order.order_id == id);
                            }
                        }
                    }
                    assert forall|id: u128| #[trigger] created_precedes_changes(
                        oldpub + evs@,
                        id,
                    ) by {
                        assert forall|m: int|
                            0 <= m < evs@.len() && is_state_change_for(
                                #[trigger] evs@[m],
                                id,
                            ) implies count_created(oldpub, id) > 0 by {
                            assert(m == 0);
                            assert(id == order_id);
                            assert(ledger_has(old(self).ledger@, order_id));
                        }
                        lemma_precedes_concat(oldpub, evs@, id);
                    }
                }
                self.published = Ghost(self.published@ + evs@);
                evs
            },
        }
    }

    /// Notes a raw market price for `symbol`: the symbol's position, if
    /// one exists, is remarked against it, independently of order flow.
    pub fn observe_market_price(&mut self, symbol: &String, price: i64)
        requires
            old(self).wf(),
            0 <= price <= PRICE_LIMIT,
        ensures
            final(self).wf(),
            final(self).ledger_view() == old(self).ledger_view(),
            final(self).published_log() == old(self).published_log(),
            if has_symbol(old(self).positions_view(), symbol@) {
                ({
                    let k = index_of(old(self).positions_view(), symbol@);
                    let p0 = old(self).positions_view()[k];
                    let p1 = final(self).positions_view()[k];
                    &&& final(self).positions_view() == old(self).positions_view().update(k, p1)
                    &&& p1 == (Position {
                        last_price: price,
                        pnl_unrealized: p1.pnl_unrealized,
                        ..p0
                    })
                    &&& p1.pnl_unrealized == unrealized_for(
                        p0.quantity as int,
                        p0.avg_cost as int,
                        price as int,
                    )
                })
            } else {
                final(self).positions_view() == old(self).positions_view()
            },
    {
        self.positions.observe_market_price(symbol, price);
    }

    /// How many orders the ledger holds.
    pub fn order_count(&self) -> (r: usize)
        ensures
            r == self.ledger_view().len(),
    {
        self.ledger.len()
    }

    /// A read-only snapshot of order `id`'s record, if one exists.
    pub fn get_order(&self, order_id: u128) -> (r: Option<FullOrder>)
        requires
            self.wf(),
        ensures
            match r {
                Some(rec) => ledger_has(self.ledger_view(), order_id) && rec == self.ledger_view()[
                    ledger_index_of(self.ledger_view(), order_id)
                ],
                None => !ledger_has(self.ledger_view(), order_id),
            },
    {
        match self.find_order(order_id) {
            Some(k) => {
                proof {
                    lemma_ledger_index_unique(self.ledger@, order_id, k as int);
                }
                Some(self.ledger[k].snapshot())
            },
            None => None,
        }
    }

    /// A read-only snapshot of `symbol`'s position, if one exists.
    pub fn get_position(&self, symbol: &String) -> (r: Option<Position>)
        requires
            self.wf(),
        ensures
            match r {
                Some(p) => has_symbol(self.positions_view(), symbol@) && p
                    == self.positions_view()[index_of(self.positions_view(), symbol@)],
                None => !has_symbol(self.positions_view(), symbol@),
            },
    {
        self.positions.get_position(symbol)
    }

    /// Read-only snapshots of every position, in insertion order.
    pub fn get_all_positions(&self) -> (r: Vec<Position>)
        ensures
            r@ == self.positions_view(),
    {
        self.positions.get_all_positions()
    }
}

} // verus!
