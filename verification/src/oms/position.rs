//! Per-symbol positions and the position manager that applies fills to
//! them.
//!
//! Quantities are signed (positive = net long), prices are non-negative,
//! both scaled by [`crate::fixed::PRICE_SCALE`]. Profit-and-loss figures
//! carry the product scale ([`crate::fixed::PNL_SCALE`]).

use vstd::prelude::*;
use vstd::arithmetic::div_mod::{
    lemma_div_is_ordered,
    lemma_div_multiples_vanish,
    lemma_div_pos_is_pos,
};
use crate::data_model::Side;
use crate::fixed::{POSITION_LIMIT, PRICE_LIMIT, QTY_LIMIT};

verus! {

/// The magnitude of `x`.
pub open spec fn abs_val(x: int) -> int {
    if x >= 0 {
        x
    } else {
        -x
    }
}

/// The smaller of `a` and `b`.
pub open spec fn min_val(a: int, b: int) -> int {
    if a <= b {
        a
    } else {
        b
    }
}

/// The signed quantity a fill adds to a position: a buy adds, a sell
/// subtracts.
pub open spec fn signed_delta(side: Side, quantity: int) -> int {
    if side is Buy {
        quantity
    } else {
        -quantity
    }
}

/// Whether a fill extends the position (or opens one from flat) rather
/// than offsetting it.
pub open spec fn extends_position(q: int, d: int) -> bool {
    q == 0 || (q > 0 && d > 0) || (q < 0 && d < 0)
}

/// The position's signed quantity after a fill.
pub open spec fn next_quantity(q: int, side: Side, f: int) -> int {
    q + signed_delta(side, f)
}

/// The average cost basis after a fill: the quantity-weighted blend when
/// the fill extends the position, unchanged for a partial offset, zero
/// when the position closes flat, the fill price when it flips through
/// zero.
pub open spec fn next_avg_cost(q: int, avg: int, side: Side, f: int, p: int) -> int {
    let d = signed_delta(side, f);
    if extends_position(q, d) {
        (abs_val(q) * avg + f * p) / (abs_val(q) + f)
    } else if f < abs_val(q) {
        avg
    } else if f == abs_val(q) {
        0
    } else {
        p
    }
}

/// The profit-and-loss a fill realizes: zero when it extends the
/// position, `(fill price - avg cost) * closed quantity` (sign per side)
/// when it offsets one.
pub open spec fn realized_gain(q: int, avg: int, side: Side, f: int, p: int) -> int {
    let d = signed_delta(side, f);
    if extends_position(q, d) {
        0
    } else {
        let closed = min_val(f, abs_val(q));
        if q > 0 {
            (p - avg) * closed
        } else {
            (avg - p) * closed
        }
    }
}

/// The mark-to-market profit-and-loss of an open position: zero when
/// flat.
pub open spec fn unrealized_for(q: int, avg: int, last: int) -> int {
    if q != 0 {
        (last - avg) * q
    } else {
        0
    }
}

/// Law: a buy of quantity `q` at price `p` applied to an empty position
/// opens it at exactly that quantity and that cost basis, and realizes
/// nothing.
pub proof fn lemma_open_from_flat(q: int, p: int)
    requires
        0 < q,
        0 <= p,
    ensures
        next_quantity(0, Side::Buy, q) == q,
        next_avg_cost(0, 0, Side::Buy, q, p) == p,
        realized_gain(0, 0, Side::Buy, q, p) == 0,
{
    lemma_div_multiples_vanish(p, q);
    assert((0 * 0 + q * p) / (0 + q) == (q * p) / q);
}

/// Law: a sell that partially offsets a long position reduces the
/// quantity by the sold amount, leaves the cost basis unchanged, and
/// realizes `(price - cost) * sold`.
pub proof fn lemma_partial_offset_realizes(q: int, avg: int, f: int, p: int)
    requires
        0 < f < q,
    ensures
        next_quantity(q, Side::Sell, f) == q - f,
        next_avg_cost(q, avg, Side::Sell, f, p) == avg,
        realized_gain(q, avg, Side::Sell, f, p) == (p - avg) * f,
{
}

/// Law: a well-formed position with zero quantity carries zero
/// unrealized profit-and-loss — and [`Position::apply_fill`] and
/// [`Position::observe_price`] keep every position well-formed, so this
/// holds after any sequence of fills.
pub proof fn lemma_flat_position_no_unrealized(p: Position)
    requires
        p.wf(),
        p.quantity == 0,
    ensures
        p.pnl_unrealized == 0,
{
}

/// Why a fill could not be applied.
#[derive(Debug, Clone, Copy, PartialEq, Eq, Structural)]
pub enum FillError {
    /// The position's signed quantity would leave the representable
    /// range.
    PositionLimitExceeded,
    /// The realized profit-and-loss accumulator would overflow.
    PnlOverflow,
}

/// One per-symbol position record. Created lazily on a symbol's first
/// fill and never deleted.
#[derive(Debug, Clone)]
pub struct Position {
    pub symbol: String,
    pub quantity: i64,
    pub avg_cost: i64,
    pub last_price: i64,
    pub pnl_unrealized: i128,
    pub pnl_realized: i128,
}

impl Position {
    /// The record's invariant: bounded fields, a flat position carries no
    /// cost basis, and the unrealized profit-and-loss is always the
    /// mark-to-market value of the open quantity — in particular it is
    /// zero whenever the quantity is zero.
    pub open spec fn wf(self) -> bool {
        &&& self.symbol@.len() > 0
        &&& -POSITION_LIMIT <= self.quantity <= POSITION_LIMIT
        &&& 0 <= self.avg_cost <= PRICE_LIMIT
        &&& 0 <= self.last_price <= PRICE_LIMIT
        &&& self.quantity == 0 ==> self.avg_cost == 0
        &&& self.pnl_unrealized == unrealized_for(
            self.quantity as int,
            self.avg_cost as int,
            self.last_price as int,
        )
    }

    /// A flat position for `symbol`.
    pub fn new(symbol: String) -> (r: Position)
        requires
            symbol@.len() > 0,
        ensures
            r.symbol == symbol,
            r.quantity == 0,
            r.avg_cost == 0,
            r.last_price == 0,
            r.pnl_unrealized == 0,
            r.pnl_realized == 0,
            r.wf(),
    {
        Position { symbol, quantity: 0, avg_cost: 0, last_price: 0, pnl_unrealized: 0, pnl_realized: 0 }
    }

    /// An exact copy of the record, for handing out as a read-only
    /// snapshot.
    pub fn snapshot(&self) -> (r: Position)
        ensures
            r == *self,
    {
        Position {
            symbol: self.symbol.clone(),
            quantity: self.quantity,
            avg_cost: self.avg_cost,
            last_price: self.last_price,
            pnl_unrealized: self.pnl_unrealized,
            pnl_realized: self.pnl_realized,
        }
    }

    /// Recomputes the mark-to-market profit-and-loss from the current
    /// quantity, cost basis and last observed price.
    pub fn update_unrealized_pnl(&mut self)
        requires
            -POSITION_LIMIT <= old(self).quantity <= POSITION_LIMIT,
            0 <= old(self).avg_cost <= PRICE_LIMIT,
            0 <= old(self).last_price <= PRICE_LIMIT,
        ensures
            *final(self) == (Position {
                pnl_unrealized: final(self).pnl_unrealized,
                ..*old(self)
            }),
            final(self).pnl_unrealized == unrealized_for(
                old(self).quantity as int,
                old(self).avg_cost as int,
                old(self).last_price as int,
            ),
    {
        if self.quantity != 0 {
            let diff: i64 = self.last_price - self.avg_cost;
            proof {
                lemma_product_in_range(diff as int, self.quantity as int);
            }
            self.pnl_unrealized = (diff as i128) * (self.quantity as i128);
        } else {
            self.pnl_unrealized = 0;
        }
    }

    /// Notes a new market price for the symbol and remarks the open
    /// quantity against it. Driven by fills and by raw market-data
    /// ticks alike.
    pub fn observe_price(&mut self, price: i64)
        requires
            old(self).wf(),
            0 <= price <= PRICE_LIMIT,
        ensures
            final(self).wf(),
            *final(self) == (Position {
                last_price: price,
                pnl_unrealized: final(self).pnl_unrealized,
                ..*old(self)
            }),
            final(self).pnl_unrealized == unrealized_for(
                old(self).quantity as int,
                old(self).avg_cost as int,
                price as int,
            ),
    {
        self.last_price = price;
        self.update_unrealized_pnl();
    }

    /// Applies one fill. When the resulting quantity stays within range
    /// and the realized profit-and-loss accumulator does not overflow,
    /// the position becomes exactly what the model functions above
    /// prescribe; otherwise nothing changes and the reason is reported.
    pub fn apply_fill(&mut self, side: Side, quantity: i64, fill_price: i64) -> (r: Result<
        (),
        FillError,
    >)
        requires
            old(self).wf(),
            0 < quantity <= QTY_LIMIT,
            0 <= fill_price <= PRICE_LIMIT,
        ensures
            final(self).symbol == old(self).symbol,
            ({
                let q = old(self).quantity as int;
                let avg = old(self).avg_cost as int;
                let nq = next_quantity(q, side, quantity as int);
                let gain = realized_gain(q, avg, side, quantity as int, fill_price as int);
                let nr = old(self).pnl_realized + gain;
                if !(-POSITION_LIMIT <= nq <= POSITION_LIMIT) {
                    r == Err::<(), FillError>(FillError::PositionLimitExceeded) && *final(self)
                        == *old(self)
                } else if !(i128::MIN <= nr <= i128::MAX) {
                    r == Err::<(), FillError>(FillError::PnlOverflow) && *final(self) == *old(self)
                } else {
                    let navg = next_avg_cost(q, avg, side, quantity as int, fill_price as int);
                    r == Ok::<(), FillError>(()) && final(self).wf() && final(self).quantity == nq
                        && final(self).avg_cost == navg && final(self).last_price == fill_price
                        && final(self).pnl_realized == nr && final(self).pnl_unrealized
                        == unrealized_for(nq, navg, fill_price as int)
                }
            }),
    {
        let d: i64 = match side {
            Side::Buy => quantity,
            Side::Sell => -quantity,
        };
        let nq: i64 = self.quantity + d;
        if nq < -POSITION_LIMIT || nq > POSITION_LIMIT {
            return Err(FillError::PositionLimitExceeded);
        }
        let extends: bool = self.quantity == 0 || (self.quantity > 0 && d > 0) || (self.quantity
            < 0 && d < 0);
        if extends {
            let absq: i64 = if self.quantity >= 0 {
                self.quantity
            } else {
                -self.quantity
            };
            proof {
                lemma_mul_nonneg_bound(absq as int, PRICE_LIMIT as int, self.avg_cost as int);
                lemma_mul_nonneg_bound(quantity as int, PRICE_LIMIT as int, fill_price as int);
                lemma_weighted_avg_bounded(
                    absq as int,
                    self.avg_cost as int,
                    quantity as int,
                    fill_price as int,
                    PRICE_LIMIT as int,
                );
            }
            let num: u128 = (absq as u128) * (self.avg_cost as u128) + (quantity as u128) * (
            fill_price as u128);
            let den: u128 = (absq as u128) + (quantity as u128);
            let blended: u128 = num / den;
            self.avg_cost = blended as i64;
            self.quantity = nq;
        } else {
            let absq: i64 = if self.quantity >= 0 {
                self.quantity
            } else {
                -self.quantity
            };
            let closed: i64 = if quantity < absq {
                quantity
            } else {
                absq
            };
            let diff: i64 = if self.quantity > 0 {
                fill_price - self.avg_cost
            } else {
                self.avg_cost - fill_price
            };
            proof {
                lemma_product_in_range(diff as int, closed as int);
            }
            let gain: i128 = (diff as i128) * (closed as i128);
            match self.pnl_realized.checked_add(gain) {
                None => {
                    return Err(FillError::PnlOverflow);
                },
                Some(nr) => {
                    self.pnl_realized = nr;
                    if quantity < absq {
                        self.quantity = nq;
                    } else if quantity == absq {
                        self.quantity = 0;
                        self.avg_cost = 0;
                    } else {
                        self.quantity = nq;
                        self.avg_cost = fill_price;
                    }
                },
            }
        }
        self.last_price = fill_price;
        self.update_unrealized_pnl();
        Ok(())
    }
}

/// Some record in `s` carries `symbol`.
pub open spec fn has_symbol(s: Seq<Position>, symbol: Seq<char>) -> bool {
    exists|i: int| 0 <= i < s.len() && s[i].symbol@ == symbol
}

/// The index of the record carrying `symbol`; meaningful only when
/// [`has_symbol`] holds and the symbols in `s` are distinct.
pub open spec fn index_of(s: Seq<Position>, symbol: Seq<char>) -> int {
    choose|i: int| 0 <= i < s.len() && s[i].symbol@ == symbol
}

/// The (quantity, avg cost, realized profit-and-loss) a fill starts
/// from: the existing record's fields, or all zero for a symbol not yet
/// held.
pub open spec fn spec_base(s: Seq<Position>, symbol: Seq<char>) -> (int, int, int) {
    if has_symbol(s, symbol) {
        let p = s[index_of(s, symbol)];
        (p.quantity as int, p.avg_cost as int, p.pnl_realized as int)
    } else {
        (0, 0, 0)
    }
}

/// With distinct symbols, a record carrying `symbol` at `k` pins
/// [`index_of`] to `k`.
pub proof fn lemma_index_of_unique(s: Seq<Position>, symbol: Seq<char>, k: int)
    requires
        forall|i: int, j: int|
            0 <= i < j < s.len() ==> (#[trigger] s[i].symbol@) != (#[trigger] s[j].symbol@),
        0 <= k < s.len(),
        s[k].symbol@ == symbol,
    ensures
        has_symbol(s, symbol),
        index_of(s, symbol) == k,
{
    assert(has_symbol(s, symbol));
    let c = index_of(s, symbol);
    if c < k {
        assert(s[c].symbol@ != s[k].symbol@);
    } else if c > k {
        assert(s[k].symbol@ != s[c].symbol@);
    }
}

/// The concurrency-safe association from symbol to position record. The
/// mutual exclusion that guards it in a running system sits outside the
/// library; every operation here is a single read-modify-write step.
pub struct PositionManager {
    positions: Vec<Position>,
}

impl PositionManager {
    /// The records, in insertion order.
    pub closed spec fn view(self) -> Seq<Position> {
        self.positions@
    }

    /// The manager's invariant: one record per symbol, each record
    /// well-formed.
    pub open spec fn wf(self) -> bool {
        &&& forall|i: int, j: int|
            0 <= i < j < self@.len() ==> (#[trigger] self@[i].symbol@) != (
            #[trigger] self@[j].symbol@)
        &&& forall|i: int| 0 <= i < self@.len() ==> (#[trigger] self@[i]).wf()
    }

    /// An empty ledger: no symbol held yet.
    pub fn new() -> (r: PositionManager)
        ensures
            r@ == Seq::<Position>::empty(),
            r.wf(),
    {
        PositionManager { positions: Vec::new() }
    }

    /// The index of `symbol`'s record, if one exists.
    fn find_index(&self, symbol: &String) -> (r: Option<usize>)
        ensures
            match r {
                Some(k) => k < self@.len() && self@[k as int].symbol@ == symbol@,
                None => !has_symbol(self@, symbol@),
            },
    {
        let n = self.positions.len();
        let mut i: usize = 0;
        while i < n
            invariant
                0 <= i <= n == self@.len(),
                forall|j: int| 0 <= j < i ==> (#[trigger] self@[j].symbol@) != symbol@,
            decreases n - i,
        {
            if self.positions[i].symbol == *symbol {
                return Some(i);
            }
            i = i + 1;
        }
        None
    }

    /// Looks up or lazily creates `symbol`'s position and applies one
    /// fill to it. On success the returned snapshot is exactly the
    /// record the model prescribes from the previous base; on failure
    /// nothing changes.
    pub fn update_position(&mut self, symbol: String, side: Side, quantity: i64, fill_price: i64)
        -> (r: Result<Position, FillError>)
        requires
            old(self).wf(),
            symbol@.len() > 0,
            0 < quantity <= QTY_LIMIT,
            0 <= fill_price <= PRICE_LIMIT,
        ensures
            final(self).wf(),
            ({
                let (q0, avg0, real0) = spec_base(old(self)@, symbol@);
                let nq = next_quantity(q0, side, quantity as int);
                let gain = realized_gain(q0, avg0, side, quantity as int, fill_price as int);
                let nr = real0 + gain;
                match r {
                    Ok(p) => {
                        &&& -POSITION_LIMIT <= nq <= POSITION_LIMIT
                        &&& i128::MIN <= nr <= i128::MAX
                        &&& p.wf()
                        &&& p.symbol@ == symbol@
                        &&& p.quantity == nq
                        &&& p.avg_cost == next_avg_cost(
                            q0,
                            avg0,
                            side,
                            quantity as int,
                            fill_price as int,
                        )
                        &&& p.last_price == fill_price
                        &&& p.pnl_realized == nr
                        &&& p.pnl_unrealized == unrealized_for(
                            nq,
                            next_avg_cost(q0, avg0, side, quantity as int, fill_price as int),
                            fill_price as int,
                        )
                        &&& if has_symbol(old(self)@, symbol@) {
                            final(self)@ == old(self)@.update(index_of(old(self)@, symbol@), p)
                        } else {
                            final(self)@ == old(self)@.push(p)
                        }
                    },
                    Err(e) => {
                        &&& final(self)@ == old(self)@
                        &&& if !(-POSITION_LIMIT <= nq <= POSITION_LIMIT) {
                            e == FillError::PositionLimitExceeded
                        } else {
                            !(i128::MIN <= nr <= i128::MAX) && e == FillError::PnlOverflow
                        }
                    },
                }
            }),
    {
        match self.find_index(&symbol) {
            Some(k) => {
                proof {
                    lemma_index_of_unique(self@, symbol@, k as int);
                }
                let res = self.positions[k].apply_fill(side, quantity, fill_price);
                match res {
                    Ok(_) => {
                        let p = self.positions[k].snapshot();
                        proof {
                            assert(final(self)@ =~= old(self)@.update(k as int, p));
                        }
                        Ok(p)
                    },
                    Err(e) => {
                        proof {
                            assert(final(self)@ =~= old(self)@);
                        }
                        Err(e)
                    },
                }
            },
            None => {
                let mut fresh = Position::new(symbol);
                let res = fresh.apply_fill(side, quantity, fill_price);
                match res {
                    Ok(_) => {
                        let p = fresh.snapshot();
                        self.positions.push(fresh);
                        Ok(p)
                    },
                    Err(e) => {
                        // a first fill on a flat position always fits:
                        // its quantity is within the position limit and
                        // it realizes nothing
                        proof {
                            assert(false);
                        }
                        Err(e)
                    },
                }
            },
        }
    }

    /// Notes a raw market price for `symbol`, independently of order
    /// flow: the record, if one exists, is remarked against the new
    /// price; a symbol not yet held is left alone.
    pub fn observe_market_price(&mut self, symbol: &String, price: i64)
        requires
            old(self).wf(),
            0 <= price <= PRICE_LIMIT,
        ensures
            final(self).wf(),
            if has_symbol(old(self)@, symbol@) {
                ({
                    let k = index_of(old(self)@, symbol@);
                    let p0 = old(self)@[k];
                    let p1 = final(self)@[k];
                    &&& final(self)@ == old(self)@.update(k, p1)
                    &&& p1 == (Position { last_price: price, pnl_unrealized: p1.pnl_unrealized, ..p0 })
                    &&& p1.pnl_unrealized == unrealized_for(
                        p0.quantity as int,
                        p0.avg_cost as int,
                        price as int,
                    )
                })
            } else {
                final(self)@ == old(self)@
            },
    {
        match self.find_index(symbol) {
            Some(k) => {
                proof {
                    lemma_index_of_unique(self@, symbol@, k as int);
                }
                self.positions[k].observe_price(price);
                proof {
                    assert(final(self)@ =~= old(self)@.update(
                        k as int,
                        final(self)@[k as int],
                    ));
                }
            },
            None => {
                proof {
                    assert(final(self)@ =~= old(self)@);
                }
            },
        }
    }

    /// A read-only snapshot of `symbol`'s position, if one exists.
    pub fn get_position(&self, symbol: &String) -> (r: Option<Position>)
        requires
            self.wf(),
        ensures
            match r {
                Some(p) => has_symbol(self@, symbol@) && p == self@[index_of(self@, symbol@)],
                None => !has_symbol(self@, symbol@),
            },
    {
        match self.find_index(symbol) {
            Some(k) => {
                proof {
                    lemma_index_of_unique(self@, symbol@, k as int);
                }
                Some(self.positions[k].snapshot())
            },
            None => None,
        }
    }

    /// Read-only snapshots of every position, in insertion order.
    pub fn get_all_positions(&self) -> (r: Vec<Position>)
        ensures
            r@ == self@,
    {
        let n = self.positions.len();
        let mut out: Vec<Position> = Vec::new();
        let mut i: usize = 0;
        while i < n
            invariant
                0 <= i <= n == self@.len(),
                out@ == self@.subrange(0, i as int),
            decreases n - i,
        {
            out.push(self.positions[i].snapshot());
            proof {
                assert(out@ =~= self@.subrange(0, i + 1));
            }
            i = i + 1;
        }
        proof {
            assert(out@ =~= self@);
        }
        out
    }
}

/// A product of a price-sized and a position-sized factor stays far
/// inside the `i128` range.
proof fn lemma_product_in_range(a: int, b: int)
    requires
        -2 * PRICE_LIMIT <= a <= 2 * PRICE_LIMIT,
        -POSITION_LIMIT <= b <= POSITION_LIMIT,
    ensures
        i128::MIN <= a * b <= i128::MAX,
{
    assert(a * b <= 2 * PRICE_LIMIT * POSITION_LIMIT && a * b >= -(2 * PRICE_LIMIT
        * POSITION_LIMIT)) by (nonlinear_arith)
        requires
            -2 * PRICE_LIMIT <= a <= 2 * PRICE_LIMIT,
            -POSITION_LIMIT <= b <= POSITION_LIMIT,
    ;
}

/// A product of non-negative factors below the given caps stays below
/// the caps' product.
proof fn lemma_mul_nonneg_bound(a: int, cap: int, b: int)
    requires
        0 <= a,
        0 <= b <= cap,
    ensures
        0 <= a * b <= a * cap,
{
    assert(0 <= a * b <= a * cap) by (nonlinear_arith)
        requires
            0 <= a,
            0 <= b <= cap,
    ;
}

/// A quantity-weighted blend of two values within `[0, cap]` stays
/// within `[0, cap]`.
proof fn lemma_weighted_avg_bounded(a: int, x: int, f: int, y: int, cap: int)
    requires
        0 <= a,
        0 < f,
        0 <= x <= cap,
        0 <= y <= cap,
    ensures
        0 <= (a * x + f * y) / (a + f) <= cap,
{
    let num = a * x + f * y;
    let den = a + f;
    assert(0 <= a * x && a * x <= a * cap) by (nonlinear_arith)
        requires
            0 <= a,
            0 <= x <= cap,
    ;
    assert(0 <= f * y && f * y <= f * cap) by (nonlinear_arith)
        requires
            0 < f,
            0 <= y <= cap,
    ;
    assert((a + f) * cap == a * cap + f * cap) by (nonlinear_arith);
    assert(0 <= num && num <= den * cap);
    lemma_div_pos_is_pos(num, den);
    lemma_div_is_ordered(num, den * cap, den);
    lemma_div_multiples_vanish(cap, den);
}

} // verus!
