use vstd::prelude::*;
use crate::balances::{Balances, BALANCE_LIMIT};
use crate::currency::{
    notional, notional_of, scale_by, scaled_by, lemma_notional_bounds, lemma_scaled_bounds,
    AMOUNT_MAX, POSITION_MAX, SCALE,
};
use crate::types::Side;

verus! {

/// Quantity and average entry price of an open position.
#[derive(Debug, Clone, Copy, PartialEq, Eq, Structural)]
pub struct PositionInner {
    pub quantity: i64,
    pub entry_price: i64,
}

/// The account's position in the contract.
#[derive(Debug, Clone, Copy, PartialEq, Eq, Structural)]
pub enum Position {
    Neutral,
    Long(PositionInner),
    Short(PositionInner),
}

/// An upper bound on any notional value or margin that a position in range can have.
pub const NOTIONAL_LIMIT: i128 = 0x1_0000_0000_0000_0000_0000;

/// Quantity-weighted average of two entry prices.
pub open spec fn avg_entry(q1: int, e1: int, q2: int, e2: int) -> int {
    (q1 * e1 + q2 * e2) / (q1 + q2)
}

/// Quantity-weighted average of two entry prices.
fn average_entry(q1: i64, e1: i64, q2: i64, e2: i64) -> (r: i64)
    requires
        0 < q1 <= POSITION_MAX,
        0 < q2 <= POSITION_MAX,
        0 < e1 <= AMOUNT_MAX,
        0 < e2 <= AMOUNT_MAX,
        q1 + q2 <= POSITION_MAX,
    ensures
        r == avg_entry(q1 as int, e1 as int, q2 as int, e2 as int),
{
    proof {
        assert(q1 * e1 <= POSITION_MAX * AMOUNT_MAX) by (nonlinear_arith)
            requires
                0 < q1 <= POSITION_MAX,
                0 < e1 <= AMOUNT_MAX,
        ;
        assert(q2 * e2 <= POSITION_MAX * AMOUNT_MAX) by (nonlinear_arith)
            requires
                0 < q2 <= POSITION_MAX,
                0 < e2 <= AMOUNT_MAX,
        ;
        assert(q1 * e1 + q2 * e2 <= (q1 + q2) * AMOUNT_MAX) by (nonlinear_arith)
            requires
                0 < q1,
                0 < q2,
                0 < e1 <= AMOUNT_MAX,
                0 < e2 <= AMOUNT_MAX,
        ;
        assert((q1 + q2) * AMOUNT_MAX <= POSITION_MAX * AMOUNT_MAX) by (nonlinear_arith)
            requires
                0 < q1 + q2 <= POSITION_MAX,
        ;
        vstd::arithmetic::div_mod::lemma_div_is_ordered(q1 * e1 + q2 * e2, (q1 + q2) * AMOUNT_MAX, q1 + q2);
        vstd::arithmetic::div_mod::lemma_div_by_multiple(AMOUNT_MAX as int, q1 + q2);
        assert((q1 + q2) * AMOUNT_MAX == AMOUNT_MAX * (q1 + q2)) by (nonlinear_arith);
    }
    let a: u128 = q1 as u128 * e1 as u128;
    let b: u128 = q2 as u128 * e2 as u128;
    ((a + b) / (q1 as u128 + q2 as u128)) as i64
}

impl Position {
    pub open spec fn wf(self) -> bool {
        match self {
            Position::Neutral => true,
            Position::Long(p) | Position::Short(p) => 0 < p.quantity <= POSITION_MAX && 0
                < p.entry_price <= AMOUNT_MAX,
        }
    }

    pub open spec fn long_qty(self) -> int {
        match self {
            Position::Long(p) => p.quantity as int,
            _ => 0,
        }
    }

    pub open spec fn short_qty(self) -> int {
        match self {
            Position::Short(p) => p.quantity as int,
            _ => 0,
        }
    }

    pub open spec fn qty(self) -> int {
        self.long_qty() + self.short_qty()
    }

    /// Margin that the position locks at the initial margin requirement `imr`.
    pub open spec fn margin_spec(self, imr: int) -> int {
        match self {
            Position::Neutral => 0,
            Position::Long(p) | Position::Short(p) => scaled_by(
                notional_of(p.quantity as int, p.entry_price as int),
                imr,
            ),
        }
    }

    /// The position after a fill of `q` at `price` on `side`.
    pub open spec fn after_fill(self, q: int, price: int, side: Side) -> Position {
        match (self, side) {
            (Position::Neutral, Side::Buy) => Position::Long(PositionInner { quantity: q as i64, entry_price: price as i64 }),
            (Position::Neutral, Side::Sell) => Position::Short(PositionInner { quantity: q as i64, entry_price: price as i64 }),
            (Position::Long(p), Side::Buy) => Position::Long(
                PositionInner {
                    quantity: (p.quantity + q) as i64,
                    entry_price: avg_entry(p.quantity as int, p.entry_price as int, q, price) as i64,
                },
            ),
            (Position::Short(p), Side::Sell) => Position::Short(
                PositionInner {
                    quantity: (p.quantity + q) as i64,
                    entry_price: avg_entry(p.quantity as int, p.entry_price as int, q, price) as i64,
                },
            ),
            (Position::Long(p), Side::Sell) => if q < p.quantity {
                Position::Long(PositionInner { quantity: (p.quantity - q) as i64, ..p })
            } else if q == p.quantity {
                Position::Neutral
            } else {
                Position::Short(PositionInner { quantity: (q - p.quantity) as i64, entry_price: price as i64 })
            },
            (Position::Short(p), Side::Buy) => if q < p.quantity {
                Position::Short(PositionInner { quantity: (p.quantity - q) as i64, ..p })
            } else if q == p.quantity {
                Position::Neutral
            } else {
                Position::Long(PositionInner { quantity: (q - p.quantity) as i64, entry_price: price as i64 })
            },
        }
    }

    /// Profit or loss that a fill of `q` at `price` on `side` realizes: on the part that
    /// closes the position, the difference between the fill's and the entry's notional value.
    pub open spec fn pnl_of_fill(self, q: int, price: int, side: Side) -> int {
        match (self, side) {
            (Position::Long(p), Side::Sell) => {
                let c = if q < p.quantity { q } else { p.quantity as int };
                notional_of(c, price) - notional_of(c, p.entry_price as int)
            },
            (Position::Short(p), Side::Buy) => {
                let c = if q < p.quantity { q } else { p.quantity as int };
                notional_of(c, p.entry_price as int) - notional_of(c, price)
            },
            _ => 0,
        }
    }

    /// Whether a fill of `q` keeps the position's quantity within range.
    pub open spec fn fill_fits(self, q: int, side: Side) -> bool {
        match (self, side) {
            (Position::Long(p), Side::Buy) | (Position::Short(p), Side::Sell) => p.quantity + q <= POSITION_MAX,
            _ => true,
        }
    }

    pub proof fn lemma_margin_bounds(self, imr: int)
        requires
            self.wf(),
            0 <= imr <= SCALE,
        ensures
            0 <= self.margin_spec(imr) <= NOTIONAL_LIMIT,
    {
        match self {
            Position::Neutral => {},
            Position::Long(p) | Position::Short(p) => {
                lemma_notional_bounds(p.quantity as int, p.entry_price as int);
                lemma_scaled_bounds(notional_of(p.quantity as int, p.entry_price as int), imr);
            },
        }
    }

    pub proof fn lemma_after_fill(self, q: int, price: int, side: Side)
        requires
            self.wf(),
            0 < q <= POSITION_MAX,
            0 < price <= AMOUNT_MAX,
            self.fill_fits(q, side),
        ensures
            self.after_fill(q, price, side).wf(),
            -NOTIONAL_LIMIT <= self.pnl_of_fill(q, price, side) <= NOTIONAL_LIMIT,
            self.after_fill(q, price, side).qty() <= self.qty() + q,
    {
        match self {
            Position::Long(p) | Position::Short(p) => {
                let c = if q < p.quantity { q } else { p.quantity as int };
                lemma_notional_bounds(c, price);
                lemma_notional_bounds(c, p.entry_price as int);
                let q1 = p.quantity as int;
                let e1 = p.entry_price as int;
                assert(q1 + q <= q1 * e1 + q * price <= (q1 + q) * AMOUNT_MAX) by (nonlinear_arith)
                    requires
                        0 < q1,
                        0 < q,
                        0 < e1 <= AMOUNT_MAX,
                        0 < price <= AMOUNT_MAX,
                ;
                vstd::arithmetic::div_mod::lemma_div_is_ordered(q1 + q, q1 * e1 + q * price, q1 + q);
                vstd::arithmetic::div_mod::lemma_div_is_ordered(q1 * e1 + q * price, (q1 + q) * AMOUNT_MAX, q1 + q);
                vstd::arithmetic::div_mod::lemma_div_by_multiple(AMOUNT_MAX as int, q1 + q);
                vstd::arithmetic::div_mod::lemma_div_by_multiple(1, q1 + q);
                assert((q1 + q) * AMOUNT_MAX == AMOUNT_MAX * (q1 + q)) by (nonlinear_arith);
            },
            Position::Neutral => {},
        }
    }

    /// The margin that the position locks at the initial margin requirement `imr`.
    pub fn margin(&self, imr: i64) -> (r: i128)
        requires
            self.wf(),
            0 <= imr <= SCALE,
        ensures
            r == self.margin_spec(imr as int),
            0 <= r <= NOTIONAL_LIMIT,
    {
        proof {
            self.lemma_margin_bounds(imr as int);
        }
        match self {
            Position::Neutral => 0,
            Position::Long(p) | Position::Short(p) => scale_by(notional(p.quantity, p.entry_price), imr),
        }
    }

    /// The position and the realized profit or loss after a fill, without changing anything.
    pub fn preview_fill(&self, q: i64, price: i64, side: Side) -> (r: (Position, i128))
        requires
            self.wf(),
            0 < q <= POSITION_MAX,
            0 < price <= AMOUNT_MAX,
            self.fill_fits(q as int, side),
        ensures
            r.0 == self.after_fill(q as int, price as int, side),
            r.1 == self.pnl_of_fill(q as int, price as int, side),
            r.0.wf(),
            -NOTIONAL_LIMIT <= r.1 <= NOTIONAL_LIMIT,
    {
        proof {
            self.lemma_after_fill(q as int, price as int, side);
        }
        match (*self, side) {
            (Position::Neutral, Side::Buy) => (Position::Long(PositionInner { quantity: q, entry_price: price }), 0),
            (Position::Neutral, Side::Sell) => (Position::Short(PositionInner { quantity: q, entry_price: price }), 0),
            (Position::Long(p), Side::Buy) => {
                let e = average_entry(p.quantity, p.entry_price, q, price);
                (Position::Long(PositionInner { quantity: p.quantity + q, entry_price: e }), 0)
            },
            (Position::Short(p), Side::Sell) => {
                let e = average_entry(p.quantity, p.entry_price, q, price);
                (Position::Short(PositionInner { quantity: p.quantity + q, entry_price: e }), 0)
            },
            (Position::Long(p), Side::Sell) => {
                let c = if q < p.quantity { q } else { p.quantity };
                let pnl = notional(c, price) - notional(c, p.entry_price);
                if q < p.quantity {
                    (Position::Long(PositionInner { quantity: p.quantity - q, ..p }), pnl)
                } else if q == p.quantity {
                    (Position::Neutral, pnl)
                } else {
                    (Position::Short(PositionInner { quantity: q - p.quantity, entry_price: price }), pnl)
                }
            },
            (Position::Short(p), Side::Buy) => {
                let c = if q < p.quantity { q } else { p.quantity };
                let pnl = notional(c, p.entry_price) - notional(c, price);
                if q < p.quantity {
                    (Position::Short(PositionInner { quantity: p.quantity - q, ..p }), pnl)
                } else if q == p.quantity {
                    (Position::Neutral, pnl)
                } else {
                    (Position::Long(PositionInner { quantity: q - p.quantity, entry_price: price }), pnl)
                }
            },
        }
    }

    /// Apply a fill of `q` at `price` on `side`: the position margin is released, the
    /// realized profit or loss is booked, and the margin of the new position is locked.
    pub fn change(&mut self, q: i64, price: i64, side: Side, balances: &mut Balances, imr: i64)
        requires
            old(self).wf(),
            old(balances).wf(),
            old(balances).within(BALANCE_LIMIT - 4 * NOTIONAL_LIMIT),
            0 < q <= POSITION_MAX,
            0 < price <= AMOUNT_MAX,
            0 <= imr <= SCALE,
            old(self).fill_fits(q as int, side),
            old(balances).position_margin == old(self).margin_spec(imr as int),
        ensures
            *final(self) == old(self).after_fill(q as int, price as int, side),
            final(self).wf(),
            final(balances).wf(),
            final(balances).close_to(*old(balances), 3 * NOTIONAL_LIMIT),
            final(self).qty() <= old(self).qty() + q,
            final(balances).position_margin == final(self).margin_spec(imr as int),
            final(balances).available == old(balances).available + old(balances).position_margin
                - final(self).margin_spec(imr as int) + old(self).pnl_of_fill(q as int, price as int, side),
            final(balances).realized_pnl == old(balances).realized_pnl + old(self).pnl_of_fill(q as int, price as int, side),
            final(balances).order_margin == old(balances).order_margin,
            final(balances).total_fees_paid == old(balances).total_fees_paid,
            final(balances).wallet_balance == old(balances).wallet_balance,
    {
        proof {
            old(self).lemma_margin_bounds(imr as int);
            old(self).lemma_after_fill(q as int, price as int, side);
        }
        let (next, pnl) = self.preview_fill(q, price, side);
        let m = next.margin(imr);
        balances.set_position_margin(m);
        balances.apply_realized_pnl(pnl);
        *self = next;
    }
}

} // verus!
