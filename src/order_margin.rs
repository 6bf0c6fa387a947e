use vstd::prelude::*;
use crate::active_orders::{ahead_or_same, order_wf, orders_wf};
use crate::config::OPEN_ORDERS_MAX;
use crate::currency::{
    notional, notional_of, scale_by, scaled_by, lemma_notional_bounds, lemma_scaled_bounds,
    AMOUNT_MAX, POSITION_MAX, SCALE,
};
use crate::position::Position;
use crate::types::{PendingLimitOrder, Side};

verus! {

/// Largest number of orders that an order margin is computed over: those resting and one more.
pub const ORDERS_BOUND: usize = OPEN_ORDERS_MAX + 1;

/// Largest notional value of one resting order's excess quantity.
pub const ORDER_NOTIONAL_MAX: i128 = 0x1_0000_0000_0000_0000;

/// Quantity of the orders in `s` on `o`'s side that are filled before `o`.
pub open spec fn qty_ahead(s: Seq<PendingLimitOrder>, o: PendingLimitOrder) -> int
    decreases s.len(),
{
    if s.len() == 0 {
        0
    } else {
        let l = s.last();
        qty_ahead(s.drop_last(), o) + if l.side == o.side && l.id != o.id && ahead_or_same(o.side, l, o) {
            l.remaining_quantity as int
        } else {
            0
        }
    }
}

/// Of an order's remaining quantity `rem`, the part that an offset of `offset` does not
/// cover, when `ahead` of the offset is taken by orders filled before it.
pub open spec fn excess_qty(rem: int, ahead: int, offset: int) -> int {
    if offset <= ahead {
        rem
    } else if offset - ahead >= rem {
        0
    } else {
        rem - (offset - ahead)
    }
}

/// Notional value of the excess quantity of the orders of `part` on `side`, where the
/// position offsets the `offset` most aggressive quantity among all resting orders `all`.
pub open spec fn excess_notional(all: Seq<PendingLimitOrder>, part: Seq<PendingLimitOrder>, side: Side, offset: int) -> int
    decreases part.len(),
{
    if part.len() == 0 {
        0
    } else {
        let o = part.last();
        excess_notional(all, part.drop_last(), side, offset) + if o.side == side {
            notional_of(excess_qty(o.remaining_quantity as int, qty_ahead(all, o), offset), o.limit_price as int)
        } else {
            0
        }
    }
}

/// Order margin that the resting orders `s` require beside `pos` at the initial margin
/// requirement `imr`. A long position offsets sells and a short one offsets buys, the most
/// aggressive first; only the side that needs more margin counts, as only one side can fill first.
pub open spec fn order_margin_of(s: Seq<PendingLimitOrder>, pos: Position, imr: int) -> int {
    let b = scaled_by(excess_notional(s, s, Side::Buy, pos.short_qty()), imr);
    let a = scaled_by(excess_notional(s, s, Side::Sell, pos.long_qty()), imr);
    if b >= a { b } else { a }
}

pub proof fn lemma_qty_ahead_bounds(s: Seq<PendingLimitOrder>, o: PendingLimitOrder)
    requires
        forall|i: int| 0 <= i < s.len() ==> order_wf(#[trigger] s[i]),
    ensures
        0 <= qty_ahead(s, o) <= s.len() * AMOUNT_MAX,
    decreases s.len(),
{
    if s.len() > 0 {
        let t = s.drop_last();
        assert forall|i: int| 0 <= i < t.len() implies order_wf(#[trigger] t[i]) by {
            assert(t[i] == s[i]);
        }
        assert(order_wf(s[s.len() - 1]));
        lemma_qty_ahead_bounds(t, o);
    }
}

pub proof fn lemma_excess_notional_bounds(all: Seq<PendingLimitOrder>, part: Seq<PendingLimitOrder>, side: Side, offset: int)
    requires
        forall|i: int| 0 <= i < part.len() ==> order_wf(#[trigger] part[i]),
        forall|i: int| 0 <= i < all.len() ==> order_wf(#[trigger] all[i]),
    ensures
        0 <= excess_notional(all, part, side, offset) <= part.len() * ORDER_NOTIONAL_MAX,
    decreases part.len(),
{
    if part.len() > 0 {
        let t = part.drop_last();
        assert forall|i: int| 0 <= i < t.len() implies order_wf(#[trigger] t[i]) by {
            assert(t[i] == part[i]);
        }
        let o = part.last();
        assert(order_wf(part[part.len() - 1]));
        lemma_qty_ahead_bounds(all, o);
        let e = excess_qty(o.remaining_quantity as int, qty_ahead(all, o), offset);
        lemma_notional_bounds(e, o.limit_price as int);
        assert(e * o.limit_price <= AMOUNT_MAX * AMOUNT_MAX) by (nonlinear_arith)
            requires
                0 <= e <= AMOUNT_MAX,
                0 <= o.limit_price <= AMOUNT_MAX,
        ;
        vstd::arithmetic::div_mod::lemma_div_is_ordered(e * o.limit_price, AMOUNT_MAX * AMOUNT_MAX, SCALE as int);
        lemma_excess_notional_bounds(all, t, side, offset);
    }
}

pub proof fn lemma_order_margin_bounds(s: Seq<PendingLimitOrder>, pos: Position, imr: int)
    requires
        orders_wf(s),
        s.len() <= ORDERS_BOUND,
        pos.wf(),
        0 <= imr <= SCALE,
    ensures
        0 <= order_margin_of(s, pos, imr) <= ORDERS_BOUND * ORDER_NOTIONAL_MAX,
{
    lemma_excess_notional_bounds(s, s, Side::Buy, pos.short_qty());
    lemma_excess_notional_bounds(s, s, Side::Sell, pos.long_qty());
    assert(s.len() * ORDER_NOTIONAL_MAX <= ORDERS_BOUND * ORDER_NOTIONAL_MAX) by (nonlinear_arith)
        requires
            s.len() <= ORDERS_BOUND,
    ;
    lemma_scaled_bounds(excess_notional(s, s, Side::Buy, pos.short_qty()), imr);
    lemma_scaled_bounds(excess_notional(s, s, Side::Sell, pos.long_qty()), imr);
}

/// With no resting order, no order margin is required.
pub proof fn lemma_no_orders_no_margin(pos: Position, imr: int)
    ensures
        order_margin_of(Seq::<PendingLimitOrder>::empty(), pos, imr) == 0,
{
    assert(0 * imr == 0) by (nonlinear_arith);
}

/// Quantity of the resting orders on `o`'s side that are filled before `o`.
fn quantity_ahead(orders: &Vec<PendingLimitOrder>, o: PendingLimitOrder) -> (r: i64)
    requires
        orders_wf(orders@),
        orders@.len() <= ORDERS_BOUND,
    ensures
        r == qty_ahead(orders@, o),
        0 <= r <= ORDERS_BOUND * AMOUNT_MAX,
{
    let n = orders.len();
    let mut acc: i64 = 0;
    let mut j: usize = 0;
    while j < n
        invariant
            orders_wf(orders@),
        orders@.len() <= ORDERS_BOUND,
            n == orders@.len(),
            j <= n,
            acc == qty_ahead(orders@.take(j as int), o),
            0 <= acc <= j * AMOUNT_MAX,
        decreases n - j,
    {
        let l = orders[j];
        proof {
            assert(orders@.take(j + 1).drop_last() =~= orders@.take(j as int));
            assert(orders@.take(j + 1).last() == l);
            assert(order_wf(orders@[j as int]));
        }
        let ahead = match o.side {
            Side::Buy => l.limit_price > o.limit_price || (l.limit_price == o.limit_price && l.id <= o.id),
            Side::Sell => l.limit_price < o.limit_price || (l.limit_price == o.limit_price && l.id <= o.id),
        };
        if l.side == o.side && l.id != o.id && ahead {
            acc = acc + l.remaining_quantity;
        }
        j += 1;
    }
    proof {
        assert(orders@.take(n as int) =~= orders@);
        assert(n * AMOUNT_MAX <= ORDERS_BOUND * AMOUNT_MAX) by (nonlinear_arith)
            requires
                n <= ORDERS_BOUND,
        ;
    }
    acc
}

/// Notional value of the excess quantity of the resting orders on `side`.
fn side_excess_notional(orders: &Vec<PendingLimitOrder>, side: Side, offset: i64) -> (r: i128)
    requires
        orders_wf(orders@),
        orders@.len() <= ORDERS_BOUND,
        0 <= offset <= POSITION_MAX,
    ensures
        r == excess_notional(orders@, orders@, side, offset as int),
        0 <= r <= ORDERS_BOUND * ORDER_NOTIONAL_MAX,
{
    let n = orders.len();
    let mut acc: i128 = 0;
    let mut i: usize = 0;
    while i < n
        invariant
            orders_wf(orders@),
        orders@.len() <= ORDERS_BOUND,
            n == orders@.len(),
            0 <= offset <= POSITION_MAX,
            i <= n,
            acc == excess_notional(orders@, orders@.take(i as int), side, offset as int),
            0 <= acc <= i * ORDER_NOTIONAL_MAX,
        decreases n - i,
    {
        let o = orders[i];
        let ghost part = orders@.take(i + 1);
        proof {
            assert(part.drop_last() =~= orders@.take(i as int));
            assert(part.last() == o);
            assert(order_wf(orders@[i as int]));
            assert forall|k: int| 0 <= k < part.len() implies order_wf(#[trigger] part[k]) by {
                assert(part[k] == orders@[k]);
            }
            lemma_excess_notional_bounds(orders@, part, side, offset as int);
            lemma_excess_notional_bounds(orders@, part.drop_last(), side, offset as int);
        }
        if o.side == side {
            let ahead = quantity_ahead(orders, o);
            let excess: i64 = if offset <= ahead {
                o.remaining_quantity
            } else if offset - ahead >= o.remaining_quantity {
                0
            } else {
                o.remaining_quantity - (offset - ahead)
            };
            acc = acc + notional(excess, o.limit_price);
        }
        i += 1;
    }
    proof {
        assert(orders@.take(n as int) =~= orders@);
        assert(n * ORDER_NOTIONAL_MAX <= ORDERS_BOUND * ORDER_NOTIONAL_MAX) by (nonlinear_arith)
            requires
                n <= ORDERS_BOUND,
        ;
    }
    acc
}

/// The order margin that the resting `orders` require beside `position`.
pub fn order_margin(orders: &Vec<PendingLimitOrder>, position: &Position, imr: i64) -> (r: i128)
    requires
        orders_wf(orders@),
        orders@.len() <= ORDERS_BOUND,
        position.wf(),
        0 <= imr <= SCALE,
    ensures
        r == order_margin_of(orders@, *position, imr as int),
        0 <= r <= ORDERS_BOUND * ORDER_NOTIONAL_MAX,
{
    let (long, short): (i64, i64) = match position {
        Position::Neutral => (0, 0),
        Position::Long(p) => (p.quantity, 0),
        Position::Short(p) => (0, p.quantity),
    };
    let b = scale_by(side_excess_notional(orders, Side::Buy, short), imr);
    let a = scale_by(side_excess_notional(orders, Side::Sell, long), imr);
    proof {
        lemma_order_margin_bounds(orders@, *position, imr as int);
    }
    if b >= a {
        b
    } else {
        a
    }
}

} // verus!
