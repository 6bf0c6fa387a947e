use vstd::prelude::*;
use crate::balances::Balances;
use crate::config::ContractSpec;
use crate::currency::{notional, notional_of, scale_by, scaled_by, lemma_notional_bounds, AMOUNT_MAX, SCALE};
use crate::market_state::MarketState;
use crate::order_margin::{order_margin, order_margin_of, ORDERS_BOUND};
use crate::active_orders::orders_wf;
use crate::position::{Position, NOTIONAL_LIMIT};
use crate::types::{Error, PendingLimitOrder, Side};

verus! {

/// Whether the position's margin plus its unrealized profit falls below the maintenance
/// margin. A long position is marked at the bid and a short one at the ask.
pub open spec fn maintenance_breached(pos: Position, ms: MarketState, position_margin: int, mmr: int) -> bool {
    match pos {
        Position::Neutral => false,
        Position::Long(p) => {
            let value = notional_of(p.quantity as int, ms.bid as int);
            position_margin + value - notional_of(p.quantity as int, p.entry_price as int) < scaled_by(value, mmr)
        },
        Position::Short(p) => {
            let value = notional_of(p.quantity as int, ms.ask as int);
            position_margin + notional_of(p.quantity as int, p.entry_price as int) - value < scaled_by(value, mmr)
        },
    }
}

/// Fee that a taker pays on `q` at `price`.
pub open spec fn taker_fee_of(cs: ContractSpec, q: int, price: int) -> int {
    scaled_by(notional_of(q, price), cs.fee_taker as int)
}

/// Whether the account can pay for a market order of `q` on `side` filled at `price`:
/// what stays available after the fee, the realized profit or loss and the new margins is not negative.
pub open spec fn market_order_affordable(
    b: Balances,
    pos: Position,
    resting: Seq<PendingLimitOrder>,
    cs: ContractSpec,
    q: int,
    price: int,
    side: Side,
) -> bool {
    let next = pos.after_fill(q, price, side);
    let imr = cs.init_margin_req as int;
    b.available + b.position_margin + b.order_margin + pos.pnl_of_fill(q, price, side) - taker_fee_of(cs, q, price)
        - next.margin_spec(imr) - order_margin_of(resting, next, imr) >= 0
}

/// Whether the available balance covers the order margin that `order` adds to the resting orders.
pub open spec fn limit_order_affordable(b: Balances, pos: Position, resting: Seq<PendingLimitOrder>, order: PendingLimitOrder, imr: int) -> bool {
    order_margin_of(resting.push(order), pos, imr) - b.order_margin <= b.available
}

/// Liquidation is due when the maintenance margin is breached.
pub fn check_maintenance_margin(ms: &MarketState, pos: &Position, position_margin: i128, mmr: i64) -> (r: Result<(), Error>)
    requires
        ms.wf(),
        pos.wf(),
        0 <= position_margin <= NOTIONAL_LIMIT,
        0 <= mmr <= SCALE,
    ensures
        r is Err <==> maintenance_breached(*pos, *ms, position_margin as int, mmr as int),
        r is Err ==> r == Err::<(), Error>(Error::Liquidation),
{
    match pos {
        Position::Neutral => Ok(()),
        Position::Long(p) => {
            let value = notional(p.quantity, ms.bid);
            let cost = notional(p.quantity, p.entry_price);
            if position_margin + value - cost < scale_by(value, mmr) {
                Err(Error::Liquidation)
            } else {
                Ok(())
            }
        },
        Position::Short(p) => {
            let value = notional(p.quantity, ms.ask);
            let cost = notional(p.quantity, p.entry_price);
            if position_margin + cost - value < scale_by(value, mmr) {
                Err(Error::Liquidation)
            } else {
                Ok(())
            }
        },
    }
}

/// Refuse a market order that the account cannot pay for.
pub fn check_market_order(
    b: &Balances,
    pos: &Position,
    resting: &Vec<PendingLimitOrder>,
    cs: &ContractSpec,
    q: i64,
    price: i64,
    side: Side,
) -> (r: Result<(), Error>)
    requires
        b.wf(),
        pos.wf(),
        cs.wf(),
        orders_wf(resting@),
        resting@.len() <= ORDERS_BOUND,
        0 < q <= AMOUNT_MAX,
        0 < price <= AMOUNT_MAX,
        pos.fill_fits(q as int, side),
    ensures
        r is Ok <==> market_order_affordable(*b, *pos, resting@, *cs, q as int, price as int, side),
        r is Err ==> r == Err::<(), Error>(Error::NotEnoughAvailableBalance),
{
    let (next, pnl) = pos.preview_fill(q, price, side);
    let imr = cs.init_margin_req;
    let fee = scale_by(notional(q, price), cs.fee_taker);
    let pm = next.margin(imr);
    let om = order_margin(resting, &next, imr);
    proof {
        lemma_notional_bounds(q as int, price as int);
    }
    if b.available + b.position_margin + b.order_margin + pnl - fee - pm - om >= 0 {
        Ok(())
    } else {
        Err(Error::NotEnoughAvailableBalance)
    }
}

/// Refuse a limit order whose added order margin the available balance does not cover.
/// Otherwise returns the order margin that the resting orders and `order` require together.
pub fn check_limit_order(b: &Balances, pos: &Position, with_order: &Vec<PendingLimitOrder>, imr: i64) -> (r: Result<i128, Error>)
    requires
        b.wf(),
        pos.wf(),
        0 <= imr <= SCALE,
        orders_wf(with_order@),
        with_order@.len() <= ORDERS_BOUND,
    ensures
        r is Ok <==> order_margin_of(with_order@, *pos, imr as int) - b.order_margin <= b.available,
        r matches Ok(m) ==> m == order_margin_of(with_order@, *pos, imr as int),
        r is Err ==> r == Err::<i128, Error>(Error::NotEnoughAvailableBalance),
{
    let m = order_margin(with_order, pos, imr);
    if m - b.order_margin <= b.available {
        Ok(m)
    } else {
        Err(Error::NotEnoughAvailableBalance)
    }
}

} // verus!
