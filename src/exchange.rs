use vstd::prelude::*;
use crate::active_orders::{ActiveLimitOrders, has_id, order_wf, orders_wf, has_side};
use crate::balances::{Balances, BALANCE_LIMIT};
use crate::config::Config;
use crate::currency::{notional, notional_of, scale_by, scaled_by, AMOUNT_MAX, POSITION_MAX};
use crate::market_state::MarketState;
use crate::market_update::{MarketUpdate, Trade, trade_fills};
use crate::order_margin::{order_margin, order_margin_of, lemma_order_margin_bounds};
use crate::position::{Position, NOTIONAL_LIMIT};
use crate::rate_limiter::OrderRateLimiter;
use crate::risk::{
    check_limit_order, check_maintenance_margin, check_market_order, maintenance_breached,
    market_order_affordable, taker_fee_of, limit_order_affordable,
};
use crate::types::{
    CancelBy, Error, FilledMarketOrder, LimitOrder, LimitOrderFill, MarketOrder, PendingLimitOrder,
    RePricing, Side,
};

verus! {

/// Balance magnitude below which every operation is sure to stay in range.
pub const BALANCE_HEADROOM: i128 = 0x10_0000_0000_0000_0000_0000_0000;

/// Position quantity below which every operation is sure to stay in range.
pub const POSITION_HEADROOM: i64 = 0x8_0000_0000_0000;

/// Largest change of any balance that one fill brings about.
pub const FILL_STEP: i128 = 0x8_0000_0000_0000_0000_0000;

/// Largest order margin that the resting orders can require.
pub const ORDER_MARGIN_MAX: i128 = 0x800_0000_0000_0000_0000;

/// The quote that a market order on `side` is filled at: the ask for a buy, the bid for a sell.
pub open spec fn fill_price_for(ms: MarketState, side: Side) -> i64 {
    match side {
        Side::Buy => ms.ask,
        Side::Sell => ms.bid,
    }
}

/// Whether a limit order would take liquidity: a buy at or above the ask, a sell at or below the bid.
pub open spec fn marketable(ms: MarketState, o: PendingLimitOrder) -> bool {
    match o.side {
        Side::Buy => o.limit_price >= ms.ask,
        Side::Sell => o.limit_price <= ms.bid,
    }
}

/// What submitting the limit order `order` to `e0` gives: the result `r` and the exchange `e1`.
/// The checks come in order: rate limit, quantity, price, margin, crossing, capacity.
pub open spec fn limit_submission(e0: Exchange, e1: Exchange, order: LimitOrder, r: Result<PendingLimitOrder, Error>) -> bool {
    let ts = e0.market().current_ts_ns;
    let cs = e0.config_spec().contract_spec;
    let pending = order.pending_with(e0.next_id(), ts);
    e1.bal().close_to(e0.bal(), FILL_STEP as int) && {
    let unchanged = e1.bal() == e0.bal() && e1.pos() == e0.pos() && e1.resting() == e0.resting()
        && e1.market() == e0.market() && e1.config_spec() == e0.config_spec();
    if !e0.limiter().admits(ts) {
        r == Err::<PendingLimitOrder, Error>(Error::RateLimitExceeded) && e1 == e0
    } else if cs.quantity_filter.quantities_verdict(order.remaining_quantity as int, order.total_quantity as int) is Err {
        &&& r == Err::<PendingLimitOrder, Error>(
            cs.quantity_filter.quantities_verdict(order.remaining_quantity as int, order.total_quantity as int)->Err_0,
        )
        &&& unchanged && e1.next_id() == e0.next_id()
    } else if cs.price_filter.limit_price_verdict(order.limit_price as int, e0.market().mid_spec()) is Err {
        &&& r == Err::<PendingLimitOrder, Error>(
            cs.price_filter.limit_price_verdict(order.limit_price as int, e0.market().mid_spec())->Err_0,
        )
        &&& unchanged && e1.next_id() == e0.next_id()
    } else if !limit_order_affordable(e0.bal(), e0.pos(), e0.resting(), pending, e0.imr()) {
        r == Err::<PendingLimitOrder, Error>(Error::NotEnoughAvailableBalance) && unchanged && e1.next_id() == e0.next_id() + 1
    } else if marketable(e0.market(), pending) {
        &&& r == Err::<PendingLimitOrder, Error>(
            Error::GoodTillCrossingRejected {
                limit_price: order.limit_price,
                away_market_quotation_price: match order.side {
                    Side::Buy => e0.market().ask,
                    Side::Sell => e0.market().bid,
                },
            },
        )
        &&& unchanged && e1.next_id() == e0.next_id() + 1
    } else if e0.resting().len() >= e0.config_spec().max_num_open_orders {
        r == Err::<PendingLimitOrder, Error>(Error::MaxActiveOrders) && unchanged && e1.next_id() == e0.next_id() + 1
    } else {
        &&& r == Ok::<PendingLimitOrder, Error>(pending)
        &&& e1.resting() == e0.resting().push(pending)
        &&& e1.next_id() == e0.next_id() + 1
        &&& e1.pos() == e0.pos()
        &&& e1.market() == e0.market()
        &&& e1.config_spec() == e0.config_spec()
        &&& e1.bal().available >= 0
        &&& e1.bal() == (Balances { available: e1.bal().available, order_margin: e1.bal().order_margin, ..e0.bal() })
    }
    }
}

/// What cancelling by `cancel_by` on `e0` gives: the result `r` and the exchange `e1`.
pub open spec fn cancellation(e0: Exchange, e1: Exchange, cancel_by: CancelBy, r: Result<PendingLimitOrder, Error>) -> bool {
    let ts = e0.market().current_ts_ns;
    let s = e0.resting();
    let unchanged = e1.bal() == e0.bal() && e1.pos() == e0.pos() && e1.resting() == e0.resting();
    let removed_at = |i: int|
        {
            &&& 0 <= i < s.len()
            &&& r == Ok::<PendingLimitOrder, Error>(s[i])
            &&& e1.resting() == s.remove(i)
            &&& !has_id(e1.resting(), s[i].id)
            &&& e1.pos() == e0.pos()
            &&& e1.bal() == (Balances { available: e1.bal().available, order_margin: e1.bal().order_margin, ..e0.bal() })
        };
    &&& e1.market() == e0.market()
    &&& e1.config_spec() == e0.config_spec()
    &&& e1.next_id() == e0.next_id()
    &&& e1.bal().close_to(e0.bal(), FILL_STEP as int)
    &&& if !e0.limiter().admits(ts) {
        r == Err::<PendingLimitOrder, Error>(Error::RateLimitExceeded) && e1 == e0
    } else {
        match cancel_by {
            CancelBy::OrderId(oid) => if !has_id(s, oid) {
                r == Err::<PendingLimitOrder, Error>(Error::OrderIdNotFound { order_id: oid }) && unchanged
            } else {
                &&& exists|i: int| 0 <= i < s.len() && s[i].id == oid && removed_at(i)
                &&& !has_id(e1.resting(), oid)
            },
            CancelBy::UserOrderId(uid) => if !(exists|j: int| 0 <= j < s.len() && #[trigger] s[j].user_order_id == uid) {
                r == Err::<PendingLimitOrder, Error>(Error::UserOrderIdNotFound { user_order_id: uid }) && unchanged
            } else {
                exists|i: int|
                    0 <= i < s.len() && s[i].user_order_id == uid && (forall|j: int| 0 <= j < i ==> (#[trigger] s[j]).user_order_id != uid)
                        && removed_at(i)
            },
        }
    }
}

/// Total quantity that the fill events report.
pub open spec fn filled_total(fills: Seq<LimitOrderFill>) -> int
    decreases fills.len(),
{
    if fills.len() == 0 {
        0
    } else {
        filled_total(fills.drop_last()) + match fills.last() {
            LimitOrderFill::PartiallyFilled { filled_quantity, .. } => filled_quantity as int,
            LimitOrderFill::FullyFilled { filled_quantity, .. } => filled_quantity as int,
        }
    }
}

/// Total fee that the fill events report.
pub open spec fn fees_total(fills: Seq<LimitOrderFill>) -> int
    decreases fills.len(),
{
    if fills.len() == 0 {
        0
    } else {
        fees_total(fills.drop_last()) + match fills.last() {
            LimitOrderFill::PartiallyFilled { fee, .. } => fee as int,
            LimitOrderFill::FullyFilled { fee, .. } => fee as int,
        }
    }
}

/// No order that a fill event reports as fully filled still rests in `s`.
pub open spec fn fully_filled_gone(fills: Seq<LimitOrderFill>, s: Seq<PendingLimitOrder>) -> bool {
    forall|k: int|
        0 <= k < fills.len() ==> match #[trigger] fills[k] {
            LimitOrderFill::FullyFilled { order_id, .. } => !has_id(s, order_id),
            _ => true,
        }
}

/// Every order that a fill event reports as fully filled had an id below `next_id`.
pub open spec fn fills_issued_before(fills: Seq<LimitOrderFill>, next_id: u64) -> bool {
    forall|k: int|
        0 <= k < fills.len() ==> match #[trigger] fills[k] {
            LimitOrderFill::FullyFilled { order_id, .. } => order_id < next_id,
            _ => true,
        }
}

/// The position after the fills, applied in order to `p`.
pub open spec fn position_after_fills(p: Position, fills: Seq<LimitOrderFill>) -> Position
    decreases fills.len(),
{
    if fills.len() == 0 {
        p
    } else {
        let l = fills.last();
        position_after_fills(p, fills.drop_last()).after_fill(l.quantity() as int, l.price() as int, l.side())
    }
}

/// Profit and loss that the fills, applied in order to `p`, realize.
pub open spec fn pnl_of_fills(p: Position, fills: Seq<LimitOrderFill>) -> int
    decreases fills.len(),
{
    if fills.len() == 0 {
        0
    } else {
        let l = fills.last();
        pnl_of_fills(p, fills.drop_last()) + position_after_fills(p, fills.drop_last()).pnl_of_fill(
            l.quantity() as int,
            l.price() as int,
            l.side(),
        )
    }
}

/// Every fill is of an order that rested in `s0`, on the side opposite the trade, at a limit
/// price that the trade strictly crosses.
pub open spec fn fills_crossed(t: Trade<i64>, fills: Seq<LimitOrderFill>, s0: Seq<PendingLimitOrder>) -> bool {
    forall|k: int|
        0 <= k < fills.len() ==> trade_fills(t.side, t.price as int, (#[trigger] fills[k]).side(), fills[k].price() as int)
            && has_id(s0, fills[k].order_id())
}

/// The orders on `side` are the same in `s0` and `s1`.
pub open spec fn side_untouched(side: Side, s0: Seq<PendingLimitOrder>, s1: Seq<PendingLimitOrder>) -> bool {
    &&& forall|j: int| 0 <= j < s0.len() && (#[trigger] s0[j]).side == side ==> s1.contains(s0[j])
    &&& forall|j: int| 0 <= j < s1.len() && (#[trigger] s1[j]).side == side ==> s0.contains(s1[j])
}

/// The fill `f` comes at least as early in price-time priority on `side` as the order `o`.
pub open spec fn fill_ahead_of(side: Side, f: LimitOrderFill, o: PendingLimitOrder) -> bool {
    match side {
        Side::Buy => f.price() > o.limit_price || (f.price() == o.limit_price && f.order_id() <= o.id),
        Side::Sell => f.price() < o.limit_price || (f.price() == o.limit_price && f.order_id() <= o.id),
    }
}

/// Each fill comes, in price-time priority, ahead of every order on `side` still resting in `s`,
/// and each fill comes ahead of the fills after it.
pub open spec fn fills_in_priority(side: Side, fills: Seq<LimitOrderFill>, s: Seq<PendingLimitOrder>) -> bool {
    &&& forall|k: int, j: int|
        0 <= k < fills.len() && 0 <= j < s.len() && s[j].side == side ==> fill_ahead_of(side, #[trigger] fills[k], #[trigger] s[j])
    &&& forall|k: int, l: int| 0 <= k < l < fills.len() ==> fill_precedes(side, #[trigger] fills[k], #[trigger] fills[l])
}

/// The fill `f` comes at least as early in price-time priority on `side` as the fill `g`.
pub open spec fn fill_precedes(side: Side, f: LimitOrderFill, g: LimitOrderFill) -> bool {
    match side {
        Side::Buy => f.price() > g.price() || (f.price() == g.price() && f.order_id() <= g.order_id()),
        Side::Sell => f.price() < g.price() || (f.price() == g.price() && f.order_id() <= g.order_id()),
    }
}

/// Every order of `s0` on `kept` is still in `cur`.
pub open spec fn keeps_side(s0: Seq<PendingLimitOrder>, cur: Seq<PendingLimitOrder>, kept: Side) -> bool {
    forall|j: int| 0 <= j < s0.len() && (#[trigger] s0[j]).side == kept ==> cur.contains(s0[j])
}

/// Each order in `cur` stands for an order of `s0` with the same id, side and price; those on
/// `kept` are unchanged.
pub open spec fn traces_back(cur: Seq<PendingLimitOrder>, s0: Seq<PendingLimitOrder>, kept: Side) -> bool {
    forall|j: int| 0 <= j < cur.len() ==> traced(#[trigger] cur[j], s0, kept)
}

pub open spec fn traced(o: PendingLimitOrder, s0: Seq<PendingLimitOrder>, kept: Side) -> bool {
    exists|m: int| 0 <= m < s0.len() && #[trigger] same_slot(o, s0[m], kept)
}

pub open spec fn same_slot(a: PendingLimitOrder, b: PendingLimitOrder, kept: Side) -> bool {
    &&& a.id == b.id
    &&& a.side == b.side
    &&& a.limit_price == b.limit_price
    &&& a.side == kept ==> a == b
}

/// One fill of the best order on `side` at position `i` keeps the resting orders traced back
/// to `s0`, those on the other side `kept` in place, and the fills in priority.
pub proof fn lemma_fill_step(
    s0: Seq<PendingLimitOrder>,
    cur: Seq<PendingLimitOrder>,
    nw: Seq<PendingLimitOrder>,
    i: int,
    q: i64,
    full: bool,
    side: Side,
    kept: Side,
    fills: Seq<LimitOrderFill>,
    ev: LimitOrderFill,
)
    requires
        crate::active_orders::is_best(cur, side, i),
        kept != side,
        nw == if full { cur.remove(i) } else { cur.update(i, cur[i].after_fill(q)) },
        ev.order_id() == cur[i].id,
        ev.price() == cur[i].limit_price,
        ev.side() == side,
        traces_back(cur, s0, kept),
        keeps_side(s0, cur, kept),
        fills_in_priority(side, fills, cur),
    ensures
        traces_back(nw, s0, kept),
        keeps_side(s0, nw, kept),
        fills_in_priority(side, fills.push(ev), nw),
        forall|x: u64| has_id(nw, x) ==> has_id(cur, x),
{
    let src = |j: int| if full && j >= i { j + 1 } else { j };
    assert forall|j: int| 0 <= j < nw.len() implies (nw[j].id == cur[src(j)].id && nw[j].side == cur[src(j)].side
        && nw[j].limit_price == cur[src(j)].limit_price && (nw[j].side == kept ==> nw[j] == cur[src(j)])
        && 0 <= src(j) < cur.len()) by {
    }
    assert forall|j: int| 0 <= j < nw.len() implies traced(#[trigger] nw[j], s0, kept) by {
        let c = src(j);
        assert(traced(cur[c], s0, kept));
        let m = choose|m: int| 0 <= m < s0.len() && #[trigger] same_slot(cur[c], s0[m], kept);
        assert(same_slot(nw[j], s0[m], kept));
    }
    assert forall|j: int| 0 <= j < s0.len() && (#[trigger] s0[j]).side == kept implies nw.contains(s0[j]) by {
        assert(cur.contains(s0[j]));
        let c = choose|c: int| 0 <= c < cur.len() && cur[c] == s0[j];
        assert(c != i);
        let d = if full && c > i { c - 1 } else { c };
        assert(nw[d] == s0[j]);
    }
    let f2 = fills.push(ev);
    assert forall|k: int, j: int|
        0 <= k < f2.len() && 0 <= j < nw.len() && nw[j].side == side implies fill_ahead_of(side, #[trigger] f2[k], #[trigger] nw[j]) by {
        let c = src(j);
        if k < fills.len() {
            assert(f2[k] == fills[k]);
            assert(fill_ahead_of(side, fills[k], cur[c]));
        } else {
            assert(crate::active_orders::ahead_or_same(side, cur[i], cur[c]));
        }
    }
    assert forall|k: int, l: int| 0 <= k < l < f2.len() implies fill_precedes(side, #[trigger] f2[k], #[trigger] f2[l]) by {
        assert(f2[k] == fills[k]);
        if l < fills.len() {
            assert(f2[l] == fills[l]);
        } else {
            assert(fill_ahead_of(side, fills[k], cur[i]));
        }
    }
    assert forall|x: u64| has_id(nw, x) implies has_id(cur, x) by {
        let j = choose|j: int| 0 <= j < nw.len() && #[trigger] nw[j].id == x;
        assert(cur[src(j)].id == x);
    }
}

pub proof fn lemma_side_untouched(s0: Seq<PendingLimitOrder>, cur: Seq<PendingLimitOrder>, kept: Side)
    requires
        traces_back(cur, s0, kept),
        keeps_side(s0, cur, kept),
    ensures
        side_untouched(kept, s0, cur),
{
    assert forall|j: int| 0 <= j < cur.len() && (#[trigger] cur[j]).side == kept implies s0.contains(cur[j]) by {
        assert(traced(cur[j], s0, kept));
        let m = choose|m: int| 0 <= m < s0.len() && #[trigger] same_slot(cur[j], s0[m], kept);
        assert(s0[m] == cur[j]);
    }
}

/// What the fills `fills` of a trade `t` did to the exchange, from `e0` to `e1`: each was of
/// an order on the other side that `t` strictly crosses, best price first and then oldest; the
/// orders on the trade's own side are untouched; the position and the realized profit and loss
/// follow from the fills in order; and either the trade was used up or no resting order is
/// crossed any more.
pub open spec fn trade_outcome(e0: Exchange, e1: Exchange, t: Trade<i64>, fills: Seq<LimitOrderFill>) -> bool {
    &&& fills_crossed(t, fills, e0.resting())
    &&& side_untouched(t.side, e0.resting(), e1.resting())
    &&& fills_in_priority(t.side.flipped(), fills, e1.resting())
    &&& e1.pos() == position_after_fills(e0.pos(), fills)
    &&& e1.bal().realized_pnl == e0.bal().realized_pnl + pnl_of_fills(e0.pos(), fills)
    &&& e1.bal().total_fees_paid == e0.bal().total_fees_paid + fees_total(fills)
    &&& (filled_total(fills) == t.quantity || forall|j: int|
        0 <= j < e1.resting().len() ==> !t.fills(#[trigger] e1.resting()[j]))
}

/// Maker fee on `q` at `price`.
pub open spec fn maker_fee_of(e: Exchange, q: int, price: int) -> int {
    scaled_by(notional_of(q, price), e.config_spec().contract_spec.fee_maker as int)
}

/// The side of the market order that closes `p`.
pub open spec fn closing_side(p: Position) -> Side {
    match p {
        Position::Long(_) => Side::Sell,
        _ => Side::Buy,
    }
}

/// What amending the resting order at position `i` of `e0` with `new_order` gives, once the
/// rate limiter has admitted the amend: the order is taken off the book and its margin
/// released; then, unless nothing would be left of it, the order with the adjusted remaining
/// quantity is submitted from that state.
pub open spec fn amended_after_removal(e0: Exchange, e1: Exchange, i: int, new_order: LimitOrder, r: Result<PendingLimitOrder, Error>) -> bool {
    let s = e0.resting();
    let leaves = s[i].remaining_quantity + new_order.total_quantity - s[i].total_quantity;
    if leaves <= 0 {
        r == Err::<PendingLimitOrder, Error>(Error::AmendQtyAlreadyFilled) && removal_state(e0, e1, i)
    } else {
        exists|mid: Exchange|
            #[trigger] removal_state(e0, mid, i) && limit_submission(
                mid,
                e1,
                LimitOrder { remaining_quantity: leaves as i64, ..new_order },
                r,
            )
    }
}

/// `mid` is `e0` once the rate limiter admitted an operation at the current time and the
/// resting order at position `i` was taken off the book with its margin released.
pub open spec fn removal_state(e0: Exchange, mid: Exchange, i: int) -> bool {
    let s = e0.resting();
    &&& mid.wf()
    &&& mid.resting() == s.remove(i)
    &&& !has_id(mid.resting(), s[i].id)
    &&& mid.pos() == e0.pos()
    &&& mid.next_id() == e0.next_id()
    &&& mid.market() == e0.market()
    &&& mid.config_spec() == e0.config_spec()
    &&& mid.limiter().recent() == e0.limiter().recent_after(e0.market().current_ts_ns)
    &&& mid.limiter().budget() == e0.limiter().budget()
    &&& mid.bal() == (Balances { available: mid.bal().available, order_margin: mid.bal().order_margin, ..e0.bal() })
    &&& mid.bal().close_to(e0.bal(), FILL_STEP as int)
}

/// A view of the account.
pub struct Account<'a> {
    pub active_limit_orders: &'a ActiveLimitOrders,
    pub position: &'a Position,
    pub balances: &'a Balances,
}

/// The simulated exchange: one account trading one contract.
pub struct Exchange {
    config: Config,
    market_state: MarketState,
    next_order_id: u64,
    balances: Balances,
    position: Position,
    active_limit_orders: ActiveLimitOrders,
    order_rate_limiter: OrderRateLimiter,
}

impl Exchange {
    pub closed spec fn config_spec(self) -> Config {
        self.config
    }

    pub closed spec fn market(self) -> MarketState {
        self.market_state
    }

    pub closed spec fn next_id(self) -> u64 {
        self.next_order_id
    }

    pub closed spec fn bal(self) -> Balances {
        self.balances
    }

    pub closed spec fn pos(self) -> Position {
        self.position
    }

    /// The resting limit orders, in order of arrival.
    pub closed spec fn resting(self) -> Seq<PendingLimitOrder> {
        self.active_limit_orders@
    }

    pub closed spec fn limiter(self) -> OrderRateLimiter {
        self.order_rate_limiter
    }

    pub open spec fn imr(self) -> int {
        self.config_spec().contract_spec.init_margin_req as int
    }

    /// Everything that holds between operations, except the order margin's agreement with
    /// the resting orders.
    pub closed spec fn core_wf(self) -> bool {
        &&& self.config.wf()
        &&& self.market_state.wf()
        &&& self.balances.wf()
        &&& self.position.wf()
        &&& self.active_limit_orders.wf()
        &&& self.active_limit_orders.cap() == self.config.max_num_open_orders
        &&& self.order_rate_limiter.wf()
        &&& self.order_rate_limiter.budget() == self.config.orders_per_second
        &&& forall|i: int| 0 <= i < self.active_limit_orders@.len() ==> (#[trigger] self.active_limit_orders@[i]).id < self.next_order_id
        &&& self.balances.position_margin == self.position.margin_spec(self.imr())
        &&& (self.position != Position::Neutral || self.active_limit_orders@.len() > 0) ==> self.market_state.has_quotes()
    }

    /// What holds between operations.
    pub open spec fn wf(self) -> bool {
        &&& self.core_wf()
        &&& self.bal().order_margin == order_margin_of(self.resting(), self.pos(), self.imr())
    }

    /// The account is far enough from the limits of its number types for one more operation.
    pub open spec fn headroom(self) -> bool {
        &&& self.bal().within(BALANCE_HEADROOM as int)
        &&& self.pos().qty() <= POSITION_HEADROOM
        &&& self.next_id() < u64::MAX
    }

    /// Whether the account is far enough from the limits of its number types for one more operation.
    pub fn has_headroom(&self) -> (r: bool)
        ensures
            r == self.headroom(),
    {
        let b = &self.balances;
        let q: i64 = match self.position {
            Position::Neutral => 0,
            Position::Long(p) | Position::Short(p) => p.quantity,
        };
        -BALANCE_HEADROOM <= b.wallet_balance && b.wallet_balance <= BALANCE_HEADROOM
            && -BALANCE_HEADROOM <= b.available && b.available <= BALANCE_HEADROOM
            && -BALANCE_HEADROOM <= b.position_margin && b.position_margin <= BALANCE_HEADROOM
            && -BALANCE_HEADROOM <= b.order_margin && b.order_margin <= BALANCE_HEADROOM
            && -BALANCE_HEADROOM <= b.total_fees_paid && b.total_fees_paid <= BALANCE_HEADROOM
            && -BALANCE_HEADROOM <= b.realized_pnl && b.realized_pnl <= BALANCE_HEADROOM
            && q <= POSITION_HEADROOM && self.next_order_id < u64::MAX
    }

    /// A new exchange with no quote, no position and no order; the whole deposit is available.
    pub fn new(config: Config) -> (r: Exchange)
        requires
            config.wf(),
        ensures
            r.wf(),
            r.headroom(),
            r.config_spec() == config,
            r.pos() == Position::Neutral,
            r.resting() == Seq::<PendingLimitOrder>::empty(),
            r.next_id() == 0,
            r.bal() == Balances::new_spec(config.starting_wallet_balance),
            r.market() == (MarketState { bid: 0, ask: 0, last_trade_price: 0, current_ts_ns: 0 }),
            r.limiter().recent() == Seq::<i64>::empty(),
            r.limiter().budget() == config.orders_per_second,
    {
        let r = Exchange {
            config,
            market_state: MarketState::new(),
            next_order_id: 0,
            balances: Balances::new(config.starting_wallet_balance),
            position: Position::Neutral,
            active_limit_orders: ActiveLimitOrders::new(config.max_num_open_orders),
            order_rate_limiter: OrderRateLimiter::new(config.orders_per_second),
        };
        proof {
            crate::order_margin::lemma_no_orders_no_margin(Position::Neutral, r.imr());
            assert(r.active_limit_orders@ =~= Seq::<PendingLimitOrder>::empty());
        }
        r
    }

    /// The users currently active limit orders.
    pub fn active_limit_orders(&self) -> (r: &ActiveLimitOrders)
        ensures
            r@ == self.resting(),
    {
        &self.active_limit_orders
    }

    /// The account: resting orders, position and balances.
    pub fn account(&self) -> (r: Account)
        ensures
            r.active_limit_orders@ == self.resting(),
            *r.position == self.pos(),
            *r.balances == self.bal(),
    {
        Account { active_limit_orders: &self.active_limit_orders, position: &self.position, balances: &self.balances }
    }

    pub fn config(&self) -> (r: &Config)
        ensures
            *r == self.config_spec(),
    {
        &self.config
    }

    pub fn market_state(&self) -> (r: &MarketState)
        ensures
            *r == self.market(),
    {
        &self.market_state
    }

    pub fn balances(&self) -> (r: &Balances)
        ensures
            *r == self.bal(),
    {
        &self.balances
    }

    pub fn position(&self) -> (r: &Position)
        ensures
            *r == self.pos(),
    {
        &self.position
    }

    /// The order margin that the resting orders require beside the current position.
    pub fn order_margin(&self) -> (r: i128)
        requires
            self.wf(),
        ensures
            r == order_margin_of(self.resting(), self.pos(), self.imr()),
    {
        order_margin(self.active_limit_orders.as_vec(), &self.position, self.config.contract_spec.init_margin_req)
    }

    /// Lock or release order margin so that it matches what the resting orders require.
    fn rebalance_order_margin(&mut self)
        requires
            old(self).core_wf(),
            old(self).balances.within((BALANCE_LIMIT - 2 * ORDER_MARGIN_MAX) as int),
            old(self).balances.order_margin <= ORDER_MARGIN_MAX,
        ensures
            final(self).wf(),
            final(self).balances.close_to(old(self).balances, 2 * ORDER_MARGIN_MAX),
            final(self).balances.available + final(self).balances.order_margin == old(self).balances.available
                + old(self).balances.order_margin,
            final(self).balances == (Balances {
                available: final(self).balances.available,
                order_margin: final(self).balances.order_margin,
                ..old(self).balances
            }),
            *final(self) == (Exchange { balances: final(self).balances, ..*old(self) }),
    {
        let imr = self.config.contract_spec.init_margin_req;
        let required = order_margin(self.active_limit_orders.as_vec(), &self.position, imr);
        let current = self.balances.order_margin;
        if required < current {
            self.balances.free_order_margin(current - required);
        } else {
            self.balances.reserve_order_margin(required - current);
        }
    }

    /// Hand out the next order id.
    fn next_order_id(&mut self) -> (r: u64)
        requires
            old(self).next_order_id < u64::MAX,
        ensures
            r == old(self).next_order_id,
            *final(self) == (Exchange { next_order_id: (old(self).next_order_id + 1) as u64, ..*old(self) }),
    {
        let oid = self.next_order_id;
        self.next_order_id = self.next_order_id + 1;
        oid
    }

    pub proof fn lemma_wf_bounds(self)
        requires
            self.wf(),
        ensures
            0 <= self.bal().order_margin <= ORDER_MARGIN_MAX,
            0 <= self.bal().position_margin <= NOTIONAL_LIMIT,
            self.pos().qty() <= POSITION_MAX,
            self.resting().len() <= crate::config::OPEN_ORDERS_MAX,
    {
        lemma_order_margin_bounds(self.resting(), self.pos(), self.imr());
        self.position.lemma_margin_bounds(self.imr());
    }

    /// Book a taker fill of `q` at `price` on `side`: the position changes, the taker fee is
    /// paid, and the order margin follows the new position.
    fn settle_filled_market_order(&mut self, q: i64, price: i64, side: Side)
        requires
            old(self).wf(),
            old(self).market_state.has_quotes(),
            old(self).balances.within((BALANCE_LIMIT - FILL_STEP) as int),
            0 < q <= POSITION_MAX,
            0 < price <= AMOUNT_MAX,
            old(self).position.fill_fits(q as int, side),
        ensures
            final(self).wf(),
            final(self).pos() == old(self).pos().after_fill(q as int, price as int, side),
            final(self).bal().total_fees_paid == old(self).bal().total_fees_paid + taker_fee_of(
                old(self).config.contract_spec,
                q as int,
                price as int,
            ),
            final(self).bal().realized_pnl == old(self).bal().realized_pnl + old(self).pos().pnl_of_fill(
                q as int,
                price as int,
                side,
            ),
            final(self).bal().wallet_balance == old(self).bal().wallet_balance,
            final(self).balances.close_to(old(self).balances, FILL_STEP as int),
            *final(self) == (Exchange { balances: final(self).balances, position: final(self).position, ..*old(self) }),
    {
        proof {
            old(self).lemma_wf_bounds();
            crate::currency::lemma_notional_bounds(q as int, price as int);
        }
        let cs = self.config.contract_spec;
        let fee = scale_by(notional(q, price), cs.fee_taker);
        self.position.change(q, price, side, &mut self.balances, cs.init_margin_req);
        self.balances.account_for_fee(fee);
        self.rebalance_order_margin();
    }

    /// Close the position with a market order at the opposite quote.
    fn liquidate(&mut self)
        requires
            old(self).wf(),
            old(self).position != Position::Neutral,
            old(self).balances.within((BALANCE_LIMIT - FILL_STEP) as int),
            old(self).next_order_id < u64::MAX,
        ensures
            final(self).wf(),
            final(self).pos() == Position::Neutral,
            final(self).resting() == old(self).resting(),
            final(self).next_id() == old(self).next_id() + 1,
            final(self).market() == old(self).market(),
            final(self).config_spec() == old(self).config_spec(),
            final(self).limiter() == old(self).limiter(),
            final(self).balances.close_to(old(self).balances, FILL_STEP as int),
            ({
                let side = closing_side(old(self).pos());
                let price = fill_price_for(old(self).market(), side) as int;
                let q = old(self).pos().qty();
                &&& final(self).bal().total_fees_paid == old(self).bal().total_fees_paid + taker_fee_of(
                    old(self).config_spec().contract_spec,
                    q,
                    price,
                )
                &&& final(self).bal().realized_pnl == old(self).bal().realized_pnl + old(self).pos().pnl_of_fill(q, price, side)
                &&& final(self).bal().wallet_balance == old(self).bal().wallet_balance
            }),
    {
        let (side, q) = match self.position {
            Position::Long(p) => (Side::Sell, p.quantity),
            Position::Short(p) => (Side::Buy, p.quantity),
            Position::Neutral => (Side::Buy, 0),
        };
        let _id = self.next_order_id();
        let price = match side {
            Side::Buy => self.market_state.ask,
            Side::Sell => self.market_state.bid,
        };
        self.settle_filled_market_order(q, price, side);
    }

    /// Submit a market order, filled at once at the opposite quote as taker.
    pub fn submit_market_order(&mut self, order: MarketOrder) -> (r: Result<FilledMarketOrder, Error>)
        requires
            old(self).wf(),
            old(self).headroom(),
            old(self).market().has_quotes(),
        ensures
            final(self).wf(),
            ({
                let ts = old(self).market().current_ts_ns;
                let cs = old(self).config_spec().contract_spec;
                let price = fill_price_for(old(self).market(), order.side);
                let q = order.quantity as int;
                if !old(self).limiter().admits(ts) {
                    &&& r == Err::<FilledMarketOrder, Error>(Error::RateLimitExceeded)
                    &&& *final(self) == *old(self)
                } else if cs.quantity_filter.quantity_verdict(q) is Err {
                    &&& r == Err::<FilledMarketOrder, Error>(cs.quantity_filter.quantity_verdict(q)->Err_0)
                    &&& final(self).next_id() == old(self).next_id()
                    &&& final(self).bal() == old(self).bal()
                    &&& final(self).pos() == old(self).pos()
                    &&& final(self).resting() == old(self).resting()
                } else if !market_order_affordable(old(self).bal(), old(self).pos(), old(self).resting(), cs, q, price as int, order.side) {
                    &&& r == Err::<FilledMarketOrder, Error>(Error::NotEnoughAvailableBalance)
                    &&& final(self).next_id() == old(self).next_id() + 1
                    &&& final(self).bal() == old(self).bal()
                    &&& final(self).pos() == old(self).pos()
                    &&& final(self).resting() == old(self).resting()
                } else {
                    &&& r == Ok::<FilledMarketOrder, Error>(
                        FilledMarketOrder {
                            side: order.side,
                            quantity: order.quantity,
                            user_order_id: order.user_order_id,
                            id: old(self).next_id(),
                            submit_ts: ts,
                            avg_fill_price: price,
                            fill_ts: ts,
                        },
                    )
                    &&& final(self).next_id() == old(self).next_id() + 1
                    &&& final(self).pos() == old(self).pos().after_fill(q, price as int, order.side)
                    &&& final(self).bal().total_fees_paid == old(self).bal().total_fees_paid + taker_fee_of(cs, q, price as int)
                    &&& final(self).bal().realized_pnl == old(self).bal().realized_pnl + old(self).pos().pnl_of_fill(q, price as int, order.side)
                    &&& final(self).bal().available >= 0
                    &&& final(self).resting() == old(self).resting()
                }
            }),
            final(self).market() == old(self).market(),
            final(self).config_spec() == old(self).config_spec(),
            final(self).bal().close_to(old(self).bal(), FILL_STEP as int),
            final(self).pos().qty() <= old(self).pos().qty() + AMOUNT_MAX,
    {
        let ts = self.market_state.current_ts_ns;
        let acquired = self.order_rate_limiter.aquire(ts);
        if let Err(e) = acquired {
            return Err(e);
        }
        let cs = self.config.contract_spec;
        let valid = cs.quantity_filter.validate_order_quantity(order.quantity);
        if let Err(e) = valid {
            return Err(e);
        }
        let id = self.next_order_id();
        let price = match order.side {
            Side::Buy => self.market_state.ask,
            Side::Sell => self.market_state.bid,
        };
        proof {
            self.lemma_wf_bounds();
        }
        let risk = check_market_order(
            &self.balances,
            &self.position,
            self.active_limit_orders.as_vec(),
            &cs,
            order.quantity,
            price,
            order.side,
        );
        if let Err(e) = risk {
            return Err(e);
        }
        let filled = FilledMarketOrder {
            side: order.side,
            quantity: order.quantity,
            user_order_id: order.user_order_id,
            id,
            submit_ts: ts,
            avg_fill_price: price,
            fill_ts: ts,
        };
        self.settle_filled_market_order(order.quantity, price, order.side);
        Ok(filled)
    }

    /// Submit a limit order. When accepted it rests on the book with a new id.
    pub fn submit_limit_order(&mut self, order: LimitOrder) -> (r: Result<PendingLimitOrder, Error>)
        requires
            old(self).wf(),
            old(self).headroom(),
        ensures
            final(self).wf(),
            limit_submission(*old(self), *final(self), order, r),
    {
        self.place_limit_order(order)
    }

    fn place_limit_order(&mut self, order: LimitOrder) -> (r: Result<PendingLimitOrder, Error>)
        requires
            old(self).wf(),
            old(self).balances.within((BALANCE_LIMIT - FILL_STEP) as int),
            old(self).next_order_id < u64::MAX,
        ensures
            final(self).wf(),
            limit_submission(*old(self), *final(self), order, r),
            final(self).balances.close_to(old(self).balances, FILL_STEP as int),
    {
        let ts = self.market_state.current_ts_ns;
        let acquired = self.order_rate_limiter.aquire(ts);
        if let Err(e) = acquired {
            return Err(e);
        }
        let cs = self.config.contract_spec;
        let valid = cs.quantity_filter.validate_order_quantities(order.remaining_quantity, order.total_quantity);
        if let Err(e) = valid {
            return Err(e);
        }
        let mid = self.market_state.mid_price();
        let valid = cs.price_filter.validate_limit_price(order.limit_price, mid);
        if let Err(e) = valid {
            return Err(e);
        }
        proof {
            if !self.market_state.has_quotes() {
                let up = cs.price_filter.multiplier_up as int;
                assert(mid == 0);
                assert(mid * up == 0) by (nonlinear_arith)
                    requires
                        mid == 0,
                ;
            }
        }
        let id = self.next_order_id();
        let pending = order.into_pending(id, ts);
        let with = self.active_limit_orders.with_order(pending);
        proof {
            self.lemma_wf_bounds();
            assert(order_wf(pending));
            assert(orders_wf(with@)) by {
                assert forall|i: int| 0 <= i < with@.len() implies order_wf(#[trigger] with@[i]) by {
                    if i < self.active_limit_orders@.len() {
                        assert(with@[i] == self.active_limit_orders@[i]);
                    }
                }
                assert forall|i: int, j: int| 0 <= i < j < with@.len() implies with@[i].id < with@[j].id by {
                    assert(with@[i] == self.active_limit_orders@[i]);
                    if j < self.active_limit_orders@.len() {
                        assert(with@[j] == self.active_limit_orders@[j]);
                    }
                }
            }
        }
        let risk = check_limit_order(&self.balances, &self.position, &with, cs.init_margin_req);
        if let Err(e) = risk {
            return Err(e);
        }
        let is_marketable = match pending.side {
            Side::Buy => pending.limit_price >= self.market_state.ask,
            Side::Sell => pending.limit_price <= self.market_state.bid,
        };
        match pending.re_pricing {
            RePricing::GoodTilCrossing => {
                if is_marketable {
                    return Err(
                        Error::GoodTillCrossingRejected {
                            limit_price: pending.limit_price,
                            away_market_quotation_price: match pending.side {
                                Side::Buy => self.market_state.ask,
                                Side::Sell => self.market_state.bid,
                            },
                        },
                    );
                }
            },
        }
        let appended = self.append_limit_order(pending);
        if let Err(e) = appended {
            return Err(e);
        }
        Ok(pending)
    }

    /// Put an accepted order on the book and lock the order margin it adds.
    fn append_limit_order(&mut self, order: PendingLimitOrder) -> (r: Result<(), Error>)
        requires
            old(self).wf(),
            old(self).balances.within((BALANCE_LIMIT - FILL_STEP) as int),
            order_wf(order),
            order.id < old(self).next_order_id,
            forall|i: int| 0 <= i < old(self).resting().len() ==> (#[trigger] old(self).resting()[i]).id < order.id,
            old(self).market_state.has_quotes(),
            limit_order_affordable(old(self).bal(), old(self).pos(), old(self).resting(), order, old(self).imr()),
        ensures
            final(self).wf(),
            r is Ok <==> old(self).resting().len() < old(self).config_spec().max_num_open_orders,
            r is Err ==> r == Err::<(), Error>(Error::MaxActiveOrders) && *final(self) == *old(self),
            r is Ok ==> {
                &&& final(self).resting() == old(self).resting().push(order)
                &&& final(self).bal().available >= 0
                &&& *final(self) == (Exchange {
                    balances: final(self).balances,
                    active_limit_orders: final(self).active_limit_orders,
                    ..*old(self)
                })
                &&& final(self).balances == (Balances {
                    available: final(self).balances.available,
                    order_margin: final(self).balances.order_margin,
                    ..old(self).balances
                })
            },
            final(self).balances.close_to(old(self).balances, FILL_STEP as int),
    {
        proof {
            self.lemma_wf_bounds();
        }
        let inserted = self.active_limit_orders.insert(order);
        if let Err(e) = inserted {
            return Err(e);
        }
        self.rebalance_order_margin();
        Ok(())
    }

    /// Take the resting order at position `i` off the book and release the margin it locked.
    fn remove_order_at(&mut self, i: usize) -> (r: PendingLimitOrder)
        requires
            old(self).wf(),
            old(self).balances.within((BALANCE_LIMIT - FILL_STEP) as int),
            i < old(self).resting().len(),
        ensures
            final(self).wf(),
            r == old(self).resting()[i as int],
            final(self).resting() == old(self).resting().remove(i as int),
            *final(self) == (Exchange {
                balances: final(self).balances,
                active_limit_orders: final(self).active_limit_orders,
                ..*old(self)
            }),
            final(self).balances == (Balances {
                available: final(self).balances.available,
                order_margin: final(self).balances.order_margin,
                ..old(self).balances
            }),
            final(self).balances.close_to(old(self).balances, FILL_STEP as int),
    {
        proof {
            self.lemma_wf_bounds();
        }
        let removed = self.active_limit_orders.remove_at(i);
        proof {
            assert forall|k: int| 0 <= k < self.active_limit_orders@.len() implies (#[trigger] self.active_limit_orders@[k]).id
                < self.next_order_id by {
                let k0 = if k < i { k } else { k + 1 };
                assert(self.active_limit_orders@[k] == old(self).active_limit_orders@[k0]);
            }
        }
        self.rebalance_order_margin();
        removed
    }

    /// Cancel a resting limit order and release the order margin it locked.
    pub fn cancel_limit_order(&mut self, cancel_by: CancelBy) -> (r: Result<PendingLimitOrder, Error>)
        requires
            old(self).wf(),
            old(self).headroom(),
        ensures
            final(self).wf(),
            cancellation(*old(self), *final(self), cancel_by, r),
    {
        self.cancel_order(cancel_by)
    }

    #[verifier::rlimit(50)]
    fn cancel_order(&mut self, cancel_by: CancelBy) -> (r: Result<PendingLimitOrder, Error>)
        requires
            old(self).wf(),
            old(self).balances.within((BALANCE_LIMIT - FILL_STEP) as int),
        ensures
            final(self).wf(),
            cancellation(*old(self), *final(self), cancel_by, r),
            final(self).balances.close_to(old(self).balances, FILL_STEP as int),
            final(self).next_order_id == old(self).next_order_id,
    {
        let ts = self.market_state.current_ts_ns;
        let acquired = self.order_rate_limiter.aquire(ts);
        if let Err(e) = acquired {
            return Err(e);
        }
        let found = match cancel_by {
            CancelBy::OrderId(oid) => self.active_limit_orders.position_of(oid),
            CancelBy::UserOrderId(uid) => self.active_limit_orders.position_of_user_id(uid),
        };
        match found {
            None => match cancel_by {
                CancelBy::OrderId(oid) => Err(Error::OrderIdNotFound { order_id: oid }),
                CancelBy::UserOrderId(uid) => Err(Error::UserOrderIdNotFound { user_order_id: uid }),
            },
            Some(i) => {
                proof {
                    crate::active_orders::lemma_removed_id_absent(self.active_limit_orders@, i as int);
                }
                let removed = self.remove_order_at(i);
                Ok(removed)
            },
        }
    }

    /// Amend a resting limit order: the change in total quantity applies to what is left of
    /// it, the old order is cancelled and the amended one is submitted under a new id. Where
    /// nothing would be left, the old order is cancelled and the amend is refused.
    pub fn amend_limit_order(&mut self, existing_order_id: u64, new_order: LimitOrder) -> (r: Result<PendingLimitOrder, Error>)
        requires
            old(self).wf(),
            old(self).headroom(),
        ensures
            final(self).wf(),
            final(self).next_id() >= old(self).next_id(),
            final(self).config_spec() == old(self).config_spec(),
            final(self).market() == old(self).market(),
            ({
                let ts = old(self).market().current_ts_ns;
                let s = old(self).resting();
                let found = exists|i: int| 0 <= i < s.len() && s[i].id == existing_order_id && s[i].side == new_order.side;
                if !old(self).limiter().admits(ts) {
                    r == Err::<PendingLimitOrder, Error>(Error::RateLimitExceeded) && *final(self) == *old(self)
                } else if !found {
                    &&& r == if existing_order_id < old(self).next_id() {
                        Err::<PendingLimitOrder, Error>(Error::OrderNoLongerActive)
                    } else {
                        Err::<PendingLimitOrder, Error>(Error::OrderIdNotFound { order_id: existing_order_id })
                    }
                    &&& final(self).resting() == s
                    &&& final(self).bal() == old(self).bal()
                    &&& final(self).pos() == old(self).pos()
                    &&& final(self).next_id() == old(self).next_id()
                } else {
                    exists|i: int|
                        {
                            &&& 0 <= i < s.len()
                            &&& s[i].id == existing_order_id
                            &&& #[trigger] s[i].side == new_order.side
                            &&& amended_after_removal(*old(self), *final(self), i, new_order, r)
                        }
                }
            }),
    {
        let ts = self.market_state.current_ts_ns;
        let acquired = self.order_rate_limiter.aquire(ts);
        if let Err(e) = acquired {
            return Err(e);
        }
        let existing = match self.active_limit_orders.get_by_id(existing_order_id, new_order.side) {
            Some(o) => o,
            None => {
                if existing_order_id < self.next_order_id {
                    return Err(Error::OrderNoLongerActive);
                } else {
                    return Err(Error::OrderIdNotFound { order_id: existing_order_id });
                }
            },
        };
        let ghost s = self.active_limit_orders@;
        let ghost i0 = choose|i: int| 0 <= i < s.len() && s[i] == existing;
        proof {
            assert(s.contains(existing));
            assert(0 <= i0 < s.len() && s[i0] == existing);
            assert(order_wf(s[i0]));
        }
        let i = match self.active_limit_orders.position_of(existing_order_id) {
            Some(i) => i,
            None => {
                proof {
                    assert(s[i0].id == existing_order_id);
                }
                return Err(Error::OrderIdNotFound { order_id: existing_order_id });
            },
        };
        proof {
            if i != i0 {
                if i < i0 {
                    assert(s[i as int].id < s[i0].id);
                } else {
                    assert(s[i0].id < s[i as int].id);
                }
            }
        }
        let qty_delta: i128 = new_order.total_quantity as i128 - existing.total_quantity as i128;
        let new_leaves: i128 = existing.remaining_quantity as i128 + qty_delta;
        proof {
            crate::active_orders::lemma_removed_id_absent(s, i as int);
        }
        self.remove_order_at(i);
        proof {
            assert(removal_state(*old(self), *self, i as int));
        }
        if new_leaves <= 0 {
            proof {
                assert(amended_after_removal(*old(self), *self, i as int, new_order, Err(Error::AmendQtyAlreadyFilled)));
            }
            return Err(Error::AmendQtyAlreadyFilled);
        }
        let mut amended = new_order;
        amended.remaining_quantity = new_leaves as i64;
        let ghost mid = *self;
        let r = self.place_limit_order(amended);
        proof {
            assert(amended == (LimitOrder { remaining_quantity: new_leaves as i64, ..new_order }));
            assert(limit_submission(mid, *self, amended, r));
            assert(removal_state(*old(self), mid, i as int));
            assert(amended_after_removal(*old(self), *self, i as int, new_order, r));
        }
        r
    }

    /// Fill `filled` of the resting order at position `i` at its limit price, as maker.
    fn fill_limit_order(&mut self, i: usize, filled: i64, ts: i64) -> (r: LimitOrderFill)
        requires
            old(self).wf(),
            old(self).balances.within((BALANCE_LIMIT - FILL_STEP) as int),
            i < old(self).resting().len(),
            0 < filled <= old(self).resting()[i as int].remaining_quantity,
            old(self).pos().qty() + filled <= POSITION_MAX,
        ensures
            final(self).wf(),
            ({
                let o = old(self).resting()[i as int];
                &&& r == o.fill_event(filled, maker_fee_of(*old(self), filled as int, o.limit_price as int) as i128, ts)
                &&& final(self).resting() == if filled == o.remaining_quantity {
                    old(self).resting().remove(i as int)
                } else {
                    old(self).resting().update(i as int, o.after_fill(filled))
                }
                &&& final(self).pos() == old(self).pos().after_fill(filled as int, o.limit_price as int, o.side)
            }),
            final(self).pos().qty() <= old(self).pos().qty() + filled,
            final(self).bal().total_fees_paid == old(self).bal().total_fees_paid + maker_fee_of(
                *old(self),
                filled as int,
                old(self).resting()[i as int].limit_price as int,
            ),
            final(self).bal().wallet_balance == old(self).bal().wallet_balance,
            final(self).bal().realized_pnl == old(self).bal().realized_pnl + old(self).pos().pnl_of_fill(
                filled as int,
                old(self).resting()[i as int].limit_price as int,
                old(self).resting()[i as int].side,
            ),
            forall|x: u64| has_id(final(self).resting(), x) ==> has_id(old(self).resting(), x),
            filled == old(self).resting()[i as int].remaining_quantity ==> !has_id(final(self).resting(), old(self).resting()[i as int].id),
            final(self).balances.close_to(old(self).balances, FILL_STEP as int),
            final(self).next_id() == old(self).next_id(),
            final(self).market() == old(self).market(),
            final(self).config_spec() == old(self).config_spec(),
            final(self).limiter() == old(self).limiter(),
    {
        proof {
            self.lemma_wf_bounds();
        }
        let mut order = self.active_limit_orders.get(i);
        proof {
            assert(order_wf(self.active_limit_orders@[i as int]));
            crate::currency::lemma_notional_bounds(filled as int, order.limit_price as int);
        }
        let side = order.side;
        let limit_price = order.limit_price;
        let cs = self.config.contract_spec;
        let fee = scale_by(notional(filled, limit_price), cs.fee_maker);
        self.balances.account_for_fee(fee);
        let update = order.fill(filled, fee, ts);
        let ghost s = self.active_limit_orders@;
        if filled == self.active_limit_orders.get(i).remaining_quantity {
            self.active_limit_orders.remove_at(i);
            proof {
                crate::active_orders::lemma_removed_id_absent(s, i as int);
                let s1 = self.active_limit_orders@;
                assert forall|k: int| 0 <= k < s1.len() implies (#[trigger] s1[k]).id < self.next_order_id by {
                    let k0 = if k < i { k } else { k + 1 };
                    assert(s1[k] == s[k0]);
                }
                assert forall|x: u64| has_id(s1, x) implies has_id(s, x) by {
                    let j = choose|j: int| 0 <= j < s1.len() && #[trigger] s1[j].id == x;
                    let j0 = if j < i { j } else { j + 1 };
                    assert(s1[j] == s[j0]);
                }
            }
        } else {
            self.active_limit_orders.replace_at(i, order);
            proof {
                let s1 = self.active_limit_orders@;
                assert forall|k: int| 0 <= k < s1.len() implies (#[trigger] s1[k]).id < self.next_order_id by {
                    assert(s[k].id < self.next_order_id);
                }
                assert forall|x: u64| has_id(s1, x) implies has_id(s, x) by {
                    let j = choose|j: int| 0 <= j < s1.len() && #[trigger] s1[j].id == x;
                    assert(s[j].id == x);
                }
            }
        }
        self.position.change(filled, limit_price, side, &mut self.balances, cs.init_margin_req);
        self.rebalance_order_margin();
        update
    }

    /// Fill the resting orders on `side` that `trade` crosses, best first, until the trade is
    /// used up or no resting order on that side is crossed any more.
    #[verifier::rlimit(100)]
    fn fill_crossed_orders(&mut self, trade: Trade<i64>, side: Side) -> (r: Vec<LimitOrderFill>)
        requires
            old(self).wf(),
            old(self).headroom(),
            trade.quantity > 0,
            side == trade.side.flipped(),
        ensures
            final(self).wf(),
            fully_filled_gone(r@, final(self).resting()),
            fills_issued_before(r@, final(self).next_id()),
            final(self).bal().total_fees_paid == old(self).bal().total_fees_paid + fees_total(r@),
            final(self).bal().wallet_balance == old(self).bal().wallet_balance,
            filled_total(r@) == trade.quantity
                || forall|j: int| 0 <= j < final(self).resting().len() ==> !trade.fills(#[trigger] final(self).resting()[j]),
            fills_crossed(trade, r@, old(self).resting()),
            side_untouched(trade.side, old(self).resting(), final(self).resting()),
            fills_in_priority(side, r@, final(self).resting()),
            final(self).pos() == position_after_fills(old(self).pos(), r@),
            final(self).bal().realized_pnl == old(self).bal().realized_pnl + pnl_of_fills(old(self).pos(), r@),
            final(self).next_id() == old(self).next_id(),
            final(self).market() == old(self).market(),
            final(self).config_spec() == old(self).config_spec(),
            final(self).limiter() == old(self).limiter(),
    {
        let ghost s0 = self.resting();
        let ghost p0 = self.pos();
        let ghost r0 = self.bal().realized_pnl;
        proof {
            assert forall|j: int| 0 <= j < s0.len() implies traced(#[trigger] s0[j], s0, trade.side) by {
                assert(same_slot(s0[j], s0[j], trade.side));
            }
            assert forall|j: int| 0 <= j < s0.len() && (#[trigger] s0[j]).side == trade.side implies s0.contains(s0[j]) by {
            }
            lemma_side_untouched(s0, s0, trade.side);
        }
        let mut fills: Vec<LimitOrderFill> = Vec::new();
        let mut t = trade;
        let ts = trade.timestamp_exchange_ns;
        let ghost n0 = self.resting().len();
        let ghost b0 = self.balances;
        let ghost mut k: int = 0;
        proof {
            self.lemma_wf_bounds();
        }
        loop
            invariant
                self.wf(),
                n0 <= crate::config::OPEN_ORDERS_MAX,
                b0.within(BALANCE_HEADROOM as int),
                0 <= k <= n0 - self.resting().len(),
                self.balances.close_to(b0, k * FILL_STEP),
                self.pos().qty() <= POSITION_HEADROOM + k * AMOUNT_MAX,
                fully_filled_gone(fills@, self.resting()),
                fills_issued_before(fills@, self.next_id()),
                self.bal().total_fees_paid == old(self).bal().total_fees_paid + fees_total(fills@),
                self.bal().wallet_balance == old(self).bal().wallet_balance,
                t == (Trade { quantity: t.quantity, ..trade }),
                0 < t.quantity,
                t.quantity == trade.quantity - filled_total(fills@),
                side == trade.side.flipped(),
                self.next_id() == old(self).next_id(),
                self.market() == old(self).market(),
                self.config_spec() == old(self).config_spec(),
                self.limiter() == old(self).limiter(),
                s0 == old(self).resting(),
                p0 == old(self).pos(),
                r0 == old(self).bal().realized_pnl,
                traces_back(self.resting(), s0, trade.side),
                keeps_side(s0, self.resting(), trade.side),
                side_untouched(trade.side, s0, self.resting()),
                fills_in_priority(side, fills@, self.resting()),
                fills_crossed(trade, fills@, s0),
                self.pos() == position_after_fills(p0, fills@),
                self.bal().realized_pnl == r0 + pnl_of_fills(p0, fills@),
            ensures
                forall|j: int| 0 <= j < self.resting().len() ==> !trade.fills(#[trigger] self.resting()[j]),
            decreases self.resting().len(),
        {
            let best = self.active_limit_orders.peek_best(side);
            let i = match best {
                None => {
                    proof {
                        let s = self.resting();
                        assert forall|j: int| 0 <= j < s.len() implies !trade.fills(#[trigger] s[j]) by {
                            if s[j].side == side {
                                assert(crate::active_orders::has_side(s, side));
                            }
                        }
                    }
                    break;
                },
                Some(i) => i,
            };
            let order = self.active_limit_orders.get(i);
            proof {
                assert(order_wf(self.active_limit_orders@[i as int]));
            }
            let ghost t_before = t;
            match t.limit_order_filled(&order) {
                None => {
                    proof {
                        let s = self.resting();
                        assert forall|j: int| 0 <= j < s.len() implies !trade.fills(#[trigger] s[j]) by {
                            if s[j].side == side {
                                assert(crate::active_orders::ahead_or_same(side, s[i as int], s[j]));
                            }
                        }
                    }
                    break;
                },
                Some((q, exhausted)) => {
                    proof {
                        assert(k * FILL_STEP <= 1024 * FILL_STEP) by (nonlinear_arith)
                            requires
                                k <= 1024,
                        ;
                        assert(k * AMOUNT_MAX <= 1024 * AMOUNT_MAX) by (nonlinear_arith)
                            requires
                                k <= 1024,
                        ;
                        Balances::lemma_close_to_within(self.balances, b0, BALANCE_HEADROOM as int, k * FILL_STEP);
                    }
                    let ghost before = *self;
                    proof {
                        assert(traced(before.resting()[i as int], s0, trade.side));
                        let m = choose|m: int| 0 <= m < s0.len() && #[trigger] same_slot(before.resting()[i as int], s0[m], trade.side);
                        assert(s0[m].id == order.id);
                        assert(has_id(s0, order.id));
                        assert(t_before.fills(order));
                    }
                    let ev = self.fill_limit_order(i, q, ts);
                    proof {
                        Balances::lemma_close_to_trans(self.balances, before.balances, b0, FILL_STEP as int, k * FILL_STEP);
                        assert(k * FILL_STEP + FILL_STEP == (k + 1) * FILL_STEP) by (nonlinear_arith);
                        assert(k * AMOUNT_MAX + AMOUNT_MAX == (k + 1) * AMOUNT_MAX) by (nonlinear_arith);
                        k = k + 1;
                    }
                    let ghost fills_before = fills@;
                    fills.push(ev);
                    proof {
                        assert(fills@.drop_last() =~= fills_before);
                        assert(fills@.last() == ev);
                        lemma_fill_step(
                            s0,
                            before.resting(),
                            self.resting(),
                            i as int,
                            q,
                            q == order.remaining_quantity,
                            side,
                            trade.side,
                            fills_before,
                            ev,
                        );
                        assert(fills_before.push(ev) == fills@);
                        lemma_side_untouched(s0, self.resting(), trade.side);
                        let f = fills@;
                        assert forall|m: int| 0 <= m < f.len() implies trade_fills(trade.side, trade.price as int, (#[trigger] f[m]).side(), f[m].price() as int)
                            && has_id(s0, f[m].order_id()) by {
                            if m < f.len() - 1 {
                                assert(f[m] == fills_before[m]);
                            }
                        }
                        let f = fills@;
                        assert forall|m: int| 0 <= m < f.len() implies match #[trigger] f[m] {
                            LimitOrderFill::FullyFilled { order_id, .. } => !has_id(self.resting(), order_id),
                            _ => true,
                        } by {
                            if m < f.len() - 1 {
                                assert(f[m] == fills_before[m]);
                            }
                        }
                        assert(before.resting()[i as int].id < before.next_id());
                        assert forall|m: int| 0 <= m < f.len() implies match #[trigger] f[m] {
                            LimitOrderFill::FullyFilled { order_id, .. } => order_id < self.next_id(),
                            _ => true,
                        } by {
                            if m < f.len() - 1 {
                                assert(f[m] == fills_before[m]);
                            }
                        }
                    }
                    if exhausted {
                        return fills;
                    }
                },
            }
        }
        fills
    }

    /// Fill the resting orders that `market_update` crosses. Returns the fills.
    pub fn check_active_orders(&mut self, market_update: MarketUpdate) -> (r: Vec<LimitOrderFill>)
        requires
            old(self).wf(),
            old(self).headroom(),
        ensures
            final(self).wf(),
            fully_filled_gone(r@, final(self).resting()),
            fills_issued_before(r@, final(self).next_id()),
            final(self).bal().total_fees_paid == old(self).bal().total_fees_paid + fees_total(r@),
            final(self).bal().wallet_balance == old(self).bal().wallet_balance,
            match market_update {
                MarketUpdate::Bba(_) => r@.len() == 0 && *final(self) == *old(self),
                MarketUpdate::Trade(t) => t.quantity <= 0 ==> r@.len() == 0 && *final(self) == *old(self),
            },
            market_update matches MarketUpdate::Trade(t) ==> t.quantity > 0 ==> (filled_total(r@) == t.quantity
                || forall|j: int| 0 <= j < final(self).resting().len() ==> !t.fills(#[trigger] final(self).resting()[j])),
            market_update matches MarketUpdate::Trade(t) ==> t.quantity > 0 ==> trade_outcome(*old(self), *final(self), t, r@),
            final(self).next_id() == old(self).next_id(),
            final(self).market() == old(self).market(),
            final(self).config_spec() == old(self).config_spec(),
            final(self).limiter() == old(self).limiter(),
    {
        if !market_update.can_fill_limit_orders() {
            return Vec::new();
        }
        match market_update {
            MarketUpdate::Bba(_) => Vec::new(),
            MarketUpdate::Trade(t) => {
                if t.quantity <= 0 {
                    return Vec::new();
                }
                if t.can_fill_bids() {
                    self.fill_crossed_orders(t, Side::Buy)
                } else {
                    self.fill_crossed_orders(t, Side::Sell)
                }
            },
        }
    }

    /// Update the exchange with new market information: the market state takes it, a breach
    /// of the maintenance margin liquidates the position, and otherwise the resting orders
    /// that the update crosses are filled. Returns the fills.
    pub fn update_state(&mut self, market_update: &MarketUpdate) -> (r: Result<Vec<LimitOrderFill>, Error>)
        requires
            old(self).wf(),
            old(self).headroom(),
        ensures
            final(self).wf(),
            final(self).config_spec() == old(self).config_spec(),
            final(self).limiter() == old(self).limiter(),
            final(self).next_id() >= old(self).next_id(),
            ({
                let cs = old(self).config_spec().contract_spec;
                let verdict = market_update.verdict(cs.price_filter);
                let m = market_update.applied_to(old(self).market());
                if verdict is Err {
                    r == Err::<Vec<LimitOrderFill>, Error>(verdict->Err_0) && *final(self) == *old(self)
                } else if maintenance_breached(old(self).pos(), m, old(self).bal().position_margin as int, cs.maintenance_margin_req as int) {
                    let side = closing_side(old(self).pos());
                    let price = fill_price_for(m, side) as int;
                    let q = old(self).pos().qty();
                    &&& r == Err::<Vec<LimitOrderFill>, Error>(Error::Liquidation)
                    &&& final(self).next_id() == old(self).next_id() + 1
                    &&& final(self).bal().total_fees_paid == old(self).bal().total_fees_paid + taker_fee_of(cs, q, price)
                    &&& final(self).bal().realized_pnl == old(self).bal().realized_pnl + old(self).pos().pnl_of_fill(q, price, side)
                    &&& final(self).bal().wallet_balance == old(self).bal().wallet_balance
                    &&& final(self).bal().close_to(old(self).bal(), FILL_STEP as int)
                    &&& final(self).pos() == Position::Neutral
                    &&& final(self).resting() == old(self).resting()
                    &&& final(self).market() == m
                } else {
                    &&& r matches Ok(fills) && fully_filled_gone(fills@, final(self).resting())
                    &&& r matches Ok(fills) && fills_issued_before(fills@, final(self).next_id())
                    &&& r matches Ok(fills) && final(self).bal().total_fees_paid == old(self).bal().total_fees_paid + fees_total(fills@)
                    &&& final(self).next_id() == old(self).next_id()
                    &&& r matches Ok(fills) && match *market_update {
                        MarketUpdate::Trade(t) => t.quantity > 0 ==> trade_outcome(*old(self), *final(self), t, fills@),
                        MarketUpdate::Bba(_) => fills@.len() == 0 && final(self).pos() == old(self).pos()
                            && final(self).resting() == old(self).resting() && final(self).bal() == old(self).bal(),
                    }
                    &&& final(self).market() == m
                }
            }),
            r is Ok ==> final(self).market().bid > 0 ==> final(self).market().bid < final(self).market().ask,
    {
        let cs = self.config.contract_spec;
        let updated = self.market_state.update_state(market_update, &cs.price_filter);
        if let Err(e) = updated {
            return Err(e);
        }
        proof {
            self.lemma_wf_bounds();
        }
        let check = check_maintenance_margin(&self.market_state, &self.position, self.balances.position_margin, cs.maintenance_margin_req);
        if let Err(e) = check {
            self.liquidate();
            return Err(e);
        }
        Ok(self.check_active_orders(*market_update))
    }

    /// Set the best bid and ask directly, in place of a quote update through `update_state`.
    pub fn set_best_bid_and_ask(&mut self, bid: i64, ask: i64)
        requires
            old(self).wf(),
            0 < bid < ask <= AMOUNT_MAX,
        ensures
            final(self).wf(),
            final(self).market() == (MarketState { bid, ask, ..old(self).market() }),
            final(self).bal() == old(self).bal(),
            final(self).pos() == old(self).pos(),
            final(self).resting() == old(self).resting(),
            final(self).next_id() == old(self).next_id(),
            final(self).config_spec() == old(self).config_spec(),
    {
        self.market_state.set_bid_ask(bid, ask);
    }
}

} // verus!

verus! {

/// Resting orders are in range and have distinct ids, increasing in order of arrival, all
/// below the next id to be handed out.
pub proof fn resting_ids_unique(ex: Exchange)
    requires
        ex.wf(),
    ensures
        orders_wf(ex.resting()),
        forall|i: int| 0 <= i < ex.resting().len() ==> (#[trigger] ex.resting()[i]).id < ex.next_id(),
{
}

/// Margins and fees are never negative, and the partitions of the wallet add up to the
/// deposit plus the realized profit and loss less the fees paid.
pub proof fn balance_partitions_add_up(ex: Exchange)
    requires
        ex.wf(),
    ensures
        ex.bal().position_margin >= 0,
        ex.bal().order_margin >= 0,
        ex.bal().total_fees_paid >= 0,
        ex.bal().available + ex.bal().position_margin + ex.bal().order_margin == ex.bal().wallet_balance
            + ex.bal().realized_pnl - ex.bal().total_fees_paid,
{
}

/// The order margin is always what the resting orders require beside the current position.
pub proof fn order_margin_matches_resting_orders(ex: Exchange)
    requires
        ex.wf(),
    ensures
        ex.bal().order_margin == order_margin_of(ex.resting(), ex.pos(), ex.imr()),
{
}

/// Without resting orders no order margin is locked.
pub proof fn no_resting_orders_no_order_margin(ex: Exchange)
    requires
        ex.wf(),
        ex.resting().len() == 0,
    ensures
        ex.bal().order_margin == 0,
{
    assert(ex.resting() =~= Seq::<PendingLimitOrder>::empty());
    crate::order_margin::lemma_no_orders_no_margin(ex.pos(), ex.imr());
}

/// Once quoted, the bid is strictly below the ask.
pub proof fn quotes_never_cross(ex: Exchange)
    requires
        ex.wf(),
    ensures
        ex.market().bid > 0 ==> ex.market().bid < ex.market().ask,
{
}

/// An order reported as fully filled does not come back: a limit order accepted later has a new id.
pub proof fn fully_filled_orders_stay_gone(
    fills: Seq<LimitOrderFill>,
    e0: Exchange,
    e1: Exchange,
    order: LimitOrder,
    r: Result<PendingLimitOrder, Error>,
)
    requires
        fully_filled_gone(fills, e0.resting()),
        fills_issued_before(fills, e0.next_id()),
        limit_submission(e0, e1, order, r),
    ensures
        fully_filled_gone(fills, e1.resting()),
        fills_issued_before(fills, e1.next_id()),
{
    if r is Ok {
        let s1 = e1.resting();
        assert forall|k: int| 0 <= k < fills.len() implies match #[trigger] fills[k] {
            LimitOrderFill::FullyFilled { order_id, .. } => !has_id(s1, order_id),
            _ => true,
        } by {
            match fills[k] {
                LimitOrderFill::FullyFilled { order_id, .. } => {
                    if has_id(s1, order_id) {
                        let j = choose|j: int| 0 <= j < s1.len() && #[trigger] s1[j].id == order_id;
                        if j < e0.resting().len() {
                            assert(s1[j] == e0.resting()[j]);
                        }
                    }
                },
                _ => {},
            }
        }
    }
}

/// Of two accepted limit orders, the later one has the larger id, whatever happened between
/// the two submissions (no operation lowers the next id).
pub proof fn accepted_order_ids_increase(
    e0: Exchange,
    e1: Exchange,
    first: LimitOrder,
    first_pending: PendingLimitOrder,
    e2: Exchange,
    e3: Exchange,
    second: LimitOrder,
    second_pending: PendingLimitOrder,
)
    requires
        limit_submission(e0, e1, first, Ok(first_pending)),
        e1.next_id() <= e2.next_id(),
        limit_submission(e2, e3, second, Ok(second_pending)),
    ensures
        first_pending.id < second_pending.id,
        second_pending.id < e3.next_id(),
{
}

} // verus!
