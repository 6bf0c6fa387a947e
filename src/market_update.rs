use vstd::prelude::*;
use crate::currency::AMOUNT_MAX;
use crate::filters::PriceFilter;
use crate::market_state::MarketState;
use crate::types::{Error, PendingLimitOrder, Side};
use crate::text::{amount_text, push_amount};
use vstd::string::StringExecFns;

verus! {

/// A new best bid and ask.
#[derive(Debug, Clone, Copy, PartialEq, Eq, Structural)]
pub struct Bba {
    pub bid: i64,
    pub ask: i64,
    pub timestamp_exchange_ns: i64,
}

/// A taker trade that consumes liquidity in the book.
/// `I` is the integer type that holds price and quantity in raw units.
#[derive(Debug, Clone, Copy, PartialEq, Eq, Structural)]
pub struct Trade<I> {
    /// When the trade happened at the exchange, in nanoseconds.
    pub timestamp_exchange_ns: i64,
    /// The price at which the trade executed.
    pub price: I,
    /// The executed quantity.
    pub quantity: I,
    /// The side of the taker.
    pub side: Side,
}

/// Whether a trade at `price` by a taker on `side` fills a resting order on `order_side` at `limit`.
/// The resting order is taken to have the worst queue position, so the trade must cross it strictly.
pub open spec fn trade_fills(side: Side, price: int, order_side: Side, limit: int) -> bool {
    match order_side {
        Side::Buy => price < limit && side == Side::Sell,
        Side::Sell => price > limit && side == Side::Buy,
    }
}

impl Trade<i64> {
    pub open spec fn fills(self, order: PendingLimitOrder) -> bool {
        trade_fills(self.side, self.price as int, order.side, order.limit_price as int)
    }

    /// If `true` then the trade fills the `order`.
    pub fn fills_order(&self, order: &PendingLimitOrder) -> (r: bool)
        ensures
            r == self.fills(*order),
    {
        match order.side {
            Side::Buy => self.price < order.limit_price && self.side == Side::Sell,
            Side::Sell => self.price > order.limit_price && self.side == Side::Buy,
        }
    }

    /// Fill `order` as far as the trade's quantity goes, and take the filled quantity off
    /// the trade. Returns the filled quantity and whether the trade is used up.
    pub fn limit_order_filled(&mut self, order: &PendingLimitOrder) -> (r: Option<(i64, bool)>)
        requires
            old(self).quantity > 0,
            order.remaining_quantity > 0,
        ensures
            !old(self).fills(*order) ==> r is None && *final(self) == *old(self),
            old(self).fills(*order) ==> {
                let filled = if old(self).quantity < order.remaining_quantity {
                    old(self).quantity
                } else {
                    order.remaining_quantity
                };
                &&& r == Some((filled, filled == old(self).quantity))
                &&& *final(self) == (Trade { quantity: (old(self).quantity - filled) as i64, ..*old(self) })
            },
    {
        if self.fills_order(order) {
            let filled_qty = if self.quantity < order.remaining_quantity {
                self.quantity
            } else {
                order.remaining_quantity
            };
            self.quantity = self.quantity - filled_qty;
            Some((filled_qty, self.quantity <= 0))
        } else {
            None
        }
    }

    /// Check the trade's price against the price filter.
    pub fn validate_market_update(&self, price_filter: &PriceFilter) -> (r: Result<(), Error>)
        requires
            price_filter.wf(),
        ensures
            r == price_filter.price_verdict(self.price as int),
    {
        price_filter.validate_price(self.price)
    }

    /// Record the trade's price as the last trade price.
    pub fn update_market_state(&self, market_state: &mut MarketState)
        ensures
            *final(market_state) == (MarketState { last_trade_price: self.price, ..*old(market_state) }),
    {
        market_state.last_trade_price = self.price;
    }

    pub fn timestamp_exchange_ns(&self) -> (r: i64)
        ensures
            r == self.timestamp_exchange_ns,
    {
        self.timestamp_exchange_ns
    }

    /// A sell trade can fill resting buy orders.
    pub fn can_fill_bids(&self) -> (r: bool)
        ensures
            r == (self.side == Side::Sell),
    {
        match self.side {
            Side::Buy => false,
            Side::Sell => true,
        }
    }

    /// A buy trade can fill resting sell orders.
    pub fn can_fill_asks(&self) -> (r: bool)
        ensures
            r == (self.side == Side::Buy),
    {
        match self.side {
            Side::Buy => true,
            Side::Sell => false,
        }
    }
}

/// A trade as text: `price 100.00000 Quote, quantity: 5.00000 Base, side: Buy`.
pub open spec fn trade_text(t: Trade<i64>) -> Seq<char> {
    "price "@ + amount_text(t.price as int) + " Quote, quantity: "@ + amount_text(t.quantity as int) + " Base, side: "@
        + match t.side {
        Side::Buy => "Buy"@,
        Side::Sell => "Sell"@,
    }
}

impl Trade<i64> {
    /// The trade as text.
    pub fn to_string(&self) -> (r: String)
        ensures
            r@ == trade_text(*self),
    {
        let mut s = String::from_str("price ");
        push_amount(&mut s, self.price);
        s.append(" Quote, quantity: ");
        push_amount(&mut s, self.quantity);
        s.append(" Base, side: ");
        match self.side {
            Side::Buy => s.append("Buy"),
            Side::Sell => s.append("Sell"),
        }
        proof {
            assert(s@ =~= trade_text(*self));
        }
        s
    }
}

/// A trade fills a resting order only from the other side, and only at a price strictly
/// better than the order's limit: a sell trade below a buy limit, a buy trade above a sell limit.
pub proof fn trade_fills_only_when_strictly_crossing(t: Trade<i64>, o: PendingLimitOrder)
    ensures
        t.side == o.side ==> !t.fills(o),
        t.fills(o) <==> (o.side == Side::Buy && t.side == Side::Sell && t.price < o.limit_price) || (o.side
            == Side::Sell && t.side == Side::Buy && t.price > o.limit_price),
{
}

impl Bba {
    pub open spec fn verdict(self, price_filter: PriceFilter) -> Result<(), Error> {
        if price_filter.price_verdict(self.bid as int) is Err {
            price_filter.price_verdict(self.bid as int)
        } else if price_filter.price_verdict(self.ask as int) is Err {
            price_filter.price_verdict(self.ask as int)
        } else if self.bid >= self.ask {
            Err(Error::BidAskCrossed)
        } else {
            Ok(())
        }
    }

    /// Check both quotes against the price filter, and that the bid is below the ask.
    pub fn validate_market_update(&self, price_filter: &PriceFilter) -> (r: Result<(), Error>)
        requires
            price_filter.wf(),
        ensures
            r == self.verdict(*price_filter),
    {
        let b = price_filter.validate_price(self.bid);
        if b.is_err() {
            return b;
        }
        let a = price_filter.validate_price(self.ask);
        if a.is_err() {
            return a;
        }
        if self.bid >= self.ask {
            return Err(Error::BidAskCrossed);
        }
        Ok(())
    }
}

/// Information from the market that drives the exchange.
#[derive(Debug, Clone, Copy, PartialEq, Eq, Structural)]
pub enum MarketUpdate {
    Bba(Bba),
    Trade(Trade<i64>),
}

impl MarketUpdate {
    pub open spec fn verdict(self, price_filter: PriceFilter) -> Result<(), Error> {
        match self {
            MarketUpdate::Bba(b) => b.verdict(price_filter),
            MarketUpdate::Trade(t) => price_filter.price_verdict(t.price as int),
        }
    }

    pub open spec fn applied_to(self, m: MarketState) -> MarketState {
        match self {
            MarketUpdate::Bba(b) => MarketState { bid: b.bid, ask: b.ask, current_ts_ns: b.timestamp_exchange_ns, ..m },
            MarketUpdate::Trade(t) => MarketState {
                last_trade_price: t.price,
                current_ts_ns: t.timestamp_exchange_ns,
                ..m
            },
        }
    }

    pub open spec fn can_fill(self) -> bool {
        self is Trade
    }

    /// Whether this kind of update can fill resting limit orders at all.
    pub fn can_fill_limit_orders(&self) -> (r: bool)
        ensures
            r == self.can_fill(),
    {
        match self {
            MarketUpdate::Bba(_) => false,
            MarketUpdate::Trade(_) => true,
        }
    }

    /// Check the update against the price filter.
    pub fn validate_market_update(&self, price_filter: &PriceFilter) -> (r: Result<(), Error>)
        requires
            price_filter.wf(),
        ensures
            r == self.verdict(*price_filter),
    {
        match self {
            MarketUpdate::Bba(b) => b.validate_market_update(price_filter),
            MarketUpdate::Trade(t) => t.validate_market_update(price_filter),
        }
    }

    pub fn timestamp_exchange_ns(&self) -> (r: i64)
        ensures
            r == match self {
                MarketUpdate::Bba(b) => b.timestamp_exchange_ns,
                MarketUpdate::Trade(t) => t.timestamp_exchange_ns,
            },
    {
        match self {
            MarketUpdate::Bba(b) => b.timestamp_exchange_ns,
            MarketUpdate::Trade(t) => t.timestamp_exchange_ns,
        }
    }
}

impl MarketState {
    /// Validate `update` and, if it passes, apply it and take its timestamp as the current time.
    pub fn update_state(&mut self, update: &MarketUpdate, price_filter: &PriceFilter) -> (r: Result<(), Error>)
        requires
            old(self).wf(),
            price_filter.wf(),
            price_filter.max_price <= AMOUNT_MAX,
        ensures
            r == update.verdict(*price_filter),
            r is Ok ==> *final(self) == update.applied_to(*old(self)),
            r is Err ==> *final(self) == *old(self),
            final(self).wf(),
    {
        let v = update.validate_market_update(price_filter);
        if v.is_err() {
            return v;
        }
        match update {
            MarketUpdate::Bba(b) => {
                self.bid = b.bid;
                self.ask = b.ask;
                self.current_ts_ns = b.timestamp_exchange_ns;
            },
            MarketUpdate::Trade(t) => {
                t.update_market_state(self);
                self.current_ts_ns = t.timestamp_exchange_ns;
            },
        }
        Ok(())
    }
}

} // verus!
