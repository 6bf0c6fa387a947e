use vstd::prelude::*;
use crate::currency::AMOUNT_MAX;

verus! {

/// The quotes and the last trade that the exchange has seen.
#[derive(Debug, Clone, Copy, PartialEq, Eq, Structural)]
pub struct MarketState {
    pub bid: i64,
    pub ask: i64,
    pub last_trade_price: i64,
    pub current_ts_ns: i64,
}

impl MarketState {
    /// No quote yet, or a bid strictly below the ask.
    pub open spec fn wf(self) -> bool {
        ||| (self.bid == 0 && self.ask == 0)
        ||| (0 < self.bid < self.ask <= AMOUNT_MAX)
    }

    pub open spec fn has_quotes(self) -> bool {
        self.bid > 0
    }

    pub open spec fn mid_spec(self) -> int {
        (self.bid + self.ask) / 2
    }

    /// A market state with no quote and no trade yet.
    pub fn new() -> (r: MarketState)
        ensures
            r == (MarketState { bid: 0, ask: 0, last_trade_price: 0, current_ts_ns: 0 }),
            r.wf(),
    {
        MarketState { bid: 0, ask: 0, last_trade_price: 0, current_ts_ns: 0 }
    }

    /// The price halfway between bid and ask, rounded down.
    pub fn mid_price(&self) -> (r: i64)
        requires
            self.wf(),
        ensures
            r == self.mid_spec(),
            0 <= r <= AMOUNT_MAX,
    {
        (self.bid + self.ask) / 2
    }

    /// Set the best bid and ask.
    pub fn set_bid_ask(&mut self, bid: i64, ask: i64)
        requires
            0 < bid < ask <= AMOUNT_MAX,
        ensures
            *final(self) == (MarketState { bid, ask, ..*old(self) }),
            final(self).wf(),
    {
        self.bid = bid;
        self.ask = ask;
    }
}

} // verus!
