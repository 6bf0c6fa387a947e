use vstd::prelude::*;

verus! {

/// Side of an order or a trade.
#[derive(Debug, Clone, Copy, PartialEq, Eq, Structural)]
pub enum Side {
    Buy,
    Sell,
}

impl Side {
    pub open spec fn flipped(self) -> Side {
        match self {
            Side::Buy => Side::Sell,
            Side::Sell => Side::Buy,
        }
    }

    /// The opposite side.
    pub fn inverted(self) -> (r: Side)
        ensures
            r == self.flipped(),
    {
        match self {
            Side::Buy => Side::Sell,
            Side::Sell => Side::Buy,
        }
    }
}


/// How a limit order that would take liquidity is treated.
#[derive(Debug, Clone, Copy, PartialEq, Eq, Structural)]
pub enum RePricing {
    /// Reject an order that would cross the book, so that it only ever makes liquidity.
    GoodTilCrossing,
}

/// Every error that the exchange reports.
#[derive(Debug, Clone, Copy, PartialEq, Eq, Structural)]
pub enum Error {
    PriceTooLow,
    PriceTooHigh,
    PriceNotMultipleOfTick,
    PriceOutOfBand,
    QtyTooLow,
    QtyTooHigh,
    QtyNotMultipleOfStep,
    /// A good-till-crossing limit order would have crossed the opposite quote.
    GoodTillCrossingRejected { limit_price: i64, away_market_quotation_price: i64 },
    MaxActiveOrders,
    NotEnoughAvailableBalance,
    Liquidation,
    OrderIdNotFound { order_id: u64 },
    UserOrderIdNotFound { user_order_id: u64 },
    OrderNoLongerActive,
    AmendQtyAlreadyFilled,
    RateLimitExceeded,
    /// A quote update whose bid is not strictly below its ask.
    BidAskCrossed,
}

/// A limit order as the user writes it, before the exchange accepts it.
#[derive(Debug, Clone, Copy, PartialEq, Eq, Structural)]
pub struct LimitOrder {
    pub side: Side,
    pub limit_price: i64,
    pub total_quantity: i64,
    pub remaining_quantity: i64,
    pub re_pricing: RePricing,
    /// An opaque tag of the user's choosing.
    pub user_order_id: u64,
}

impl LimitOrder {
    /// A new good-till-crossing limit order for `quantity` at `limit_price`.
    pub fn new(side: Side, limit_price: i64, quantity: i64) -> (r: Result<LimitOrder, Error>)
        ensures
            limit_price <= 0 ==> r == Err::<LimitOrder, Error>(Error::PriceTooLow),
            limit_price > 0 && quantity <= 0 ==> r == Err::<LimitOrder, Error>(Error::QtyTooLow),
            limit_price > 0 && quantity > 0 ==> r == Ok::<LimitOrder, Error>(
                LimitOrder {
                    side,
                    limit_price,
                    total_quantity: quantity,
                    remaining_quantity: quantity,
                    re_pricing: RePricing::GoodTilCrossing,
                    user_order_id: 0,
                },
            ),
    {
        if limit_price <= 0 {
            return Err(Error::PriceTooLow);
        }
        if quantity <= 0 {
            return Err(Error::QtyTooLow);
        }
        Ok(
            LimitOrder {
                side,
                limit_price,
                total_quantity: quantity,
                remaining_quantity: quantity,
                re_pricing: RePricing::GoodTilCrossing,
                user_order_id: 0,
            },
        )
    }

    /// The accepted order, with the id and timestamp that the exchange gave it.
    pub fn into_pending(self, id: u64, submit_ts: i64) -> (r: PendingLimitOrder)
        ensures
            r == self.pending_with(id, submit_ts),
    {
        PendingLimitOrder {
            side: self.side,
            limit_price: self.limit_price,
            total_quantity: self.total_quantity,
            remaining_quantity: self.remaining_quantity,
            re_pricing: self.re_pricing,
            user_order_id: self.user_order_id,
            id,
            submit_ts,
        }
    }

    pub open spec fn pending_with(self, id: u64, submit_ts: i64) -> PendingLimitOrder {
        PendingLimitOrder {
            side: self.side,
            limit_price: self.limit_price,
            total_quantity: self.total_quantity,
            remaining_quantity: self.remaining_quantity,
            re_pricing: self.re_pricing,
            user_order_id: self.user_order_id,
            id,
            submit_ts,
        }
    }
}

/// A limit order that rests on the exchange.
#[derive(Debug, Clone, Copy, PartialEq, Eq, Structural)]
pub struct PendingLimitOrder {
    pub side: Side,
    pub limit_price: i64,
    pub total_quantity: i64,
    pub remaining_quantity: i64,
    pub re_pricing: RePricing,
    pub user_order_id: u64,
    /// The id that the exchange gave the order.
    pub id: u64,
    /// When the exchange accepted the order, in nanoseconds.
    pub submit_ts: i64,
}

impl PendingLimitOrder {
    /// What a fill of `filled_quantity` leaves of the order.
    pub open spec fn after_fill(self, filled_quantity: i64) -> PendingLimitOrder {
        PendingLimitOrder { remaining_quantity: (self.remaining_quantity - filled_quantity) as i64, ..self }
    }

    /// The event that a fill of `filled_quantity`, for which `fee` was paid, produces.
    pub open spec fn fill_event(self, filled_quantity: i64, fee: i128, ts: i64) -> LimitOrderFill {
        if filled_quantity == self.remaining_quantity {
            LimitOrderFill::FullyFilled {
                filled_quantity,
                fee,
                order_id: self.id,
                side: self.side,
                limit_price: self.limit_price,
                fill_ts: ts,
            }
        } else {
            LimitOrderFill::PartiallyFilled {
                filled_quantity,
                fee,
                order_after_fill: self.after_fill(filled_quantity),
            }
        }
    }

    /// Fill `filled_quantity` of the order and describe the fill.
    pub fn fill(&mut self, filled_quantity: i64, fee: i128, ts: i64) -> (r: LimitOrderFill)
        requires
            0 < filled_quantity <= old(self).remaining_quantity,
        ensures
            *final(self) == old(self).after_fill(filled_quantity),
            r == old(self).fill_event(filled_quantity, fee, ts),
    {
        let full = filled_quantity == self.remaining_quantity;
        self.remaining_quantity = self.remaining_quantity - filled_quantity;
        if full {
            LimitOrderFill::FullyFilled {
                filled_quantity,
                fee,
                order_id: self.id,
                side: self.side,
                limit_price: self.limit_price,
                fill_ts: ts,
            }
        } else {
            LimitOrderFill::PartiallyFilled { filled_quantity, fee, order_after_fill: *self }
        }
    }
}

/// What a fill of a resting limit order reports.
#[derive(Debug, Clone, Copy, PartialEq, Eq, Structural)]
pub enum LimitOrderFill {
    PartiallyFilled { filled_quantity: i64, fee: i128, order_after_fill: PendingLimitOrder },
    FullyFilled { filled_quantity: i64, fee: i128, order_id: u64, side: Side, limit_price: i64, fill_ts: i64 },
}

impl LimitOrderFill {
    pub open spec fn quantity(self) -> i64 {
        match self {
            LimitOrderFill::PartiallyFilled { filled_quantity, .. } => filled_quantity,
            LimitOrderFill::FullyFilled { filled_quantity, .. } => filled_quantity,
        }
    }

    /// Id of the order that was filled.
    pub open spec fn order_id(self) -> u64 {
        match self {
            LimitOrderFill::PartiallyFilled { order_after_fill, .. } => order_after_fill.id,
            LimitOrderFill::FullyFilled { order_id, .. } => order_id,
        }
    }

    pub open spec fn side(self) -> Side {
        match self {
            LimitOrderFill::PartiallyFilled { order_after_fill, .. } => order_after_fill.side,
            LimitOrderFill::FullyFilled { side, .. } => side,
        }
    }

    /// Price of the fill: the order's limit price.
    pub open spec fn price(self) -> i64 {
        match self {
            LimitOrderFill::PartiallyFilled { order_after_fill, .. } => order_after_fill.limit_price,
            LimitOrderFill::FullyFilled { limit_price, .. } => limit_price,
        }
    }
}

/// A market order as the user writes it.
#[derive(Debug, Clone, Copy, PartialEq, Eq, Structural)]
pub struct MarketOrder {
    pub side: Side,
    pub quantity: i64,
    pub user_order_id: u64,
}

impl MarketOrder {
    /// A new market order for `quantity`.
    pub fn new(side: Side, quantity: i64) -> (r: Result<MarketOrder, Error>)
        ensures
            quantity <= 0 ==> r == Err::<MarketOrder, Error>(Error::QtyTooLow),
            quantity > 0 ==> r == Ok::<MarketOrder, Error>(MarketOrder { side, quantity, user_order_id: 0 }),
    {
        if quantity <= 0 {
            return Err(Error::QtyTooLow);
        }
        Ok(MarketOrder { side, quantity, user_order_id: 0 })
    }
}

/// A market order that the exchange executed.
#[derive(Debug, Clone, Copy, PartialEq, Eq, Structural)]
pub struct FilledMarketOrder {
    pub side: Side,
    pub quantity: i64,
    pub user_order_id: u64,
    pub id: u64,
    pub submit_ts: i64,
    pub avg_fill_price: i64,
    pub fill_ts: i64,
}

/// Which active limit order to cancel.
#[derive(Debug, Clone, Copy, PartialEq, Eq, Structural)]
pub enum CancelBy {
    OrderId(u64),
    UserOrderId(u64),
}

} // verus!
