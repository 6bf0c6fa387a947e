use vstd::prelude::*;
use crate::currency::{AMOUNT_MAX, SCALE};
use crate::types::Error;

verus! {

/// Largest band multiplier that a price filter may use (ten times the mid price).
pub const MULTIPLIER_MAX: i64 = 1_000_000;

/// Bounds, tick size and band that every price must respect.
#[derive(Debug, Clone, Copy, PartialEq, Eq, Structural)]
pub struct PriceFilter {
    pub min_price: i64,
    pub max_price: i64,
    pub tick_size: i64,
    /// A limit price may be at most `mid * multiplier_up`.
    pub multiplier_up: i64,
    /// A limit price must be at least `mid * multiplier_down`.
    pub multiplier_down: i64,
}

impl PriceFilter {
    pub open spec fn wf(self) -> bool {
        &&& 0 < self.min_price <= self.max_price <= AMOUNT_MAX
        &&& 0 < self.tick_size
        &&& 0 <= self.multiplier_down <= SCALE <= self.multiplier_up <= MULTIPLIER_MAX
    }

    /// The verdict on a price: its bounds first, then its tick.
    pub open spec fn price_verdict(self, price: int) -> Result<(), Error> {
        if price < self.min_price {
            Err(Error::PriceTooLow)
        } else if price > self.max_price {
            Err(Error::PriceTooHigh)
        } else if price % (self.tick_size as int) != 0 {
            Err(Error::PriceNotMultipleOfTick)
        } else {
            Ok(())
        }
    }

    /// The verdict on a limit price, which must also lie within the band around `mid`.
    pub open spec fn limit_price_verdict(self, price: int, mid: int) -> Result<(), Error> {
        if self.price_verdict(price) is Err {
            self.price_verdict(price)
        } else if price > mid * self.multiplier_up / (SCALE as int) {
            Err(Error::PriceOutOfBand)
        } else if price < mid * self.multiplier_down / (SCALE as int) {
            Err(Error::PriceOutOfBand)
        } else {
            Ok(())
        }
    }

    /// Check a price against the bounds and the tick size.
    pub fn validate_price(&self, price: i64) -> (r: Result<(), Error>)
        requires
            self.wf(),
        ensures
            r == self.price_verdict(price as int),
    {
        if price < self.min_price {
            Err(Error::PriceTooLow)
        } else if price > self.max_price {
            Err(Error::PriceTooHigh)
        } else if price % self.tick_size != 0 {
            Err(Error::PriceNotMultipleOfTick)
        } else {
            Ok(())
        }
    }

    /// Check a limit price against the bounds, the tick size and the band around `mid`.
    pub fn validate_limit_price(&self, price: i64, mid: i64) -> (r: Result<(), Error>)
        requires
            self.wf(),
            0 <= mid <= AMOUNT_MAX,
        ensures
            r == self.limit_price_verdict(price as int, mid as int),
    {
        let v = self.validate_price(price);
        if v.is_err() {
            return v;
        }
        proof {
            assert(0 <= mid * self.multiplier_up <= AMOUNT_MAX * MULTIPLIER_MAX) by (nonlinear_arith)
                requires
                    0 <= mid <= AMOUNT_MAX,
                    0 <= self.multiplier_up <= MULTIPLIER_MAX,
            ;
            assert(0 <= mid * self.multiplier_down <= AMOUNT_MAX * MULTIPLIER_MAX) by (nonlinear_arith)
                requires
                    0 <= mid <= AMOUNT_MAX,
                    0 <= self.multiplier_down <= MULTIPLIER_MAX,
            ;
        }
        let up: i128 = (mid as i128) * (self.multiplier_up as i128) / (SCALE as i128);
        let down: i128 = (mid as i128) * (self.multiplier_down as i128) / (SCALE as i128);
        if (price as i128) > up {
            Err(Error::PriceOutOfBand)
        } else if (price as i128) < down {
            Err(Error::PriceOutOfBand)
        } else {
            Ok(())
        }
    }
}

/// Bounds and step size that every order quantity must respect.
#[derive(Debug, Clone, Copy, PartialEq, Eq, Structural)]
pub struct QuantityFilter {
    pub min_quantity: i64,
    pub max_quantity: i64,
    pub step_size: i64,
}

impl QuantityFilter {
    pub open spec fn wf(self) -> bool {
        &&& 0 < self.min_quantity <= self.max_quantity <= AMOUNT_MAX
        &&& 0 < self.step_size
    }

    pub open spec fn quantity_verdict(self, qty: int) -> Result<(), Error> {
        if qty < self.min_quantity {
            Err(Error::QtyTooLow)
        } else if qty > self.max_quantity {
            Err(Error::QtyTooHigh)
        } else if qty % (self.step_size as int) != 0 {
            Err(Error::QtyNotMultipleOfStep)
        } else {
            Ok(())
        }
    }

    /// The verdict on a limit order's remaining and total quantity: the remaining quantity
    /// is checked first, then neither may exceed what comes after it.
    pub open spec fn quantities_verdict(self, remaining: int, total: int) -> Result<(), Error> {
        if self.quantity_verdict(remaining) is Err {
            self.quantity_verdict(remaining)
        } else if total > self.max_quantity || remaining > total {
            Err(Error::QtyTooHigh)
        } else {
            Ok(())
        }
    }

    /// Check a limit order's remaining quantity, and that its total quantity is within
    /// bounds and not below what remains.
    pub fn validate_order_quantities(&self, remaining: i64, total: i64) -> (r: Result<(), Error>)
        requires
            self.wf(),
        ensures
            r == self.quantities_verdict(remaining as int, total as int),
    {
        let v = self.validate_order_quantity(remaining);
        if v.is_err() {
            return v;
        }
        if total > self.max_quantity || remaining > total {
            return Err(Error::QtyTooHigh);
        }
        Ok(())
    }

    /// Check an order quantity against the bounds and the step size.
    pub fn validate_order_quantity(&self, qty: i64) -> (r: Result<(), Error>)
        requires
            self.wf(),
        ensures
            r == self.quantity_verdict(qty as int),
    {
        if qty < self.min_quantity {
            Err(Error::QtyTooLow)
        } else if qty > self.max_quantity {
            Err(Error::QtyTooHigh)
        } else if qty % self.step_size != 0 {
            Err(Error::QtyNotMultipleOfStep)
        } else {
            Ok(())
        }
    }
}

} // verus!
