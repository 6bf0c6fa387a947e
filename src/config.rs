use vstd::prelude::*;
use crate::currency::{AMOUNT_MAX, SCALE};
use crate::filters::{PriceFilter, QuantityFilter};

verus! {

/// Largest number of limit orders that a configuration may let rest at once.
pub const OPEN_ORDERS_MAX: usize = 1024;

/// The traded contract: its filters, fees and margin requirements.
/// Fees and requirements are fixed-point fractions with five decimals.
#[derive(Debug, Clone, Copy, PartialEq, Eq, Structural)]
pub struct ContractSpec {
    pub price_filter: PriceFilter,
    pub quantity_filter: QuantityFilter,
    pub fee_maker: i64,
    pub fee_taker: i64,
    pub init_margin_req: i64,
    pub maintenance_margin_req: i64,
}

impl ContractSpec {
    pub open spec fn wf(self) -> bool {
        &&& self.price_filter.wf()
        &&& self.quantity_filter.wf()
        &&& 0 <= self.fee_maker <= SCALE
        &&& 0 <= self.fee_taker <= SCALE
        &&& 0 <= self.init_margin_req <= SCALE
        &&& 0 <= self.maintenance_margin_req <= SCALE
    }
}

/// What an exchange is created with.
#[derive(Debug, Clone, Copy, PartialEq, Eq, Structural)]
pub struct Config {
    pub contract_spec: ContractSpec,
    pub orders_per_second: u16,
    pub max_num_open_orders: usize,
    pub starting_wallet_balance: i64,
}

impl Config {
    pub open spec fn wf(self) -> bool {
        &&& self.contract_spec.wf()
        &&& 1 <= self.orders_per_second
        &&& 1 <= self.max_num_open_orders <= OPEN_ORDERS_MAX
        &&& 0 <= self.starting_wallet_balance
    }

    /// Whether the configuration is one that an exchange can be created with.
    pub fn is_valid(&self) -> (r: bool)
        ensures
            r == self.wf(),
    {
        let cs = &self.contract_spec;
        let pf = &cs.price_filter;
        let qf = &cs.quantity_filter;
        0 < pf.min_price && pf.min_price <= pf.max_price && pf.max_price <= AMOUNT_MAX
            && 0 < pf.tick_size && 0 <= pf.multiplier_down && pf.multiplier_down <= SCALE
            && SCALE <= pf.multiplier_up && pf.multiplier_up <= crate::filters::MULTIPLIER_MAX
            && 0 < qf.min_quantity && qf.min_quantity <= qf.max_quantity && qf.max_quantity
            <= AMOUNT_MAX && 0 < qf.step_size && 0 <= cs.fee_maker && cs.fee_maker <= SCALE
            && 0 <= cs.fee_taker && cs.fee_taker <= SCALE && 0 <= cs.init_margin_req
            && cs.init_margin_req <= SCALE && 0 <= cs.maintenance_margin_req
            && cs.maintenance_margin_req <= SCALE && 1 <= self.orders_per_second && 1
            <= self.max_num_open_orders && self.max_num_open_orders <= OPEN_ORDERS_MAX && 0
            <= self.starting_wallet_balance
    }
}

} // verus!
