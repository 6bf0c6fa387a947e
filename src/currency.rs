use vstd::prelude::*;

verus! {

/// Number of raw units in one whole unit of currency: amounts carry five decimals.
pub const SCALE: i64 = 100_000;

/// Largest price or order quantity, in raw units, that a configuration may allow.
pub const AMOUNT_MAX: i64 = 0x100_0000_0000;

/// Largest position quantity, in raw units, that an account may hold.
pub const POSITION_MAX: i64 = 0x10_0000_0000_0000;

/// Value in quote currency of `qty` base units at `price`, rounded down.
pub open spec fn notional_of(qty: int, price: int) -> int {
    qty * price / (SCALE as int)
}

/// `amount` scaled by a fixed-point `rate` (a fee or margin fraction), rounded down.
pub open spec fn scaled_by(amount: int, rate: int) -> int {
    amount * rate / (SCALE as int)
}

pub proof fn lemma_notional_bounds(qty: int, price: int)
    requires
        0 <= qty <= POSITION_MAX,
        0 <= price <= AMOUNT_MAX,
    ensures
        0 <= notional_of(qty, price) <= 0x1_0000_0000_0000_0000_0000,
{
    assert(0 <= qty * price <= POSITION_MAX * AMOUNT_MAX) by (nonlinear_arith)
        requires
            0 <= qty <= POSITION_MAX,
            0 <= price <= AMOUNT_MAX,
    ;
}

pub proof fn lemma_scaled_bounds(amount: int, rate: int)
    requires
        0 <= amount,
        0 <= rate <= SCALE,
    ensures
        0 <= scaled_by(amount, rate) <= amount,
{
    assert(0 <= amount * rate <= amount * SCALE) by (nonlinear_arith)
        requires
            0 <= amount,
            0 <= rate <= SCALE,
    ;
    vstd::arithmetic::div_mod::lemma_div_is_ordered(amount * rate, amount * SCALE, SCALE as int);
    vstd::arithmetic::div_mod::lemma_div_by_multiple(amount, SCALE as int);
}

/// Value in quote currency of `qty` at `price`.
pub fn notional(qty: i64, price: i64) -> (r: i128)
    requires
        0 <= qty <= POSITION_MAX,
        0 <= price <= AMOUNT_MAX,
    ensures
        r == notional_of(qty as int, price as int),
        0 <= r <= 0x1_0000_0000_0000_0000_0000,
{
    proof {
        lemma_notional_bounds(qty as int, price as int);
    }
    let p: u128 = (qty as u128) * (price as u128);
    (p / (SCALE as u128)) as i128
}

/// `amount` scaled by the fixed-point `rate`.
pub fn scale_by(amount: i128, rate: i64) -> (r: i128)
    requires
        0 <= amount <= 0x1_0000_0000_0000_0000_0000_0000,
        0 <= rate <= SCALE,
    ensures
        r == scaled_by(amount as int, rate as int),
        0 <= r <= amount,
{
    proof {
        lemma_scaled_bounds(amount as int, rate as int);
        assert(amount * rate <= 0x1_0000_0000_0000_0000_0000_0000 * SCALE) by (nonlinear_arith)
            requires
                0 <= amount <= 0x1_0000_0000_0000_0000_0000_0000,
                0 <= rate <= SCALE,
        ;
    }
    let p: u128 = (amount as u128) * (rate as u128);
    (p / (SCALE as u128)) as i128
}

} // verus!
