use vstd::prelude::*;

verus! {

/// Largest magnitude that any balance may reach.
pub const BALANCE_LIMIT: i128 = 0x100_0000_0000_0000_0000_0000_0000_0000;

/// The wallet, split into what is free and what is locked, with the running totals.
#[derive(Debug, Clone, Copy, PartialEq, Eq, Structural)]
pub struct Balances {
    /// What was deposited.
    pub wallet_balance: i128,
    /// Free for new margin.
    pub available: i128,
    /// Locked by the open position.
    pub position_margin: i128,
    /// Locked by resting limit orders.
    pub order_margin: i128,
    /// All fees paid so far.
    pub total_fees_paid: i128,
    /// All profit and loss realized so far.
    pub realized_pnl: i128,
}

pub open spec fn bounded(x: int, k: int) -> bool {
    -k <= x <= k
}

impl Balances {
    /// Every field's magnitude is at most `k`.
    pub open spec fn within(self, k: int) -> bool {
        &&& bounded(self.wallet_balance as int, k)
        &&& bounded(self.available as int, k)
        &&& bounded(self.position_margin as int, k)
        &&& bounded(self.order_margin as int, k)
        &&& bounded(self.total_fees_paid as int, k)
        &&& bounded(self.realized_pnl as int, k)
    }

    /// No field differs from the same field of `other` by more than `d`.
    pub open spec fn close_to(self, other: Balances, d: int) -> bool {
        &&& bounded(self.wallet_balance - other.wallet_balance, d)
        &&& bounded(self.available - other.available, d)
        &&& bounded(self.position_margin - other.position_margin, d)
        &&& bounded(self.order_margin - other.order_margin, d)
        &&& bounded(self.total_fees_paid - other.total_fees_paid, d)
        &&& bounded(self.realized_pnl - other.realized_pnl, d)
    }

    pub proof fn lemma_close_to_trans(a: Balances, b: Balances, c: Balances, d1: int, d2: int)
        requires
            a.close_to(b, d1),
            b.close_to(c, d2),
        ensures
            a.close_to(c, d1 + d2),
    {
    }

    pub proof fn lemma_close_to_within(a: Balances, b: Balances, k: int, d: int)
        requires
            a.close_to(b, d),
            b.within(k),
        ensures
            a.within(k + d),
    {
    }

    /// Margins and fees are never negative, and the partitions add up to the deposit,
    /// plus what was realized, less the fees.
    pub open spec fn wf(self) -> bool {
        &&& self.within(BALANCE_LIMIT as int)
        &&& self.position_margin >= 0
        &&& self.order_margin >= 0
        &&& self.total_fees_paid >= 0
        &&& self.available + self.position_margin + self.order_margin == self.wallet_balance
            + self.realized_pnl - self.total_fees_paid
    }

    pub open spec fn new_spec(wallet_balance: i64) -> Balances {
        Balances {
            wallet_balance: wallet_balance as i128,
            available: wallet_balance as i128,
            position_margin: 0,
            order_margin: 0,
            total_fees_paid: 0,
            realized_pnl: 0,
        }
    }

    /// Balances of a fresh account: all of the deposit is available.
    pub fn new(wallet_balance: i64) -> (r: Balances)
        requires
            0 <= wallet_balance,
        ensures
            r.wf(),
            r == (Balances {
                wallet_balance: wallet_balance as i128,
                available: wallet_balance as i128,
                position_margin: 0,
                order_margin: 0,
                total_fees_paid: 0,
                realized_pnl: 0,
            }),
    {
        Balances {
            wallet_balance: wallet_balance as i128,
            available: wallet_balance as i128,
            position_margin: 0,
            order_margin: 0,
            total_fees_paid: 0,
            realized_pnl: 0,
        }
    }

    /// Lock `amount` more as order margin if that much is available.
    pub fn try_reserve_order_margin(&mut self, amount: i128) -> (r: bool)
        requires
            old(self).wf(),
            0 <= amount,
            old(self).order_margin + amount <= BALANCE_LIMIT,
        ensures
            final(self).wf(),
            r == (amount <= old(self).available),
            r ==> *final(self) == (Balances {
                available: (old(self).available - amount) as i128,
                order_margin: (old(self).order_margin + amount) as i128,
                ..*old(self)
            }),
            !r ==> *final(self) == *old(self),
    {
        if amount > self.available {
            return false;
        }
        self.available = self.available - amount;
        self.order_margin = self.order_margin + amount;
        true
    }

    /// Lock `amount` more as order margin, even where less is available.
    pub fn reserve_order_margin(&mut self, amount: i128)
        requires
            old(self).wf(),
            0 <= amount,
            old(self).order_margin + amount <= BALANCE_LIMIT,
            old(self).available - amount >= -BALANCE_LIMIT,
        ensures
            final(self).wf(),
            *final(self) == (Balances {
                available: (old(self).available - amount) as i128,
                order_margin: (old(self).order_margin + amount) as i128,
                ..*old(self)
            }),
    {
        self.available = self.available - amount;
        self.order_margin = self.order_margin + amount;
    }

    /// Release `amount` of order margin.
    pub fn free_order_margin(&mut self, amount: i128)
        requires
            old(self).wf(),
            0 <= amount <= old(self).order_margin,
            old(self).available + amount <= BALANCE_LIMIT,
        ensures
            final(self).wf(),
            *final(self) == (Balances {
                available: (old(self).available + amount) as i128,
                order_margin: (old(self).order_margin - amount) as i128,
                ..*old(self)
            }),
    {
        self.available = self.available + amount;
        self.order_margin = self.order_margin - amount;
    }

    /// Lock exactly `margin` as position margin: the old margin is released first.
    pub fn set_position_margin(&mut self, margin: i128)
        requires
            old(self).wf(),
            0 <= margin <= BALANCE_LIMIT,
            bounded(old(self).available + old(self).position_margin - margin, BALANCE_LIMIT as int),
        ensures
            final(self).wf(),
            *final(self) == (Balances {
                available: (old(self).available + old(self).position_margin - margin) as i128,
                position_margin: margin,
                ..*old(self)
            }),
    {
        self.available = self.available + self.position_margin - margin;
        self.position_margin = margin;
    }

    /// Pay `fee` out of the available balance.
    pub fn account_for_fee(&mut self, fee: i128)
        requires
            old(self).wf(),
            0 <= fee,
            old(self).available - fee >= -BALANCE_LIMIT,
            old(self).total_fees_paid + fee <= BALANCE_LIMIT,
        ensures
            final(self).wf(),
            *final(self) == (Balances {
                available: (old(self).available - fee) as i128,
                total_fees_paid: (old(self).total_fees_paid + fee) as i128,
                ..*old(self)
            }),
    {
        self.available = self.available - fee;
        self.total_fees_paid = self.total_fees_paid + fee;
    }

    /// Book realized profit (or, when negative, loss) into the available balance.
    pub fn apply_realized_pnl(&mut self, pnl: i128)
        requires
            old(self).wf(),
            bounded(old(self).available + pnl, BALANCE_LIMIT as int),
            bounded(old(self).realized_pnl + pnl, BALANCE_LIMIT as int),
        ensures
            final(self).wf(),
            *final(self) == (Balances {
                available: (old(self).available + pnl) as i128,
                realized_pnl: (old(self).realized_pnl + pnl) as i128,
                ..*old(self)
            }),
    {
        self.available = self.available + pnl;
        self.realized_pnl = self.realized_pnl + pnl;
    }
}

} // verus!
