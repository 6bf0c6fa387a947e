use vstd::prelude::*;
use crate::config::OPEN_ORDERS_MAX;
use crate::currency::AMOUNT_MAX;
use crate::types::{Error, PendingLimitOrder, Side};

verus! {

/// A resting order whose numbers are in range.
pub open spec fn order_wf(o: PendingLimitOrder) -> bool {
    &&& 0 < o.remaining_quantity <= o.total_quantity <= AMOUNT_MAX
    &&& 0 < o.limit_price <= AMOUNT_MAX
}

/// Orders in range, with strictly increasing ids (so in order of arrival).
pub open spec fn orders_wf(s: Seq<PendingLimitOrder>) -> bool {
    &&& forall|i: int| 0 <= i < s.len() ==> order_wf(#[trigger] s[i])
    &&& forall|i: int, j: int| 0 <= i < j < s.len() ==> s[i].id < s[j].id
}

pub open spec fn has_id(s: Seq<PendingLimitOrder>, oid: u64) -> bool {
    exists|i: int| 0 <= i < s.len() && #[trigger] s[i].id == oid
}

/// `a` is at least as aggressive as `b` for orders on `side`: buys by higher price,
/// sells by lower price, then by earlier arrival.
pub open spec fn ahead_or_same(side: Side, a: PendingLimitOrder, b: PendingLimitOrder) -> bool {
    match side {
        Side::Buy => a.limit_price > b.limit_price || (a.limit_price == b.limit_price && a.id <= b.id),
        Side::Sell => a.limit_price < b.limit_price || (a.limit_price == b.limit_price && a.id <= b.id),
    }
}

/// `s[i]` is the order on `side` that is filled first: the best bid or the best ask.
pub open spec fn is_best(s: Seq<PendingLimitOrder>, side: Side, i: int) -> bool {
    &&& 0 <= i < s.len()
    &&& s[i].side == side
    &&& forall|j: int| 0 <= j < s.len() && #[trigger] s[j].side == side ==> ahead_or_same(side, s[i], s[j])
}

pub open spec fn has_side(s: Seq<PendingLimitOrder>, side: Side) -> bool {
    exists|i: int| 0 <= i < s.len() && #[trigger] s[i].side == side
}

/// Once the order with id `oid` is taken out, no order with that id is left.
pub proof fn lemma_removed_id_absent(s: Seq<PendingLimitOrder>, i: int)
    requires
        orders_wf(s),
        0 <= i < s.len(),
    ensures
        !has_id(s.remove(i), s[i].id),
        orders_wf(s.remove(i)),
{
    let t = s.remove(i);
    assert forall|k: int| 0 <= k < t.len() implies (#[trigger] t[k]).id != s[i].id by {
        let k0 = if k < i { k } else { k + 1 };
        assert(t[k] == s[k0]);
    }
    assert forall|a: int, b: int| 0 <= a < b < t.len() implies t[a].id < t[b].id by {
        let a0 = if a < i { a } else { a + 1 };
        let b0 = if b < i { b } else { b + 1 };
        assert(t[a] == s[a0]);
        assert(t[b] == s[b0]);
    }
    assert forall|a: int| 0 <= a < t.len() implies order_wf(#[trigger] t[a]) by {
        let a0 = if a < i { a } else { a + 1 };
        assert(t[a] == s[a0]);
    }
}

/// The resting limit orders of the account, in order of arrival.
#[derive(Debug, Clone)]
pub struct ActiveLimitOrders {
    orders: Vec<PendingLimitOrder>,
    capacity: usize,
}

impl View for ActiveLimitOrders {
    type V = Seq<PendingLimitOrder>;

    closed spec fn view(&self) -> Seq<PendingLimitOrder> {
        self.orders@
    }
}

impl ActiveLimitOrders {
    /// How many orders may rest at once.
    pub closed spec fn cap(self) -> nat {
        self.capacity as nat
    }

    pub open spec fn wf(self) -> bool {
        &&& orders_wf(self@)
        &&& self@.len() <= self.cap() <= OPEN_ORDERS_MAX
    }

    /// No order rests; at most `capacity` may rest at once.
    pub fn new(capacity: usize) -> (r: ActiveLimitOrders)
        requires
            capacity <= OPEN_ORDERS_MAX,
        ensures
            r.wf(),
            r@ == Seq::<PendingLimitOrder>::empty(),
            r.cap() == capacity,
    {
        ActiveLimitOrders { orders: Vec::new(), capacity }
    }

    pub fn num_active(&self) -> (r: usize)
        ensures
            r == self@.len(),
    {
        self.orders.len()
    }

    pub fn is_empty(&self) -> (r: bool)
        ensures
            r == (self@.len() == 0),
    {
        self.orders.len() == 0
    }

    /// The resting orders, in order of arrival.
    pub fn as_vec(&self) -> (r: &Vec<PendingLimitOrder>)
        ensures
            r@ == self@,
    {
        &self.orders
    }

    /// The resting orders and `order` after them, as if it were accepted.
    pub fn with_order(&self, order: PendingLimitOrder) -> (r: Vec<PendingLimitOrder>)
        ensures
            r@ == self@.push(order),
    {
        let mut v: Vec<PendingLimitOrder> = Vec::new();
        let mut i: usize = 0;
        while i < self.orders.len()
            invariant
                i <= self@.len(),
                v@ == self@.take(i as int),
            decreases self@.len() - i,
        {
            v.push(self.orders[i]);
            proof {
                assert(self@.take(i + 1) =~= self@.take(i as int).push(self@[i as int]));
            }
            i += 1;
        }
        v.push(order);
        proof {
            assert(self@.take(self@.len() as int) =~= self@);
        }
        v
    }

    /// The order at position `i` in order of arrival.
    pub fn get(&self, i: usize) -> (r: PendingLimitOrder)
        requires
            i < self@.len(),
        ensures
            r == self@[i as int],
    {
        self.orders[i]
    }

    /// Add an order that arrived after all those resting, unless the book is full.
    pub fn insert(&mut self, order: PendingLimitOrder) -> (r: Result<(), Error>)
        requires
            old(self).wf(),
            order_wf(order),
            forall|i: int| 0 <= i < old(self)@.len() ==> (#[trigger] old(self)@[i]).id < order.id,
        ensures
            final(self).wf(),
            final(self).cap() == old(self).cap(),
            r is Ok <==> old(self)@.len() < old(self).cap(),
            r is Ok ==> final(self)@ == old(self)@.push(order),
            r is Err ==> r == Err::<(), Error>(Error::MaxActiveOrders) && *final(self) == *old(self),
    {
        if self.orders.len() >= self.capacity {
            return Err(Error::MaxActiveOrders);
        }
        self.orders.push(order);
        Ok(())
    }

    /// The position of the order with id `oid`, if one rests.
    pub fn position_of(&self, oid: u64) -> (r: Option<usize>)
        requires
            self.wf(),
        ensures
            r is None <==> !has_id(self@, oid),
            r matches Some(i) ==> i < self@.len() && self@[i as int].id == oid,
    {
        let mut i: usize = 0;
        while i < self.orders.len()
            invariant
                i <= self@.len(),
                forall|j: int| 0 <= j < i ==> (#[trigger] self@[j]).id != oid,
            decreases self@.len() - i,
        {
            if self.orders[i].id == oid {
                return Some(i);
            }
            i += 1;
        }
        None
    }

    /// The order with id `oid` on `side`, if one rests.
    pub fn get_by_id(&self, oid: u64, side: Side) -> (r: Option<PendingLimitOrder>)
        requires
            self.wf(),
        ensures
            r is None <==> !(exists|i: int| 0 <= i < self@.len() && #[trigger] self@[i].id == oid && self@[i].side == side),
            r matches Some(o) ==> o.id == oid && o.side == side && self@.contains(o),
    {
        match self.position_of(oid) {
            None => None,
            Some(i) => {
                let o = self.orders[i];
                if o.side == side {
                    Some(o)
                } else {
                    proof {
                        assert forall|k: int| 0 <= k < self@.len() && #[trigger] self@[k].id == oid implies self@[k].side != side by {
                            if k != i {
                                if k < i {
                                    assert(self@[k].id < self@[i as int].id);
                                } else {
                                    assert(self@[i as int].id < self@[k].id);
                                }
                            }
                        }
                    }
                    None
                }
            },
        }
    }

    /// Take the order at position `i` out of the book.
    pub fn remove_at(&mut self, i: usize) -> (r: PendingLimitOrder)
        requires
            old(self).wf(),
            i < old(self)@.len(),
        ensures
            final(self).wf(),
            final(self).cap() == old(self).cap(),
            r == old(self)@[i as int],
            final(self)@ == old(self)@.remove(i as int),
    {
        let r = self.orders.remove(i);
        proof {
            let s = self@;
            assert forall|a: int, b: int| 0 <= a < b < s.len() implies s[a].id < s[b].id by {
                let a0 = if a < i { a } else { a + 1 };
                let b0 = if b < i { b } else { b + 1 };
                assert(s[a] == old(self)@[a0]);
                assert(s[b] == old(self)@[b0]);
            }
            assert forall|a: int| 0 <= a < s.len() implies order_wf(#[trigger] s[a]) by {
                let a0 = if a < i { a } else { a + 1 };
                assert(s[a] == old(self)@[a0]);
            }
        }
        r
    }

    /// Put `order` in place of the resting order at position `i`, which has the same id.
    pub fn replace_at(&mut self, i: usize, order: PendingLimitOrder)
        requires
            old(self).wf(),
            i < old(self)@.len(),
            order_wf(order),
            order.id == old(self)@[i as int].id,
        ensures
            final(self).wf(),
            final(self).cap() == old(self).cap(),
            final(self)@ == old(self)@.update(i as int, order),
    {
        self.orders.set(i, order);
    }

    /// The position of the first order, in order of arrival, tagged `uid`.
    pub fn position_of_user_id(&self, uid: u64) -> (r: Option<usize>)
        requires
            self.wf(),
        ensures
            r is None <==> !(exists|j: int| 0 <= j < self@.len() && #[trigger] self@[j].user_order_id == uid),
            r matches Some(i) ==> i < self@.len() && self@[i as int].user_order_id == uid && forall|j: int|
                0 <= j < i ==> (#[trigger] self@[j]).user_order_id != uid,
    {
        let mut i: usize = 0;
        while i < self.orders.len()
            invariant
                i <= self@.len(),
                forall|j: int| 0 <= j < i ==> (#[trigger] self@[j]).user_order_id != uid,
            decreases self@.len() - i,
        {
            if self.orders[i].user_order_id == uid {
                return Some(i);
            }
            i += 1;
        }
        None
    }

    /// The resting order on `side` that a crossing trade fills first.
    pub fn peek_best(&self, side: Side) -> (r: Option<usize>)
        requires
            self.wf(),
        ensures
            r is None <==> !has_side(self@, side),
            r matches Some(i) ==> is_best(self@, side, i as int),
    {
        let mut best: Option<usize> = None;
        let mut i: usize = 0;
        while i < self.orders.len()
            invariant
                self.wf(),
                i <= self@.len(),
                best is None ==> forall|j: int| 0 <= j < i ==> (#[trigger] self@[j]).side != side,
                best matches Some(b) ==> b < i && self@[b as int].side == side && forall|j: int|
                    0 <= j < i && #[trigger] self@[j].side == side ==> ahead_or_same(side, self@[b as int], self@[j]),
            decreases self@.len() - i,
        {
            let o = self.orders[i];
            if o.side == side {
                match best {
                    None => {
                        best = Some(i);
                    },
                    Some(b) => {
                        let cur = self.orders[b];
                        assert(cur.id < o.id);
                        let better = match side {
                            Side::Buy => o.limit_price > cur.limit_price,
                            Side::Sell => o.limit_price < cur.limit_price,
                        };
                        if better {
                            best = Some(i);
                        }
                    },
                }
            }
            i += 1;
        }
        best
    }

    /// The resting buy order that is filled first: highest price, then earliest.
    pub fn peek_best_bid(&self) -> (r: Option<PendingLimitOrder>)
        requires
            self.wf(),
        ensures
            r is None <==> !has_side(self@, Side::Buy),
            r matches Some(o) ==> exists|i: int| is_best(self@, Side::Buy, i) && self@[i] == o,
    {
        match self.peek_best(Side::Buy) {
            None => None,
            Some(i) => Some(self.orders[i]),
        }
    }

    /// The resting sell order that is filled first: lowest price, then earliest.
    pub fn peek_best_ask(&self) -> (r: Option<PendingLimitOrder>)
        requires
            self.wf(),
        ensures
            r is None <==> !has_side(self@, Side::Sell),
            r matches Some(o) ==> exists|i: int| is_best(self@, Side::Sell, i) && self@[i] == o,
    {
        match self.peek_best(Side::Sell) {
            None => None,
            Some(i) => Some(self.orders[i]),
        }
    }

    /// Take the order with id `oid` out of the book, if one rests.
    pub fn remove_by_id(&mut self, oid: u64) -> (r: Option<PendingLimitOrder>)
        requires
            old(self).wf(),
        ensures
            final(self).wf(),
            final(self).cap() == old(self).cap(),
            r is None <==> !has_id(old(self)@, oid),
            r is None ==> final(self)@ == old(self)@,
            r matches Some(o) ==> o.id == oid && exists|i: int| 0 <= i < old(self)@.len() && old(self)@[i] == o
                && final(self)@ == old(self)@.remove(i),
            !has_id(final(self)@, oid),
    {
        match self.position_of(oid) {
            None => None,
            Some(i) => {
                proof {
                    lemma_removed_id_absent(self@, i as int);
                }
                Some(self.remove_at(i))
            },
        }
    }

    /// Take the first order, in order of arrival, tagged `uid` out of the book, if one rests.
    pub fn remove_by_user_id(&mut self, uid: u64) -> (r: Option<PendingLimitOrder>)
        requires
            old(self).wf(),
        ensures
            final(self).wf(),
            final(self).cap() == old(self).cap(),
            r is None <==> !(exists|j: int| 0 <= j < old(self)@.len() && #[trigger] old(self)@[j].user_order_id == uid),
            r is None ==> final(self)@ == old(self)@,
            r matches Some(o) ==> o.user_order_id == uid && exists|i: int| 0 <= i < old(self)@.len() && old(self)@[i] == o
                && final(self)@ == old(self)@.remove(i),
    {
        match self.position_of_user_id(uid) {
            None => None,
            Some(i) => Some(self.remove_at(i)),
        }
    }
}

} // verus!
