//! The position that a simulation holds.

use crate::amount::Amount;
use crate::fills::Position;
use crate::models::MarketSnapshot;
use crate::orders::{BatchView, OrderView, PendingBatch, PendingOrder, Side};
use crate::trader;
use crate::trader::{snapshot_key, Trader, TraderView};
use vstd::prelude::*;

verus! {

/// `position` and one more order: a matched order adds its size and its price times its size
/// to its side.
pub open spec fn with_order<A: Amount>(position: Position<A>, order: OrderView<A>) -> Position<A> {
    if order.matched {
        let cost = order.price.product(order.size);
        match order.side {
            Side::Up => Position {
                up_shares: position.up_shares.sum(order.size),
                up_cost: position.up_cost.sum(cost),
                ..position
            },
            Side::Down => Position {
                down_shares: position.down_shares.sum(order.size),
                down_cost: position.down_cost.sum(cost),
                ..position
            },
        }
    } else {
        position
    }
}

/// `position` and `orders`, one after the other.
pub open spec fn with_orders<A: Amount>(
    position: Position<A>,
    orders: Seq<OrderView<A>>,
) -> Position<A>
    decreases orders.len(),
{
    if orders.len() == 0 {
        position
    } else {
        with_order(with_orders(position, orders.drop_last()), orders.last())
    }
}

/// What the matched orders of `batches` amount to, in the order in which they were placed.
pub open spec fn matched_position<A: Amount>(batches: Seq<BatchView<A>>) -> Position<A>
    decreases batches.len(),
{
    if batches.len() == 0 {
        Position::none()
    } else {
        with_orders(matched_position(batches.drop_last()), batches.last().orders)
    }
}

fn add_orders<A: Amount>(position: Position<A>, orders: &Vec<PendingOrder<A>>) -> (sum: Position<A>)
    ensures
        sum == with_orders(position, orders.deep_view()),
{
    let ghost all = orders.deep_view();
    let mut sum: Position<A> = position;
    let mut i: usize = 0;
    assert(all.take(0) =~= Seq::<OrderView<A>>::empty());
    while i < orders.len()
        invariant
            i <= orders@.len(),
            all == orders.deep_view(),
            sum == with_orders(position, all.take(i as int)),
        decreases orders@.len() - i,
    {
        let order: &PendingOrder<A> = &orders[i];
        assert(all.take(i + 1).drop_last() =~= all.take(i as int));
        assert(all.take(i + 1).last() == order.deep_view());
        if order.matched {
            let cost: A = order.price.times(order.size);
            match order.side {
                Side::Up => {
                    sum.up_shares = sum.up_shares.plus(order.size);
                    sum.up_cost = sum.up_cost.plus(cost);
                },
                Side::Down => {
                    sum.down_shares = sum.down_shares.plus(order.size);
                    sum.down_cost = sum.down_cost.plus(cost);
                },
            }
        }
        i = i + 1;
    }
    assert(all.take(all.len() as int) =~= all);
    sum
}

/// What the matched orders of `batches` amount to.
pub fn simulated_position<A: Amount>(batches: &Vec<PendingBatch<A>>) -> (position: Position<A>)
    ensures
        position == matched_position(batches.deep_view()),
{
    let ghost all = batches.deep_view();
    let zero: A = A::from_decimal(0, 0);
    let mut position: Position<A> = Position {
        up_shares: zero,
        down_shares: zero,
        up_cost: zero,
        down_cost: zero,
    };
    let mut i: usize = 0;
    assert(all.take(0) =~= Seq::<BatchView<A>>::empty());
    while i < batches.len()
        invariant
            i <= batches@.len(),
            all == batches.deep_view(),
            position == matched_position(all.take(i as int)),
        decreases batches@.len() - i,
    {
        assert(all.take(i + 1).drop_last() =~= all.take(i as int));
        assert(all.take(i + 1).last() == batches@[i as int].deep_view());
        position = add_orders(position, &batches[i].orders);
        i = i + 1;
    }
    assert(all.take(all.len() as int) =~= all);
    position
}

impl<A: Amount> TraderView<A> {
    /// The books once the matched orders of a simulation are entered as its position in the
    /// market of `snapshot`.
    pub open spec fn with_simulated_position(self, snapshot: MarketSnapshot) -> Self {
        if self.simulation_mode {
            self.with_position(
                snapshot,
                matched_position(self.batches(trader::key_of(snapshot))),
            )
        } else {
            self
        }
    }
}

impl<A: Amount> Trader<A> {
    /// In simulation, enters what the matched orders amount to as the position in the market
    /// of the snapshot, so that it is settled when the market closes.
    pub fn enter_simulated_position(&mut self, snapshot: &MarketSnapshot)
        requires
            old(self).wf(),
        ensures
            final(self).wf(),
            final(self)@ == old(self)@.with_simulated_position(*snapshot),
    {
        if self.simulation_mode {
            let key: String = snapshot_key(snapshot);
            let position: Position<A> = match self.pending_batches.get(key.as_str()) {
                Some(batches) => simulated_position(batches),
                None => {
                    let none: Vec<PendingBatch<A>> = Vec::new();
                    assert(none.deep_view() =~= Seq::<BatchView<A>>::empty());
                    simulated_position(&none)
                },
            };
            self.enter_position(snapshot, position);
        }
    }
}

} // verus!
