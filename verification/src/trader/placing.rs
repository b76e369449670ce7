//! Placing batches of limit orders.

use crate::amount::Amount;
use crate::models::{MarketSnapshot, OrderRequest, OrderResponse};
use crate::orders::{BatchView, OrderView, PendingBatch, PendingOrder, Side};
use crate::trader;
use crate::trader::{side_ask, side_token, snapshot_key, Trader, TraderView};
use vstd::prelude::*;

verus! {

/// A batch of equal limit orders to place.
pub struct BatchPlan<A> {
    pub market_key: String,
    pub side: Side,
    pub token_id: String,
    pub price: A,
    /// What was added to the ask.
    pub offset: A,
    pub size: A,
    pub count: usize,
    /// The orders go to the exchange; in simulation they do not.
    pub send: bool,
    /// Unix time in seconds.
    pub placed_at: u64,
}

impl<A: Amount> TraderView<A> {
    /// An order of `side` may be placed: the side has a token, and its ask is above zero and
    /// within the bounds for side prices.
    pub open spec fn may_place(self, snapshot: MarketSnapshot, side: Side) -> bool {
        let ask: A = trader::quoted_ask(snapshot, side);
        &&& trader::token_of(snapshot, side) is Some
        &&& !ask.is_at_most(A::decimal(0, 0))
        &&& !ask.is_below(self.min_side_price)
        &&& !self.max_side_price.is_below(ask)
    }

    /// What is added to the ask: one cent on Up, the configured offset on Down.
    pub open spec fn offset(self, side: Side) -> A {
        match side {
            Side::Up => A::decimal(1, 2),
            Side::Down => self.limit_order_price_offset_down,
        }
    }

    /// The ask and the offset of the side, held to the bounds for side prices.
    pub open spec fn limit_price(self, ask: A, side: Side) -> A {
        ask.sum(self.offset(side)).smaller(self.max_side_price).larger(self.min_side_price)
    }

    /// `plan` is the batch that is to be placed on `side`.
    pub open spec fn is_plan(
        self,
        plan: BatchPlan<A>,
        snapshot: MarketSnapshot,
        side: Side,
        now: u64,
    ) -> bool {
        &&& plan.market_key@ == trader::key_of(snapshot)
        &&& plan.side == side
        &&& plan.token_id@ == trader::token_of(snapshot, side)->0.token_id@
        &&& plan.price == self.limit_price(trader::quoted_ask(snapshot, side), side)
        &&& plan.offset == self.offset(side)
        &&& plan.size == self.shares_per_limit_order
        &&& plan.count == self.batch_count
        &&& plan.send == !self.simulation_mode
        &&& plan.placed_at == now
    }

    /// The books once the batch of `plan` has been placed; `ids` are the exchange's names for
    /// its orders.
    pub open spec fn with_batch(self, plan: BatchPlan<A>, ids: Seq<Seq<char>>) -> Self {
        TraderView {
            pending: self.pending.insert(
                plan.market_key@,
                self.batches(plan.market_key@).push(batch_of(plan, ids)),
            ),
            ..self
        }
    }
}

/// The batch of `plan`: equal, unmatched orders, of which the first ones take the names in
/// `ids`.
pub open spec fn batch_of<A>(plan: BatchPlan<A>, ids: Seq<Seq<char>>) -> BatchView<A> {
    BatchView {
        placed_at: plan.placed_at,
        orders: Seq::new(
            plan.count as nat,
            |i: int|
                OrderView {
                    side: plan.side,
                    price: plan.price,
                    size: plan.size,
                    order_id: if i < ids.len() {
                        Some(ids[i])
                    } else {
                        None
                    },
                    matched: false,
                },
        ),
    }
}

/// `request` is a limit buy with the given token, price and size.
pub open spec fn is_limit_buy(
    request: OrderRequest,
    token_id: Seq<char>,
    price: Seq<char>,
    size: Seq<char>,
) -> bool {
    &&& request.token_id@ == token_id
    &&& request.side@ == "BUY"@
    &&& request.size@ == size
    &&& request.price@ == price
    &&& request.order_type@ == "LIMIT"@
}

/// The order IDs among the exchange's replies; a reply that is missing or has no ID gives
/// none.
pub open spec fn ids_in(replies: Seq<Option<OrderResponse>>) -> Seq<Seq<char>>
    decreases replies.len(),
{
    if replies.len() == 0 {
        Seq::empty()
    } else {
        match replies.last() {
            Some(reply) => match reply.order_id {
                Some(id) => ids_in(replies.drop_last()).push(id@),
                None => ids_in(replies.drop_last()),
            },
            None => ids_in(replies.drop_last()),
        }
    }
}

/// The order IDs among the exchange's replies, in order; `None` stands for an order that the
/// exchange refused.
pub fn placed_order_ids(replies: &Vec<Option<OrderResponse>>) -> (ids: Vec<String>)
    ensures
        ids.deep_view() == ids_in(replies@),
{
    let mut ids: Vec<String> = Vec::new();
    let mut i: usize = 0;
    proof {
        assert(replies@.take(0) =~= Seq::<Option<OrderResponse>>::empty());
        assert(ids.deep_view() =~= Seq::<Seq<char>>::empty());
    }
    while i < replies.len()
        invariant
            i <= replies@.len(),
            ids.deep_view() == ids_in(replies@.take(i as int)),
        decreases replies@.len() - i,
    {
        let ghost before = ids.deep_view();
        assert(replies@.take(i + 1).drop_last() =~= replies@.take(i as int));
        if let Some(reply) = &replies[i] {
            if let Some(id) = &reply.order_id {
                ids.push(id.clone());
                assert(ids.deep_view() =~= before.push(id@));
            }
        }
        i = i + 1;
    }
    assert(replies@.take(replies@.len() as int) =~= replies@);
    ids
}

impl<A: Amount> BatchPlan<A> {
    /// The requests that go to the exchange, with price and size to four decimal places: one
    /// for each order in production, none in simulation.
    pub fn order_requests(&self) -> (requests: Vec<OrderRequest>)
        ensures
            requests@.len() == if self.send {
                self.count as nat
            } else {
                0
            },
            forall|i: int|
                0 <= i < requests@.len() ==> is_limit_buy(
                    #[trigger] requests@[i],
                    self.token_id@,
                    self.price.fixed_text(4),
                    self.size.fixed_text(4),
                ),
    {
        let mut requests: Vec<OrderRequest> = Vec::new();
        if !self.send {
            return requests;
        }
        let price: String = self.price.to_fixed(4);
        let size: String = self.size.to_fixed(4);
        let mut i: usize = 0;
        while i < self.count
            invariant
                i <= self.count,
                price@ == self.price.fixed_text(4),
                size@ == self.size.fixed_text(4),
                requests@.len() == i,
                forall|j: int|
                    0 <= j < i ==> is_limit_buy(
                        #[trigger] requests@[j],
                        self.token_id@,
                        self.price.fixed_text(4),
                        self.size.fixed_text(4),
                    ),
            decreases self.count - i,
        {
            requests.push(
                OrderRequest {
                    token_id: self.token_id.clone(),
                    side: "BUY".to_owned(),
                    size: size.clone(),
                    price: price.clone(),
                    order_type: "LIMIT".to_owned(),
                },
            );
            i = i + 1;
        }
        requests
    }

    fn batch(&self, order_ids: &Vec<String>) -> (batch: PendingBatch<A>)
        ensures
            batch.deep_view() == batch_of(*self, order_ids.deep_view()),
    {
        let mut orders: Vec<PendingOrder<A>> = Vec::new();
        let mut i: usize = 0;
        while i < self.count
            invariant
                i <= self.count,
                orders@.len() == i,
                forall|j: int|
                    0 <= j < i ==> (#[trigger] orders@[j]).deep_view() == batch_of(
                        *self,
                        order_ids.deep_view(),
                    ).orders[j],
            decreases self.count - i,
        {
            let order_id: Option<String> = if i < order_ids.len() {
                Some(order_ids[i].clone())
            } else {
                None
            };
            orders.push(
                PendingOrder {
                    side: self.side,
                    price: self.price,
                    size: self.size,
                    order_id,
                    matched: false,
                },
            );
            i = i + 1;
        }
        let batch = PendingBatch { placed_at: self.placed_at, orders };
        assert(batch.deep_view() =~= batch_of(*self, order_ids.deep_view()));
        batch
    }
}

impl<A: Amount> Trader<A> {
    /// The batch of limit buys on `side` that the snapshot allows, if it allows one.
    pub fn place_side_batch(&self, snapshot: &MarketSnapshot, side: Side, now: u64) -> (plan: Option<
        BatchPlan<A>,
    >)
        requires
            snapshot.wf(),
        ensures
            plan is Some <==> self@.may_place(*snapshot, side),
            plan is Some ==> self@.is_plan(plan->0, *snapshot, side, now),
    {
        match side_token(snapshot, side) {
            Some(token) => {
                let ask: A = side_ask(snapshot, side);
                if ask.at_most(A::from_decimal(0, 0)) {
                    return None;
                }
                if ask.below(self.min_side_price) || self.max_side_price.below(ask) {
                    return None;
                }
                let offset: A = match side {
                    Side::Up => A::from_decimal(1, 2),
                    Side::Down => self.limit_order_price_offset_down,
                };
                let price: A = ask.plus(offset).least(self.max_side_price).greatest(
                    self.min_side_price,
                );
                Some(
                    BatchPlan {
                        market_key: snapshot_key(snapshot),
                        side,
                        token_id: token.token_id.clone(),
                        price,
                        offset,
                        size: self.shares_per_limit_order,
                        count: self.batch_count,
                        send: !self.simulation_mode,
                        placed_at: now,
                    },
                )
            },
            None => None,
        }
    }

    /// The batch of limit buys on Up that the snapshot allows, if it allows one.
    pub fn place_up_batch(&self, snapshot: &MarketSnapshot, now: u64) -> (plan: Option<BatchPlan<A>>)
        requires
            snapshot.wf(),
        ensures
            plan is Some <==> self@.may_place(*snapshot, Side::Up),
            plan is Some ==> self@.is_plan(plan->0, *snapshot, Side::Up, now),
    {
        self.place_side_batch(snapshot, Side::Up, now)
    }

    /// The batch of limit buys on Down that the snapshot allows, if it allows one.
    pub fn place_down_batch(&self, snapshot: &MarketSnapshot, now: u64) -> (plan: Option<
        BatchPlan<A>,
    >)
        requires
            snapshot.wf(),
        ensures
            plan is Some <==> self@.may_place(*snapshot, Side::Down),
            plan is Some ==> self@.is_plan(plan->0, *snapshot, Side::Down, now),
    {
        self.place_side_batch(snapshot, Side::Down, now)
    }

    /// Enters a batch that has been placed; `order_ids` are the exchange's names for its
    /// orders, as `placed_order_ids` gives them.
    pub fn record_batch(&mut self, plan: &BatchPlan<A>, order_ids: &Vec<String>)
        requires
            old(self).wf(),
        ensures
            final(self).wf(),
            final(self)@ == old(self)@.with_batch(*plan, order_ids.deep_view()),
    {
        let batch: PendingBatch<A> = plan.batch(order_ids);
        let mut batches: Vec<PendingBatch<A>> = match self.pending_batches.remove(
            plan.market_key.as_str(),
        ) {
            Some(batches) => batches,
            None => Vec::new(),
        };
        let ghost before = old(self)@.batches(plan.market_key@);
        assert(batches.deep_view() =~= before);
        batches.push(batch);
        assert(batches.deep_view() =~= before.push(batch_of(*plan, order_ids.deep_view())));
        self.pending_batches.insert(plan.market_key.clone(), batches);
        assert(self@ =~= old(self)@.with_batch(*plan, order_ids.deep_view()));
    }
}

} // verus!
