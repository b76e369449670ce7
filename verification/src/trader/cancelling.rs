//! Cancelling open orders.

use crate::amount::Amount;
use crate::models::MarketSnapshot;
use crate::orders;
use crate::orders::{count_open, drop_open, open_order_ids, PendingBatch, Side};
use crate::trader;
use crate::trader::{snapshot_key, Trader, TraderView};
use vstd::prelude::*;

verus! {

/// What a request to cancel calls for.
pub enum CancelDecision {
    /// Nothing was ever placed in this market.
    NoPending,
    /// No order of this side is open.
    NoOpen,
    /// Production: the exchange is to cancel these orders; after that `drop_open_orders`.
    Cancel { order_ids: Vec<String> },
    /// Simulation: this many orders are to be dropped with `drop_open_orders`.
    Untrack { count: u128 },
}

impl<A: Amount> TraderView<A> {
    /// The books once the unmatched orders of one side of a market are gone.
    pub open spec fn without_open(self, key: Seq<char>, side: Side) -> Self {
        if self.pending.contains_key(key) {
            TraderView {
                pending: self.pending.insert(key, orders::kept(self.pending[key], side)),
                ..self
            }
        } else {
            self
        }
    }

    /// `decision` is what a request to cancel the orders of one side of a market calls for.
    pub open spec fn calls_for(self, decision: CancelDecision, key: Seq<char>, side: Side) -> bool {
        let batches = self.batches(key);
        match decision {
            CancelDecision::NoPending => !self.pending.contains_key(key),
            CancelDecision::NoOpen => {
                &&& self.pending.contains_key(key)
                &&& if self.simulation_mode {
                    orders::open_count(batches, side) == 0
                } else {
                    orders::open_ids(batches, side).len() == 0
                }
            },
            CancelDecision::Cancel { order_ids } => {
                &&& self.pending.contains_key(key)
                &&& !self.simulation_mode
                &&& order_ids.deep_view() == orders::open_ids(batches, side)
                &&& order_ids@.len() > 0
            },
            CancelDecision::Untrack { count } => {
                &&& self.pending.contains_key(key)
                &&& self.simulation_mode
                &&& count == orders::open_count(batches, side)
                &&& count > 0
            },
        }
    }
}

impl<A: Amount> Trader<A> {
    /// What it takes to cancel the open orders of `side` in the market of the snapshot.
    pub fn cancel_side_orders(&self, snapshot: &MarketSnapshot, side: Side) -> (decision:
        CancelDecision)
        requires
            self.wf(),
        ensures
            self@.calls_for(decision, trader::key_of(*snapshot), side),
    {
        let key: String = snapshot_key(snapshot);
        match self.pending_batches.get(key.as_str()) {
            Some(batches) => {
                if self.simulation_mode {
                    let count: u128 = count_open(batches, side);
                    if count == 0 {
                        CancelDecision::NoOpen
                    } else {
                        CancelDecision::Untrack { count }
                    }
                } else {
                    let order_ids: Vec<String> = open_order_ids(batches, side);
                    if order_ids.len() == 0 {
                        CancelDecision::NoOpen
                    } else {
                        CancelDecision::Cancel { order_ids }
                    }
                }
            },
            None => CancelDecision::NoPending,
        }
    }

    /// Cancels all open Up limit orders for the market in the snapshot (production: the
    /// exchange cancels them; simulation: they are dropped).
    pub fn cancel_up_orders(&self, snapshot: &MarketSnapshot) -> (decision: CancelDecision)
        requires
            self.wf(),
        ensures
            self@.calls_for(decision, trader::key_of(*snapshot), Side::Up),
    {
        self.cancel_side_orders(snapshot, Side::Up)
    }

    /// Cancels all open Down limit orders for the market in the snapshot.
    pub fn cancel_down_orders(&self, snapshot: &MarketSnapshot) -> (decision: CancelDecision)
        requires
            self.wf(),
        ensures
            self@.calls_for(decision, trader::key_of(*snapshot), Side::Down),
    {
        self.cancel_side_orders(snapshot, Side::Down)
    }

    /// Drops the unmatched orders of `side` in the market of the snapshot, once the exchange
    /// has cancelled them or where there is no exchange.
    pub fn drop_open_orders(&mut self, snapshot: &MarketSnapshot, side: Side)
        requires
            old(self).wf(),
        ensures
            final(self).wf(),
            final(self)@ == old(self)@.without_open(trader::key_of(*snapshot), side),
    {
        let key: String = snapshot_key(snapshot);
        match self.pending_batches.remove(key.as_str()) {
            Some(batches) => {
                let rest: Vec<PendingBatch<A>> = drop_open(batches, side);
                self.pending_batches.insert(key, rest);
            },
            None => {},
        }
        assert(self@ =~= old(self)@.without_open(trader::key_of(*snapshot), side));
    }
}

} // verus!
