//! Orders that have waited too long.

use crate::amount::Amount;
use crate::models::MarketSnapshot;
use crate::orders;
use crate::orders::{drop_expired, expired_order_ids, PendingBatch};
use crate::trader;
use crate::trader::{snapshot_key, Trader, TraderView};
use vstd::prelude::*;

verus! {

impl<A: Amount> TraderView<A> {
    /// Production only: the exchange's names for the unmatched orders of a market that were
    /// placed `limit` seconds ago or longer; none where the limit is zero.
    pub open spec fn expired(self, key: Seq<char>, now: u64, limit: u64) -> Seq<Seq<char>> {
        if self.simulation_mode {
            Seq::empty()
        } else {
            orders::expired_ids(self.batches(key), now, limit)
        }
    }

    /// The books once those orders are gone.
    pub open spec fn without_expired(self, key: Seq<char>, now: u64, limit: u64) -> Self {
        if !self.simulation_mode && self.pending.contains_key(key) {
            TraderView {
                pending: self.pending.insert(
                    key,
                    orders::unexpired(self.pending[key], now, limit),
                ),
                ..self
            }
        } else {
            self
        }
    }
}

impl<A: Amount> Trader<A> {
    /// The orders in the market of the snapshot that the exchange is to cancel because they
    /// have gone unmatched for `limit` seconds; after that `drop_expired_orders`.
    pub fn expired_orders(&self, snapshot: &MarketSnapshot, now: u64, limit: u64) -> (order_ids: Vec<
        String,
    >)
        requires
            self.wf(),
        ensures
            order_ids.deep_view() == self@.expired(trader::key_of(*snapshot), now, limit),
    {
        let mut order_ids: Vec<String> = Vec::new();
        assert(order_ids.deep_view() =~= Seq::<Seq<char>>::empty());
        if !self.simulation_mode {
            let key: String = snapshot_key(snapshot);
            if let Some(batches) = self.pending_batches.get(key.as_str()) {
                order_ids = expired_order_ids(batches, now, limit);
            }
        }
        order_ids
    }

    /// Drops the orders in the market of the snapshot that have gone unmatched for `limit`
    /// seconds, once the exchange has cancelled them.
    pub fn drop_expired_orders(&mut self, snapshot: &MarketSnapshot, now: u64, limit: u64)
        requires
            old(self).wf(),
        ensures
            final(self).wf(),
            final(self)@ == old(self)@.without_expired(trader::key_of(*snapshot), now, limit),
    {
        if !self.simulation_mode {
            let key: String = snapshot_key(snapshot);
            match self.pending_batches.remove(key.as_str()) {
                Some(batches) => {
                    let rest: Vec<PendingBatch<A>> = drop_expired(batches, now, limit);
                    self.pending_batches.insert(key, rest);
                },
                None => {},
            }
        }
        assert(self@ =~= old(self)@.without_expired(trader::key_of(*snapshot), now, limit));
    }
}

} // verus!
