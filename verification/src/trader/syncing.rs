//! The position as the exchange sees it.

use crate::amount::Amount;
use crate::fills;
use crate::fills::{bought_order_ids, position, Position};
use crate::models::{Fill, MarketSnapshot, TokenPrice};
use crate::orders;
use crate::orders::{mark_confirmed, PendingBatch};
use crate::trader;
use crate::trader::closing::{CycleTrade, TradeView};
use crate::trader::{snapshot_key, Trader, TraderView};
use vstd::prelude::*;

verus! {

/// A position as the exchange's fills give it.
pub struct PositionReport<A> {
    pub position: Position<A>,
    pub total_cost: A,
    pub pnl_if_up_wins: A,
    pub pnl_if_down_wins: A,
}

/// `cost / shares`, or zero where there are no shares.
pub open spec fn average_price<A: Amount>(cost: A, shares: A) -> A {
    if A::decimal(0, 0).is_below(shares) {
        cost.quotient(shares)
    } else {
        A::decimal(0, 0)
    }
}

fn average<A: Amount>(cost: A, shares: A) -> (price: A)
    ensures
        price == average_price(cost, shares),
{
    let zero: A = A::from_decimal(0, 0);
    if zero.below(shares) {
        cost.over(shares)
    } else {
        zero
    }
}

/// The name of a token that may be missing.
pub open spec fn token_name(token: Option<TokenPrice>) -> Option<Seq<char>> {
    match token {
        Some(token) => Some(token.token_id@),
        None => None,
    }
}

fn token_id_of(token: &Option<TokenPrice>) -> (token_id: Option<String>)
    ensures
        token_id.deep_view() == token_name(*token),
{
    match token {
        Some(token) => Some(token.token_id.clone()),
        None => None,
    }
}

/// The trade that a position in the market of `snapshot` makes.
pub open spec fn trade_of<A: Amount>(snapshot: MarketSnapshot, position: Position<A>) -> TradeView<
    A,
> {
    TradeView {
        condition_id: snapshot.btc_market_15m.condition_id@,
        period_timestamp: snapshot.btc_15m_period_timestamp,
        market_duration_secs: snapshot.market_duration_secs,
        up_token_id: token_name(snapshot.btc_market_15m.up_token),
        down_token_id: token_name(snapshot.btc_market_15m.down_token),
        up_shares: position.up_shares,
        down_shares: position.down_shares,
        up_avg_price: average_price(position.up_cost, position.up_shares),
        down_avg_price: average_price(position.down_cost, position.down_shares),
    }
}

impl<A: Amount> TraderView<A> {
    /// The books once the exchange has filled the orders that it calls by one of `ids`; in
    /// simulation it fills none.
    pub open spec fn with_fills(self, key: Seq<char>, ids: Set<Seq<char>>) -> Self {
        if !self.simulation_mode && self.pending.contains_key(key) {
            TraderView {
                pending: self.pending.insert(key, orders::confirmed(self.pending[key], ids)),
                ..self
            }
        } else {
            self
        }
    }

    /// The books once `position` is known to be held in the market of `snapshot`.
    pub open spec fn with_position(self, snapshot: MarketSnapshot, position: Position<A>) -> Self {
        if position.is_held() {
            TraderView {
                trades: self.trades.insert(trader::key_of(snapshot), trade_of(snapshot, position)),
                ..self
            }
        } else {
            self
        }
    }
}

/// `report` shows `position`: if a side wins, its shares pay one each, and the cost of both
/// sides is lost.
pub open spec fn is_position_report<A: Amount>(
    report: PositionReport<A>,
    position: Position<A>,
) -> bool {
    &&& report.position == position
    &&& report.total_cost == position.cost()
    &&& report.pnl_if_up_wins == position.up_shares.difference(position.cost())
    &&& report.pnl_if_down_wins == position.down_shares.difference(position.cost())
}

/// What the fills of the market of `snapshot` amount to.
pub open spec fn filled_position<A: Amount>(
    snapshot: MarketSnapshot,
    filled: Seq<Fill<A>>,
) -> Position<A> {
    fills::position_of(
        filled,
        token_name(snapshot.btc_market_15m.up_token),
        token_name(snapshot.btc_market_15m.down_token),
    )
}

impl<A: Amount> Trader<A> {
    /// Enters a position in the market of the snapshot, and reports it if there is one.
    pub fn enter_position(&mut self, snapshot: &MarketSnapshot, position: Position<A>) -> (report:
        Option<PositionReport<A>>)
        requires
            old(self).wf(),
        ensures
            final(self).wf(),
            final(self)@ == old(self)@.with_position(*snapshot, position),
            report is Some <==> position.is_held(),
            report is Some ==> is_position_report(report->0, position),
    {
        let zero: A = A::from_decimal(0, 0);
        if !(zero.below(position.up_shares) || zero.below(position.down_shares)) {
            return None;
        }
        let total_cost: A = position.up_cost.plus(position.down_cost);
        let trade: CycleTrade<A> = CycleTrade {
            condition_id: snapshot.btc_market_15m.condition_id.clone(),
            period_timestamp: snapshot.btc_15m_period_timestamp,
            market_duration_secs: snapshot.market_duration_secs,
            up_token_id: token_id_of(&snapshot.btc_market_15m.up_token),
            down_token_id: token_id_of(&snapshot.btc_market_15m.down_token),
            up_shares: position.up_shares,
            down_shares: position.down_shares,
            up_avg_price: average(position.up_cost, position.up_shares),
            down_avg_price: average(position.down_cost, position.down_shares),
        };
        self.trades.insert(snapshot_key(snapshot), trade);
        Some(
            PositionReport {
                position,
                total_cost,
                pnl_if_up_wins: position.up_shares.minus(total_cost),
                pnl_if_down_wins: position.down_shares.minus(total_cost),
            },
        )
    }

    /// Marks the orders of the market that the exchange calls by one of `ids` as matched.
    pub fn confirm_orders(&mut self, snapshot: &MarketSnapshot, ids: &Vec<String>)
        requires
            old(self).wf(),
        ensures
            final(self).wf(),
            final(self)@ == old(self)@.with_fills(
                trader::key_of(*snapshot),
                ids.deep_view().to_set(),
            ),
    {
        if !self.simulation_mode {
            let key: String = snapshot_key(snapshot);
            match self.pending_batches.remove(key.as_str()) {
                Some(batches) => {
                    let mut batches: Vec<PendingBatch<A>> = batches;
                    mark_confirmed(&mut batches, ids);
                    self.pending_batches.insert(key, batches);
                },
                None => {},
            }
        }
        assert(self@ =~= old(self)@.with_fills(
            trader::key_of(*snapshot),
            ids.deep_view().to_set(),
        ));
    }

    /// Takes the exchange's fills in the market of the snapshot: in production marks the
    /// orders that they fill as matched; works out the position, enters it, and reports it if
    /// there is one.
    pub fn sync_position_and_log_pnl(&mut self, snapshot: &MarketSnapshot, filled: &Vec<Fill<A>>) -> (
        report: Option<PositionReport<A>>)
        requires
            old(self).wf(),
        ensures
            final(self).wf(),
            final(self)@ == old(self)@.with_fills(
                trader::key_of(*snapshot),
                fills::bought_ids(filled@),
            ).with_position(*snapshot, filled_position(*snapshot, filled@)),
            fills::raises_ascii_sides(filled@),
            report is Some <==> filled_position(*snapshot, filled@).is_held(),
            report is Some ==> is_position_report(
                report->0,
                filled_position(*snapshot, filled@),
            ),
    {
        let up_token: Option<String> = token_id_of(&snapshot.btc_market_15m.up_token);
        let down_token: Option<String> = token_id_of(&snapshot.btc_market_15m.down_token);
        let position: Position<A> = position(filled, &up_token, &down_token);
        let order_ids: Vec<String> = bought_order_ids(filled);
        self.confirm_orders(snapshot, &order_ids);
        self.enter_position(snapshot, position)
    }
}

} // verus!
