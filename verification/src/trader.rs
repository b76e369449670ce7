//! The trader's books and decisions.
//!
//! - A human decides when to act; the price feed is shown to them.
//! - Placing a batch puts limit buys on one side: on Up at ask + 0.01, on Down at the ask plus
//!   the configured offset. Cancelling takes back the unmatched orders of one side.
//! - In simulation an order counts as matched once the ask has come down to its price, and the
//!   matched orders are the position; in production both come from the exchange's fills.

use crate::amount::Amount;
use crate::market_key;
use crate::market_key::market_key;
use crate::models::{MarketSnapshot, TokenPrice};
use crate::orders;
use crate::orders::{
    holdings, mark_filled, matched_prices, BatchView, Holdings, HoldingsView, PendingBatch, Side,
};
use crate::text_map::TextMap;
use crate::trader::closing::{CycleTrade, TradeView};
use vstd::prelude::*;

pub mod accounts;
pub mod cancelling;
pub mod closing;
pub mod expiring;
pub mod laws;
pub mod placing;
pub mod simulating;
pub mod syncing;

verus! {

/// The trader's settings and books.
pub struct Trader<A> {
    simulation_mode: bool,
    batch_count: usize,
    shares_per_limit_order: A,
    min_side_price: A,
    max_side_price: A,
    limit_order_price_offset_down: A,
    /// Market key to the batches placed there, oldest first.
    pending_batches: TextMap<Vec<PendingBatch<A>>>,
    /// Market key to the holdings reported last.
    last_pnl_log: TextMap<Holdings<A>>,
    /// Market key to the time at which fills were last asked for.
    last_fill_sync: TextMap<u64>,
    /// Market key to the position that waits for the market to close.
    trades: TextMap<CycleTrade<A>>,
    total_profit: A,
    period_profit: A,
    /// Condition IDs of the markets that have been settled.
    closure_checked: TextMap<bool>,
}

/// A `Trader`, seen as a mathematical value.
#[verifier::ext_equal]
pub struct TraderView<A> {
    pub simulation_mode: bool,
    pub batch_count: usize,
    pub shares_per_limit_order: A,
    pub min_side_price: A,
    pub max_side_price: A,
    pub limit_order_price_offset_down: A,
    pub pending: Map<Seq<char>, Seq<BatchView<A>>>,
    pub logged: Map<Seq<char>, HoldingsView<A>>,
    pub synced: Map<Seq<char>, u64>,
    pub trades: Map<Seq<char>, TradeView<A>>,
    pub total_profit: A,
    pub period_profit: A,
    pub checked: Map<Seq<char>, bool>,
}

impl<A> View for Trader<A> {
    type V = TraderView<A>;

    closed spec fn view(&self) -> TraderView<A> {
        TraderView {
            simulation_mode: self.simulation_mode,
            batch_count: self.batch_count,
            shares_per_limit_order: self.shares_per_limit_order,
            min_side_price: self.min_side_price,
            max_side_price: self.max_side_price,
            limit_order_price_offset_down: self.limit_order_price_offset_down,
            pending: self.pending_batches@,
            logged: self.last_pnl_log@,
            synced: self.last_fill_sync@,
            trades: self.trades@,
            total_profit: self.total_profit,
            period_profit: self.period_profit,
            checked: self.closure_checked@,
        }
    }
}

// Reading a snapshot.

/// The key under which the market of `snapshot` is kept.
pub open spec fn key_of(snapshot: MarketSnapshot) -> Seq<char> {
    market_key::market_key_of(
        snapshot.btc_market_15m.condition_id@,
        snapshot.btc_15m_period_timestamp,
    )
}

/// The token of one side.
pub open spec fn token_of(snapshot: MarketSnapshot, side: Side) -> Option<TokenPrice> {
    match side {
        Side::Up => snapshot.btc_market_15m.up_token,
        Side::Down => snapshot.btc_market_15m.down_token,
    }
}

/// The ask of one side: zero where there is no token or no ask.
pub open spec fn quoted_ask<A: Amount>(snapshot: MarketSnapshot, side: Side) -> A {
    match token_of(snapshot, side) {
        Some(token) => token.ask_or_zero().amount(),
        None => A::decimal(0, 0),
    }
}

/// The market is still open and both sides are on offer.
pub open spec fn is_live<A: Amount>(snapshot: MarketSnapshot) -> bool {
    &&& snapshot.btc_15m_time_remaining != 0
    &&& !quoted_ask::<A>(snapshot, Side::Up).is_at_most(A::decimal(0, 0))
    &&& !quoted_ask::<A>(snapshot, Side::Down).is_at_most(A::decimal(0, 0))
}

fn snapshot_key(snapshot: &MarketSnapshot) -> (key: String)
    ensures
        key@ == key_of(*snapshot),
{
    market_key(
        snapshot.btc_market_15m.condition_id.as_str(),
        snapshot.btc_15m_period_timestamp,
    )
}

fn side_token(snapshot: &MarketSnapshot, side: Side) -> (token: &Option<TokenPrice>)
    ensures
        *token == token_of(*snapshot, side),
{
    match side {
        Side::Up => &snapshot.btc_market_15m.up_token,
        Side::Down => &snapshot.btc_market_15m.down_token,
    }
}

fn side_ask<A: Amount>(snapshot: &MarketSnapshot, side: Side) -> (ask: A)
    requires
        snapshot.wf(),
    ensures
        ask == quoted_ask::<A>(*snapshot, side),
{
    match side_token(snapshot, side) {
        Some(token) => {
            let ask = token.ask_price();
            ask.to_amount()
        },
        None => A::from_decimal(0, 0),
    }
}

/// What is held in a market, and what it would pay.
pub struct HoldingsReport<A> {
    pub held: Holdings<A>,
    pub pnl_if_up_wins: A,
    pub pnl_if_down_wins: A,
}

/// What a snapshot calls for.
pub struct SnapshotOutcome<A> {
    /// Holdings to show, where they have changed since they were last shown.
    pub report: Option<HoldingsReport<A>>,
    /// Ask the exchange for this market's fills.
    pub sync_fills: bool,
}

impl<A: Amount> TraderView<A> {
    /// The batches placed in a market.
    pub open spec fn batches(self, key: Seq<char>) -> Seq<BatchView<A>> {
        if self.pending.contains_key(key) {
            self.pending[key]
        } else {
            Seq::empty()
        }
    }

    /// What is held in a market.
    pub open spec fn held(self, key: Seq<char>) -> HoldingsView<A> {
        orders::holdings_of(self.batches(key))
    }

    /// The books once the orders that fill at the given asks are marked as matched.
    pub open spec fn with_marks(self, key: Seq<char>, up_ask: A, down_ask: A) -> Self {
        if self.pending.contains_key(key) {
            TraderView {
                pending: self.pending.insert(
                    key,
                    orders::marked(self.pending[key], up_ask, down_ask),
                ),
                ..self
            }
        } else {
            self
        }
    }

    /// The books once the orders that fill at the given asks are marked as matched, which in
    /// production the exchange's fills alone decide.
    pub open spec fn with_price_marks(self, key: Seq<char>, up_ask: A, down_ask: A) -> Self {
        if self.simulation_mode {
            self.with_marks(key, up_ask, down_ask)
        } else {
            self
        }
    }

    /// Something is held or waiting in the market, and it differs from what was last shown.
    pub open spec fn report_due(self, key: Seq<char>) -> bool {
        let held = self.held(key);
        &&& !(held.up_shares.sum(held.down_shares).is_at_most(A::decimal(0, 0)) && held.unmatched
            == 0)
        &&& !(self.logged.contains_key(key) && same_holdings(held, self.logged[key]))
    }

    /// The books once the holdings of a market have been shown, if they are due.
    pub open spec fn with_report(self, key: Seq<char>) -> Self {
        if self.report_due(key) {
            TraderView { logged: self.logged.insert(key, self.held(key)), ..self }
        } else {
            self
        }
    }

    /// Production only: fills were never asked for, or 20 seconds ago at least.
    pub open spec fn sync_due(self, key: Seq<char>, now: u64) -> bool {
        &&& !self.simulation_mode
        &&& self.synced.contains_key(key) ==> now >= u64::MAX || now >= self.synced[key] + 20
    }

    /// The books once fills have been asked for, if that is due.
    pub open spec fn with_sync(self, key: Seq<char>, now: u64) -> Self {
        if self.sync_due(key, now) {
            TraderView { synced: self.synced.insert(key, now), ..self }
        } else {
            self
        }
    }

    /// The books after `snapshot`, taken at the time `now`.
    pub open spec fn after_snapshot(self, snapshot: MarketSnapshot, now: u64) -> Self {
        let key = key_of(snapshot);
        if is_live::<A>(snapshot) {
            self.with_price_marks(
                key,
                quoted_ask(snapshot, Side::Up),
                quoted_ask(snapshot, Side::Down),
            ).with_report(key).with_simulated_position(snapshot).with_sync(key, now)
        } else {
            self
        }
    }
}

/// `left` and `right` have the same number of unmatched orders, and their amounts differ by
/// less than a millionth.
pub open spec fn same_holdings<A: Amount>(left: HoldingsView<A>, right: HoldingsView<A>) -> bool {
    &&& close(left.up_shares, right.up_shares)
    &&& close(left.down_shares, right.down_shares)
    &&& left.unmatched == right.unmatched
    &&& close(left.total_deposit, right.total_deposit)
}

/// `left` and `right` differ by less than a millionth.
pub open spec fn close<A: Amount>(left: A, right: A) -> bool {
    left.difference(right).absolute().is_below(A::decimal(1, 6))
}

fn nearly_equal<A: Amount>(left: A, right: A) -> (answer: bool)
    ensures
        answer == close(left, right),
{
    left.minus(right).magnitude().below(A::from_decimal(1, 6))
}

fn equal_holdings<A: Amount>(left: &Holdings<A>, right: &Holdings<A>) -> (answer: bool)
    ensures
        answer == same_holdings(left.deep_view(), right.deep_view()),
{
    nearly_equal(left.up_shares, right.up_shares) && nearly_equal(
        left.down_shares,
        right.down_shares,
    ) && left.unmatched == right.unmatched && nearly_equal(left.total_deposit, right.total_deposit)
}

impl<A: Amount> Trader<A> {
    /// The books are in order: no market is kept twice.
    pub closed spec fn wf(&self) -> bool {
        &&& self.pending_batches.wf()
        &&& self.last_pnl_log.wf()
        &&& self.last_fill_sync.wf()
        &&& self.trades.wf()
        &&& self.closure_checked.wf()
    }

    /// A trader with empty books.
    pub fn new(
        simulation_mode: bool,
        batch_count: usize,
        shares_per_limit_order: A,
        min_side_price: A,
        max_side_price: A,
        limit_order_price_offset_down: A,
    ) -> (trader: Self)
        ensures
            trader.wf(),
            trader@ == (TraderView {
                simulation_mode,
                batch_count,
                shares_per_limit_order,
                min_side_price,
                max_side_price,
                limit_order_price_offset_down,
                pending: Map::empty(),
                logged: Map::empty(),
                synced: Map::empty(),
                trades: Map::empty(),
                total_profit: A::decimal(0, 0),
                period_profit: A::decimal(0, 0),
                checked: Map::empty(),
            }),
    {
        Trader {
            simulation_mode,
            batch_count,
            shares_per_limit_order,
            min_side_price,
            max_side_price,
            limit_order_price_offset_down,
            pending_batches: TextMap::new(),
            last_pnl_log: TextMap::new(),
            last_fill_sync: TextMap::new(),
            trades: TextMap::new(),
            total_profit: A::from_decimal(0, 0),
            period_profit: A::from_decimal(0, 0),
            closure_checked: TextMap::new(),
        }
    }

    fn mark_market(&mut self, key: &String, up_ask: A, down_ask: A)
        requires
            old(self).wf(),
        ensures
            final(self).wf(),
            final(self)@ == old(self)@.with_marks(key@, up_ask, down_ask),
    {
        match self.pending_batches.remove(key.as_str()) {
            Some(batches) => {
                let mut batches: Vec<PendingBatch<A>> = batches;
                mark_filled(&mut batches, up_ask, down_ask);
                self.pending_batches.insert(key.clone(), batches);
            },
            None => {},
        }
        assert(self@ =~= old(self)@.with_marks(key@, up_ask, down_ask));
    }

    fn market_holdings(&self, key: &str) -> (held: Holdings<A>)
        requires
            self.wf(),
        ensures
            held.deep_view() == self@.held(key@),
    {
        match self.pending_batches.get(key) {
            Some(batches) => holdings(batches),
            None => {
                let none: Vec<PendingBatch<A>> = Vec::new();
                assert(none.deep_view() =~= Seq::<BatchView<A>>::empty());
                holdings(&none)
            },
        }
    }

    /// Reports what is held in a market if that has changed since it was last reported.
    pub fn log_matched_and_pnl(&mut self, market_key: &String) -> (report: Option<HoldingsReport<A>>)
        requires
            old(self).wf(),
        ensures
            final(self).wf(),
            final(self)@ == old(self)@.with_report(market_key@),
            report is Some <==> old(self)@.report_due(market_key@),
            report is Some ==> is_report(report->0, old(self)@.held(market_key@)),
    {
        let held: Holdings<A> = self.market_holdings(market_key.as_str());
        let matched: A = held.up_shares.plus(held.down_shares);
        if matched.at_most(A::from_decimal(0, 0)) && held.unmatched == 0 {
            return None;
        }
        let same: bool = match self.last_pnl_log.get(market_key.as_str()) {
            Some(last) => equal_holdings(&held, last),
            None => false,
        };
        if same {
            return None;
        }
        self.last_pnl_log.insert(market_key.clone(), held);
        Some(
            HoldingsReport {
                held,
                pnl_if_up_wins: held.up_shares.minus(held.total_deposit),
                pnl_if_down_wins: held.down_shares.minus(held.total_deposit),
            },
        )
    }

    fn take_sync_turn(&mut self, key: &String, now: u64) -> (due: bool)
        requires
            old(self).wf(),
        ensures
            final(self).wf(),
            due == old(self)@.sync_due(key@, now),
            final(self)@ == old(self)@.with_sync(key@, now),
    {
        if self.simulation_mode {
            return false;
        }
        let due: bool = match self.last_fill_sync.get(key.as_str()) {
            Some(last) => now >= (*last).saturating_add(20),
            None => true,
        };
        if due {
            self.last_fill_sync.insert(key.clone(), now);
        }
        due
    }

    /// Takes in one reading of the price feed, and says whether the holdings are to be shown
    /// and whether fills are to be asked for. In simulation it marks the orders that fill and
    /// enters what they amount to as the position in the market.
    pub fn process_snapshot(&mut self, snapshot: &MarketSnapshot, now: u64) -> (outcome:
        SnapshotOutcome<A>)
        requires
            old(self).wf(),
            snapshot.wf(),
        ensures
            final(self).wf(),
            final(self)@ == old(self)@.after_snapshot(*snapshot, now),
            ({
                let key = key_of(*snapshot);
                let marked = old(self)@.with_price_marks(
                    key,
                    quoted_ask(*snapshot, Side::Up),
                    quoted_ask(*snapshot, Side::Down),
                );
                &&& outcome.report is Some <==> is_live::<A>(*snapshot) && marked.report_due(key)
                &&& outcome.report is Some ==> is_report(outcome.report->0, marked.held(key))
                &&& outcome.sync_fills <==> is_live::<A>(*snapshot) && old(self)@.sync_due(key, now)
            }),
    {
        if snapshot.btc_15m_time_remaining == 0 {
            return SnapshotOutcome { report: None, sync_fills: false };
        }
        let zero: A = A::from_decimal(0, 0);
        let up_ask: A = side_ask(snapshot, Side::Up);
        let down_ask: A = side_ask(snapshot, Side::Down);
        if up_ask.at_most(zero) || down_ask.at_most(zero) {
            return SnapshotOutcome { report: None, sync_fills: false };
        }
        let key: String = snapshot_key(snapshot);
        if self.simulation_mode {
            self.mark_market(&key, up_ask, down_ask);
        }
        let report: Option<HoldingsReport<A>> = self.log_matched_and_pnl(&key);
        self.enter_simulated_position(snapshot);
        let sync_fills: bool = self.take_sync_turn(&key, now);
        SnapshotOutcome { report, sync_fills }
    }

    /// The prices at which batches of Up, and of Down, have been matched in a market. One
    /// price per batch and side (not per order), so one batch of 5 orders at $0.52 shows as
    /// $0.52 once.
    pub fn get_matched_bought_prices(&self, market_key: &str) -> (prices: (Vec<A>, Vec<A>))
        requires
            self.wf(),
        ensures
            prices.0@ == orders::bought_prices(self@.batches(market_key@), Side::Up),
            prices.1@ == orders::bought_prices(self@.batches(market_key@), Side::Down),
    {
        match self.pending_batches.get(market_key) {
            Some(batches) => (
                matched_prices(batches, Side::Up),
                matched_prices(batches, Side::Down),
            ),
            None => (Vec::new(), Vec::new()),
        }
    }
}

/// `report` shows `held`: if a side wins, its shares pay one each, and the deposit is lost.
pub open spec fn is_report<A: Amount>(report: HoldingsReport<A>, held: HoldingsView<A>) -> bool {
    &&& report.held.deep_view() == held
    &&& report.pnl_if_up_wins == held.up_shares.difference(held.total_deposit)
    &&& report.pnl_if_down_wins == held.down_shares.difference(held.total_deposit)
}

} // verus!
