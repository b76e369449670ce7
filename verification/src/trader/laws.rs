//! What holds of the trader's books whatever it is told.

use crate::amount;
use crate::amount::{Amount, Micros};
use crate::fills;
use crate::fills::Position;
use crate::market_key;
use crate::models::{Fill, MarketSnapshot};
use crate::orders;
use crate::orders::laws;
use crate::orders::{BatchView, HoldingsView, OrderView, Side};
use crate::trader;
use crate::trader::cancelling::CancelDecision;
use crate::trader::closing::TradeView;
use crate::trader::placing;
use crate::trader::placing::BatchPlan;
use crate::trader::simulating;
use crate::trader::syncing;
use crate::trader::TraderView;
use vstd::prelude::*;

verus! {

/// In simulation nothing goes to the exchange: fills are not asked for, no order is sent, and
/// none is cancelled there.
pub proof fn simulation_stays_offline<A: Amount>(
    books: TraderView<A>,
    snapshot: MarketSnapshot,
    key: Seq<char>,
    side: Side,
    now: u64,
    limit: u64,
    plan: BatchPlan<A>,
    decision: CancelDecision,
)
    requires
        books.simulation_mode,
    ensures
        !books.sync_due(key, now),
        books.is_plan(plan, snapshot, side, now) ==> !plan.send,
        books.calls_for(decision, key, side) ==> !(decision is Cancel),
        books.expired(key, now, limit).len() == 0,
{
}

/// `left` and `right` have the same settings.
pub open spec fn same_settings<A>(left: TraderView<A>, right: TraderView<A>) -> bool {
    &&& left.simulation_mode == right.simulation_mode
    &&& left.batch_count == right.batch_count
    &&& left.shares_per_limit_order == right.shares_per_limit_order
    &&& left.min_side_price == right.min_side_price
    &&& left.max_side_price == right.max_side_price
    &&& left.limit_order_price_offset_down == right.limit_order_price_offset_down
}

/// No operation changes a setting; in particular a simulation stays one.
pub proof fn settings_never_change<A: Amount>(
    books: TraderView<A>,
    snapshot: MarketSnapshot,
    key: Seq<char>,
    side: Side,
    now: u64,
    limit: u64,
    plan: BatchPlan<A>,
    ids: Seq<Seq<char>>,
    filled: Set<Seq<char>>,
    position: Position<A>,
    trade: TradeView<A>,
    winner: Option<Side>,
)
    ensures
        same_settings(books, books.after_snapshot(snapshot, now)),
        same_settings(books, books.with_report(key)),
        same_settings(books, books.with_batch(plan, ids)),
        same_settings(books, books.without_open(key, side)),
        same_settings(books, books.without_expired(key, now, limit)),
        same_settings(books, books.with_fills(key, filled)),
        same_settings(books, books.with_position(snapshot, position)),
        same_settings(books, books.with_simulated_position(snapshot)),
        same_settings(books, books.with_settlement(key, trade, winner)),
{
}

/// What happens in one market leaves the orders, reports and trades of every other market
/// alone.
pub proof fn markets_are_independent<A: Amount>(
    books: TraderView<A>,
    snapshot: MarketSnapshot,
    other: Seq<char>,
    side: Side,
    now: u64,
    limit: u64,
    plan: BatchPlan<A>,
    ids: Seq<Seq<char>>,
    filled: Set<Seq<char>>,
    position: Position<A>,
)
    requires
        other != trader::key_of(snapshot),
        other != plan.market_key@,
    ensures
        same_market(books, books.after_snapshot(snapshot, now), other),
        same_market(books, books.with_batch(plan, ids), other),
        same_market(books, books.without_open(trader::key_of(snapshot), side), other),
        same_market(books, books.without_expired(trader::key_of(snapshot), now, limit), other),
        same_market(books, books.with_fills(trader::key_of(snapshot), filled), other),
        same_market(books, books.with_position(snapshot, position), other),
        same_market(books, books.with_simulated_position(snapshot), other),
{
}

/// `left` and `right` hold the same of the market kept under `key`.
pub open spec fn same_market<A: Amount>(
    left: TraderView<A>,
    right: TraderView<A>,
    key: Seq<char>,
) -> bool {
    &&& left.batches(key) == right.batches(key)
    &&& left.pending.contains_key(key) == right.pending.contains_key(key)
    &&& left.logged.contains_key(key) == right.logged.contains_key(key)
    &&& left.logged.contains_key(key) ==> left.logged[key] == right.logged[key]
    &&& left.synced.contains_key(key) == right.synced.contains_key(key)
    &&& left.synced.contains_key(key) ==> left.synced[key] == right.synced[key]
    &&& left.trades.contains_key(key) == right.trades.contains_key(key)
    &&& left.trades.contains_key(key) ==> left.trades[key] == right.trades[key]
}

/// Two markets that differ in condition or period are kept apart: what happens in one leaves
/// the other alone.
pub proof fn different_markets_are_independent<A: Amount>(
    books: TraderView<A>,
    snapshot: MarketSnapshot,
    other: MarketSnapshot,
    now: u64,
)
    requires
        snapshot.btc_15m_period_timestamp != other.btc_15m_period_timestamp
            || snapshot.btc_market_15m.condition_id@ != other.btc_market_15m.condition_id@,
    ensures
        trader::key_of(snapshot) != trader::key_of(other),
        same_market(books, books.after_snapshot(snapshot, now), trader::key_of(other)),
{
    if trader::key_of(snapshot) == trader::key_of(other) {
        market_key::market_keys_are_distinct(
            snapshot.btc_market_15m.condition_id@,
            snapshot.btc_15m_period_timestamp,
            other.btc_market_15m.condition_id@,
            other.btc_15m_period_timestamp,
        );
    }
}

/// Once fills have been asked for, they are not asked for again in the next 20 seconds.
pub proof fn syncs_are_apart<A: Amount>(
    books: TraderView<A>,
    key: Seq<char>,
    now: u64,
    later: u64,
)
    requires
        books.sync_due(key, now),
        later < now + 20,
        later < u64::MAX,
    ensures
        !books.with_sync(key, now).sync_due(key, later),
{
}

/// Fills are asked for again 20 seconds later.
pub proof fn syncs_come_back<A: Amount>(
    books: TraderView<A>,
    key: Seq<char>,
    now: u64,
    later: u64,
)
    requires
        books.sync_due(key, now),
        later >= now + 20,
    ensures
        books.with_sync(key, now).sync_due(key, later),
{
}

/// A settled market counts as settled and its trade is gone; total and period profit move by
/// the same amount.
pub proof fn settling_is_final<A: Amount>(
    books: TraderView<A>,
    key: Seq<char>,
    trade: TradeView<A>,
    winner: Option<Side>,
)
    ensures
        ({
            let after = books.with_settlement(key, trade, winner);
            &&& after.is_checked(trade.condition_id)
            &&& !after.trades.contains_key(key)
            &&& books.total_profit == books.period_profit ==> after.total_profit
                == after.period_profit
            &&& forall|id: Seq<char>|
                books.is_checked(id) ==> #[trigger] after.is_checked(id)
            &&& forall|id: Seq<char>|
                id != trade.condition_id && #[trigger] after.is_checked(id) ==> books.is_checked(id)
        }),
{
}

/// The profits and the settled markets of `left` and `right` are the same.
pub open spec fn same_results<A>(left: TraderView<A>, right: TraderView<A>) -> bool {
    &&& left.total_profit == right.total_profit
    &&& left.period_profit == right.period_profit
    &&& left.checked == right.checked
}

/// Nothing but settling moves the profits, and nothing but settling and resetting the period
/// changes which markets count as settled.
pub proof fn only_settling_moves_profits<A: Amount>(
    books: TraderView<A>,
    snapshot: MarketSnapshot,
    key: Seq<char>,
    side: Side,
    now: u64,
    limit: u64,
    plan: BatchPlan<A>,
    ids: Seq<Seq<char>>,
    filled: Set<Seq<char>>,
    position: Position<A>,
)
    ensures
        same_results(books, books.after_snapshot(snapshot, now)),
        same_results(books, books.with_report(key)),
        same_results(books, books.with_batch(plan, ids)),
        same_results(books, books.with_fills(key, filled)),
        same_results(books, books.without_open(key, side)),
        same_results(books, books.without_expired(key, now, limit)),
        same_results(books, books.with_position(snapshot, position)),
        same_results(books, books.with_simulated_position(snapshot)),
        ({
            let reset = TraderView { checked: Map::empty(), ..books };
            reset.total_profit == books.total_profit && reset.period_profit == books.period_profit
        }),
{
}

/// Where the holdings compare equal to themselves, they are reported once: asking again, with
/// nothing changed in between, reports nothing and changes nothing.
pub proof fn holdings_are_reported_once<A: Amount>(books: TraderView<A>, key: Seq<char>)
    requires
        trader::same_holdings(books.held(key), books.held(key)),
    ensures
        !books.with_report(key).report_due(key),
        books.with_report(key).with_report(key) == books.with_report(key),
{
}

/// After a side's open orders are dropped, asking to cancel it again finds nothing.
pub proof fn nothing_left_to_cancel<A: Amount>(
    books: TraderView<A>,
    key: Seq<char>,
    side: Side,
    decision: CancelDecision,
)
    requires
        books.without_open(key, side).calls_for(decision, key, side),
    ensures
        decision is NoPending || decision is NoOpen,
{
    if books.pending.contains_key(key) {
        laws::cancelling_leaves_none_open(books.pending[key], side);
    }
    if let CancelDecision::Cancel { order_ids } = decision {
        assert(order_ids.deep_view().len() == order_ids@.len());
    }
}

/// A batch that was just placed is all open, and cancelling its side takes it back.
pub proof fn placing_can_be_undone<A: Amount>(
    books: TraderView<A>,
    plan: BatchPlan<A>,
    ids: Seq<Seq<char>>,
)
    ensures
        ({
            let key = plan.market_key@;
            let undone = books.with_batch(plan, ids).without_open(key, plan.side);
            let cancelled = books.without_open(key, plan.side);
            &&& undone.batches(key) == cancelled.batches(key)
            &&& books.pending.contains_key(key) ==> undone == cancelled
        }),
{
    let key = plan.market_key@;
    let batch = placing::batch_of(plan, ids);
    assert(laws::all_open(batch, plan.side));
    laws::cancelling_undoes_placing(books.batches(key), batch, plan.side);
    if books.pending.contains_key(key) {
        assert(books.with_batch(plan, ids).without_open(key, plan.side) =~= books.without_open(
            key,
            plan.side,
        ));
    } else {
        laws::cancelling_nothing::<A>(plan.side);
    }
}

/// Placing a batch adds as many unmatched orders as it has, and nothing else, to the holdings
/// of its market.
pub proof fn placing_adds_only_unmatched<A: Amount>(
    books: TraderView<A>,
    plan: BatchPlan<A>,
    ids: Seq<Seq<char>>,
)
    ensures
        laws::fewer_unmatched(
            books.held(plan.market_key@),
            books.with_batch(plan, ids).held(plan.market_key@),
            plan.count as nat,
        ),
{
    let batch = placing::batch_of(plan, ids);
    assert(laws::all_open(batch, plan.side));
    laws::placing_adds_unmatched(books.batches(plan.market_key@), batch, plan.side);
}

/// Where the holdings compare equal to themselves, taking in the same snapshot again at the
/// same time changes nothing and has nothing to report.
pub proof fn reading_again_is_idle<A: Amount>(
    books: TraderView<A>,
    snapshot: MarketSnapshot,
    now: u64,
)
    requires
        ({
            let key = trader::key_of(snapshot);
            let held = books.with_price_marks(
                key,
                trader::quoted_ask(snapshot, Side::Up),
                trader::quoted_ask(snapshot, Side::Down),
            ).held(key);
            trader::same_holdings(held, held)
        }),
    ensures
        books.after_snapshot(snapshot, now).after_snapshot(snapshot, now) == books.after_snapshot(
            snapshot,
            now,
        ),
        trader::is_live::<A>(snapshot) ==> !books.after_snapshot(snapshot, now).report_due(
            trader::key_of(snapshot),
        ),
{
    let key = trader::key_of(snapshot);
    let up: A = trader::quoted_ask(snapshot, Side::Up);
    let down: A = trader::quoted_ask(snapshot, Side::Down);
    let once = books.after_snapshot(snapshot, now);
    if books.pending.contains_key(key) {
        laws::marking_again_changes_nothing(books.pending[key], up, down);
    }
    if trader::is_live::<A>(snapshot) {
        let marked = books.with_price_marks(key, up, down);
        assert(once.batches(key) == marked.batches(key));
        assert(once.with_price_marks(key, up, down) =~= once);
        assert(once.with_simulated_position(snapshot) =~= once);
        assert(once.with_report(key) == once);
        assert(once.with_sync(key, now) =~= once);
    }
}

/// In production a snapshot marks nothing: what is matched comes from the exchange's fills.
pub proof fn prices_match_nothing_in_production<A: Amount>(
    books: TraderView<A>,
    snapshot: MarketSnapshot,
    now: u64,
)
    requires
        !books.simulation_mode,
    ensures
        books.after_snapshot(snapshot, now).pending == books.pending,
        books.after_snapshot(snapshot, now).trades == books.trades,
{
}

/// In production, once the exchange's fills are in, an order is matched if it was so before or
/// a buy among the fills has its name, and else not.
pub proof fn fills_match_their_orders<A: Amount>(
    books: TraderView<A>,
    key: Seq<char>,
    filled: Seq<Fill<A>>,
    i: int,
    j: int,
)
    requires
        !books.simulation_mode,
        0 <= i < books.batches(key).len(),
        0 <= j < books.batches(key)[i].orders.len(),
    ensures
        ({
            let before = books.batches(key)[i].orders[j];
            let after = books.with_fills(key, fills::bought_ids(filled)).batches(
                key,
            )[i].orders[j];
            &&& after == (OrderView { matched: after.matched, ..before })
            &&& after.matched <==> before.matched || exists|k: int|
                0 <= k < filled.len() && before.order_id is Some && fills::buys_order(
                    #[trigger] filled[k],
                    before.order_id->0,
                )
        }),
{
}

/// In simulation, after a snapshot, the shares of the matched orders stand among the trades
/// that wait for the market to close.
pub proof fn simulated_positions_are_entered<A: Amount>(
    books: TraderView<A>,
    snapshot: MarketSnapshot,
    now: u64,
)
    requires
        books.simulation_mode,
        trader::is_live::<A>(snapshot),
    ensures
        ({
            let key = trader::key_of(snapshot);
            let after = books.after_snapshot(snapshot, now);
            let position = simulating::matched_position(after.batches(key));
            position.is_held() ==> after.trades.contains_key(key) && after.trades[key]
                == syncing::trade_of(snapshot, position)
        }),
{
}

proof fn lemma_shares_of_orders<A: Amount>(
    position: Position<A>,
    held: HoldingsView<A>,
    orders_in: Seq<OrderView<A>>,
)
    requires
        position.up_shares == held.up_shares,
        position.down_shares == held.down_shares,
    ensures
        simulating::with_orders(position, orders_in).up_shares == held.with_all(
            orders_in,
        ).up_shares,
        simulating::with_orders(position, orders_in).down_shares == held.with_all(
            orders_in,
        ).down_shares,
    decreases orders_in.len(),
{
    if orders_in.len() > 0 {
        lemma_shares_of_orders(position, held, orders_in.drop_last());
    }
}

/// The position that a simulation enters has the shares that are shown as held.
pub proof fn simulated_position_is_what_is_held<A: Amount>(batches: Seq<BatchView<A>>)
    ensures
        simulating::matched_position(batches).up_shares == orders::holdings_of(batches).up_shares,
        simulating::matched_position(batches).down_shares == orders::holdings_of(
            batches,
        ).down_shares,
    decreases batches.len(),
{
    if batches.len() > 0 {
        simulated_position_is_what_is_held(batches.drop_last());
        lemma_shares_of_orders(
            simulating::matched_position(batches.drop_last()),
            orders::holdings_of(batches.drop_last()),
            batches.last().orders,
        );
    }
}

/// In every batch of the books all orders have one price.
pub open spec fn batches_have_one_price<A: Amount>(books: TraderView<A>) -> bool {
    forall|key: Seq<char>| #[trigger]
        books.pending.contains_key(key) ==> laws::all_one_price(books.pending[key])
}

/// The bought prices that `before` shows are among those that `after` shows, in the same
/// order, in every market and on both sides.
pub open spec fn keeps_bought<A: Amount>(before: TraderView<A>, after: TraderView<A>) -> bool {
    forall|key: Seq<char>, side: Side|
        laws::is_subsequence(
            #[trigger] orders::bought_prices(before.batches(key), side),
            orders::bought_prices(after.batches(key), side),
        )
}

/// What was bought is never unbought: no operation takes a bought price off the display. For
/// this every batch has one price, which holds of empty books and stays so.
pub proof fn bought_is_never_lost<A: Amount>(
    books: TraderView<A>,
    snapshot: MarketSnapshot,
    key: Seq<char>,
    side: Side,
    now: u64,
    limit: u64,
    plan: BatchPlan<A>,
    ids: Seq<Seq<char>>,
    filled: Set<Seq<char>>,
    position: Position<A>,
    trade: TradeView<A>,
    winner: Option<Side>,
)
    requires
        batches_have_one_price(books),
    ensures
        stays_bought(books, books.after_snapshot(snapshot, now)),
        stays_bought(books, books.with_report(key)),
        stays_bought(books, books.with_batch(plan, ids)),
        stays_bought(books, books.with_fills(key, filled)),
        stays_bought(books, books.without_open(key, side)),
        stays_bought(books, books.without_expired(key, now, limit)),
        stays_bought(books, books.with_position(snapshot, position)),
        stays_bought(books, books.with_simulated_position(snapshot)),
        stays_bought(books, books.with_settlement(key, trade, winner)),
        stays_bought(books, (TraderView { checked: Map::empty(), ..books })),
{
    let up: A = trader::quoted_ask(snapshot, Side::Up);
    let down: A = trader::quoted_ask(snapshot, Side::Down);
    let name = trader::key_of(snapshot);
    lemma_same_orders_stay_bought(books, books.with_report(key));
    lemma_same_orders_stay_bought(books, books.with_position(snapshot, position));
    lemma_same_orders_stay_bought(books, books.with_simulated_position(snapshot));
    lemma_same_orders_stay_bought(books, books.with_settlement(key, trade, winner));
    lemma_same_orders_stay_bought(books, TraderView { checked: Map::empty(), ..books });

    let read = books.after_snapshot(snapshot, now);
    if books.pending.contains_key(name) && read.pending != books.pending {
        laws::marking_only_matches(books.pending[name], up, down, filled);
        lemma_more_matched_stays_bought(
            books,
            read,
            name,
            orders::marked(books.pending[name], up, down),
        );
    } else {
        lemma_same_orders_stay_bought(books, read);
    }

    let confirmed = books.with_fills(key, filled);
    if !books.simulation_mode && books.pending.contains_key(key) {
        laws::marking_only_matches(books.pending[key], up, down, filled);
        lemma_more_matched_stays_bought(
            books,
            confirmed,
            key,
            orders::confirmed(books.pending[key], filled),
        );
    } else {
        lemma_same_orders_stay_bought(books, confirmed);
    }

    let cancelled = books.without_open(key, side);
    if books.pending.contains_key(key) {
        laws::dropping_keeps_one_price(books.pending[key], side, now, limit);
        laws::cancelling_keeps_bought_prices(books.pending[key], side, Side::Up);
        laws::cancelling_keeps_bought_prices(books.pending[key], side, Side::Down);
        lemma_same_prices_stay_bought(
            books,
            cancelled,
            key,
            orders::kept(books.pending[key], side),
        );
    } else {
        lemma_same_orders_stay_bought(books, cancelled);
    }

    let fresh = books.without_expired(key, now, limit);
    if !books.simulation_mode && books.pending.contains_key(key) {
        laws::dropping_keeps_one_price(books.pending[key], side, now, limit);
        laws::expiring_keeps_bought_prices(books.pending[key], now, limit, Side::Up);
        laws::expiring_keeps_bought_prices(books.pending[key], now, limit, Side::Down);
        lemma_same_prices_stay_bought(
            books,
            fresh,
            key,
            orders::unexpired(books.pending[key], now, limit),
        );
    } else {
        lemma_same_orders_stay_bought(books, fresh);
    }

    let batch = placing::batch_of(plan, ids);
    let placed = books.batches(plan.market_key@).push(batch);
    assert(laws::all_open(batch, plan.side));
    assert(laws::one_price(batch));
    assert(laws::all_one_price(placed)) by {
        assert forall|i: int| 0 <= i < placed.len() implies laws::one_price(
            #[trigger] placed[i],
        ) by {
            if i < books.batches(plan.market_key@).len() {
                assert(laws::one_price(books.pending[plan.market_key@][i]));
            }
        }
    }
    laws::placing_keeps_bought_prices(books.batches(plan.market_key@), batch, plan.side, Side::Up);
    laws::placing_keeps_bought_prices(
        books.batches(plan.market_key@),
        batch,
        plan.side,
        Side::Down,
    );
    lemma_same_prices_stay_bought(books, books.with_batch(plan, ids), plan.market_key@, placed);
}

/// `after` keeps what `before` shows as bought, and each of its batches has one price.
pub open spec fn stays_bought<A: Amount>(before: TraderView<A>, after: TraderView<A>) -> bool {
    keeps_bought(before, after) && batches_have_one_price(after)
}

proof fn lemma_same_orders_stay_bought<A: Amount>(before: TraderView<A>, after: TraderView<A>)
    requires
        batches_have_one_price(before),
        after.pending == before.pending,
    ensures
        stays_bought(before, after),
{
    assert forall|key: Seq<char>, side: Side|
        laws::is_subsequence(
            #[trigger] orders::bought_prices(before.batches(key), side),
            orders::bought_prices(after.batches(key), side),
        ) by {
        laws::lemma_subsequence_of_itself(orders::bought_prices(before.batches(key), side));
    }
}

proof fn lemma_same_prices_stay_bought<A: Amount>(
    before: TraderView<A>,
    after: TraderView<A>,
    market: Seq<char>,
    batches: Seq<BatchView<A>>,
)
    requires
        batches_have_one_price(before),
        after.pending == before.pending.insert(market, batches),
        laws::all_one_price(batches),
        orders::bought_prices(batches, Side::Up) == orders::bought_prices(
            before.batches(market),
            Side::Up,
        ),
        orders::bought_prices(batches, Side::Down) == orders::bought_prices(
            before.batches(market),
            Side::Down,
        ),
    ensures
        stays_bought(before, after),
{
    assert forall|key: Seq<char>, side: Side|
        laws::is_subsequence(
            #[trigger] orders::bought_prices(before.batches(key), side),
            orders::bought_prices(after.batches(key), side),
        ) by {
        laws::lemma_subsequence_of_itself(orders::bought_prices(before.batches(key), side));
    }
}

proof fn lemma_more_matched_stays_bought<A: Amount>(
    before: TraderView<A>,
    after: TraderView<A>,
    market: Seq<char>,
    batches: Seq<BatchView<A>>,
)
    requires
        batches_have_one_price(before),
        before.pending.contains_key(market),
        after.pending == before.pending.insert(market, batches),
        laws::only_more_matched(before.pending[market], batches),
    ensures
        stays_bought(before, after),
{
    laws::matching_keeps_bought_prices(before.pending[market], batches, Side::Up);
    laws::matching_keeps_bought_prices(before.pending[market], batches, Side::Down);
    assert forall|key: Seq<char>, side: Side|
        laws::is_subsequence(
            #[trigger] orders::bought_prices(before.batches(key), side),
            orders::bought_prices(after.batches(key), side),
        ) by {
        laws::lemma_subsequence_of_itself(orders::bought_prices(before.batches(key), side));
    }
}

/// Empty books have one price per batch.
pub proof fn empty_books_have_one_price<A: Amount>(books: TraderView<A>)
    requires
        books.pending == Map::<Seq<char>, Seq<BatchView<A>>>::empty(),
    ensures
        batches_have_one_price(books),
{
}

/// What two runs of operations keep one after the other, both keep together; so what was
/// bought stays bought over any number of them.
pub proof fn bought_stays_over_many_steps<A: Amount>(
    first: TraderView<A>,
    second: TraderView<A>,
    third: TraderView<A>,
)
    requires
        keeps_bought(first, second),
        keeps_bought(second, third),
    ensures
        keeps_bought(first, third),
{
    assert forall|key: Seq<char>, side: Side|
        laws::is_subsequence(
            #[trigger] orders::bought_prices(first.batches(key), side),
            orders::bought_prices(third.batches(key), side),
        ) by {
        laws::lemma_subsequence_chain(
            orders::bought_prices(first.batches(key), side),
            orders::bought_prices(second.batches(key), side),
            orders::bought_prices(third.batches(key), side),
        );
    }
}

// Laws of exact amounts.

proof fn lemma_small_amounts()
    ensures
        Micros::decimal(0, 0) == (Micros { units: 0 }),
        Micros::decimal(1, 2) == (Micros { units: 10_000 }),
        Micros::decimal(1, 4) == (Micros { units: 100 }),
        Micros::decimal(1, 6) == (Micros { units: 1 }),
{
    reveal_with_fuel(amount::pow10, 7);
    assert(amount::pow10(2) == 100);
    assert(amount::pow10(4) == 10_000);
    assert(amount::pow10(6) == 1_000_000);
}

/// With exact amounts, holdings are the same as themselves.
pub proof fn holdings_equal_themselves(held: HoldingsView<Micros>)
    ensures
        trader::same_holdings(held, held),
{
    lemma_small_amounts();
}

/// With exact amounts, holdings are reported once.
pub proof fn exact_holdings_are_reported_once(books: TraderView<Micros>, key: Seq<char>)
    ensures
        !books.with_report(key).report_due(key),
        books.with_report(key).with_report(key) == books.with_report(key),
{
    holdings_equal_themselves(books.held(key));
    holdings_are_reported_once(books, key);
}

/// With exact amounts, taking in the same snapshot again at the same time changes nothing and
/// has nothing to report.
pub proof fn reading_again_changes_nothing(
    books: TraderView<Micros>,
    snapshot: MarketSnapshot,
    now: u64,
)
    ensures
        books.after_snapshot(snapshot, now).after_snapshot(snapshot, now) == books.after_snapshot(
            snapshot,
            now,
        ),
        trader::is_live::<Micros>(snapshot) ==> !books.after_snapshot(snapshot, now).report_due(
            trader::key_of(snapshot),
        ),
{
    holdings_equal_themselves(
        books.with_price_marks(
            trader::key_of(snapshot),
            trader::quoted_ask(snapshot, Side::Up),
            trader::quoted_ask(snapshot, Side::Down),
        ).held(trader::key_of(snapshot)),
    );
    reading_again_is_idle(books, snapshot, now);
}

/// With exact amounts and bounds the right way round, a batch is placed at a price within the
/// bounds, and between the ask and the ask plus the offset of its side: on Up from the ask to
/// a cent above it, on Down with a negative offset from that far below the ask to the ask.
pub proof fn limit_price_is_bounded(
    books: TraderView<Micros>,
    snapshot: MarketSnapshot,
    side: Side,
    now: u64,
    plan: BatchPlan<Micros>,
)
    requires
        books.min_side_price.units <= books.max_side_price.units,
        books.may_place(snapshot, side),
        books.is_plan(plan, snapshot, side, now),
    ensures
        books.min_side_price.units <= plan.price.units <= books.max_side_price.units,
        ({
            let ask = trader::quoted_ask::<Micros>(snapshot, side).units;
            let offset = books.offset(side).units;
            &&& offset >= 0 ==> ask <= plan.price.units <= ask + offset
            &&& offset <= 0 ==> ask + offset <= plan.price.units <= ask
            &&& side == Side::Up ==> offset == 10_000
        }),
{
    lemma_small_amounts();
}

/// With exact amounts, a batch is placed at the ask plus the offset of its side wherever that
/// lies within the bounds.
pub proof fn limit_price_is_ask_plus_offset(
    books: TraderView<Micros>,
    snapshot: MarketSnapshot,
    side: Side,
    now: u64,
    plan: BatchPlan<Micros>,
)
    requires
        books.is_plan(plan, snapshot, side, now),
        books.min_side_price.units <= trader::quoted_ask::<Micros>(snapshot, side).units
            + books.offset(side).units <= books.max_side_price.units,
    ensures
        plan.price.units == trader::quoted_ask::<Micros>(snapshot, side).units + books.offset(
            side,
        ).units,
{
}

/// With exact amounts, an order is matched as long as the ask stays at or below its price,
/// give or take 0.0001.
pub proof fn orders_match_at_their_price(
    order: OrderView<Micros>,
    up_ask: Micros,
    down_ask: Micros,
)
    requires
        !order.matched,
        order.price.units + 100 <= i64::MAX,
    ensures
        orders::marked_order(order, up_ask, down_ask).matched <==> orders::ask_of(
            order.side,
            up_ask,
            down_ask,
        ).units <= order.price.units + 100,
{
    lemma_small_amounts();
}

/// With exact amounts, a batch placed at the ask or above it, as on Up, would fill at the asks
/// that it was placed on; one placed more than 0.0001 below the ask, as on Down with a
/// negative offset, would not.
pub proof fn placed_orders_and_the_same_ask(
    books: TraderView<Micros>,
    snapshot: MarketSnapshot,
    side: Side,
    now: u64,
    plan: BatchPlan<Micros>,
    ids: Seq<Seq<char>>,
    j: int,
)
    requires
        books.min_side_price.units <= books.max_side_price.units,
        books.may_place(snapshot, side),
        books.is_plan(plan, snapshot, side, now),
        0 <= j < plan.count,
    ensures
        ({
            let matched = orders::marked_batch(
                placing::batch_of(plan, ids),
                trader::quoted_ask(snapshot, Side::Up),
                trader::quoted_ask(snapshot, Side::Down),
            ).orders[j].matched;
            let ask = trader::quoted_ask::<Micros>(snapshot, side).units;
            &&& side == Side::Up || books.offset(side).units >= 0 ==> matched
            &&& plan.price.units + 100 < ask ==> !matched
        }),
{
    lemma_small_amounts();
    limit_price_is_bounded(books, snapshot, side, now, plan);
}

/// With exact amounts, every share of the side that won pays one, and the shares of the other
/// side pay nothing.
pub proof fn winning_shares_pay_one(trade: TradeView<Micros>)
    ensures
        trade.payout(Some(Side::Up)) == trade.up_shares,
        trade.payout(Some(Side::Down)) == trade.down_shares,
        trade.payout(None).units == 0,
{
    lemma_small_amounts();
    assert(Micros::decimal(1, 0) == (Micros { units: 1_000_000 })) by {
        reveal_with_fuel(amount::pow10, 1);
    }
    assert forall|shares: Micros| #[trigger] shares.product(Micros { units: 1_000_000 })
        == shares by {
        let n = shares.units * 1_000_000;
        assert(amount::toward_zero(n, 1_000_000) == shares.units);
    }
}

/// Every order in the books has a price within the bounds for side prices.
pub open spec fn within_bounds(books: TraderView<Micros>) -> bool {
    forall|key: Seq<char>| #[trigger]
        books.pending.contains_key(key) ==> laws::all_priced(books.pending[key], in_bounds(books))
}

/// The prices between the bounds for side prices.
pub open spec fn in_bounds(books: TraderView<Micros>) -> spec_fn(Micros) -> bool {
    |price: Micros| books.min_side_price.units <= price.units <= books.max_side_price.units
}

/// With exact amounts and bounds the right way round, no order in the books ever has a price
/// outside the bounds: every operation keeps it so, and empty books start that way.
pub proof fn orders_stay_within_bounds(
    books: TraderView<Micros>,
    snapshot: MarketSnapshot,
    key: Seq<char>,
    side: Side,
    now: u64,
    limit: u64,
    plan: BatchPlan<Micros>,
    ids: Seq<Seq<char>>,
    filled: Set<Seq<char>>,
)
    requires
        books.min_side_price.units <= books.max_side_price.units,
    ensures
        books.pending == Map::<Seq<char>, Seq<BatchView<Micros>>>::empty() ==> within_bounds(books),
        within_bounds(books) ==> within_bounds(books.after_snapshot(snapshot, now)),
        within_bounds(books) ==> within_bounds(books.with_fills(key, filled)),
        within_bounds(books) ==> within_bounds(books.without_open(key, side)),
        within_bounds(books) ==> within_bounds(books.without_expired(key, now, limit)),
        within_bounds(books) && books.may_place(snapshot, side) && books.is_plan(
            plan,
            snapshot,
            side,
            now,
        ) ==> within_bounds(books.with_batch(plan, ids)),
{
    let up: Micros = trader::quoted_ask(snapshot, Side::Up);
    let down: Micros = trader::quoted_ask(snapshot, Side::Down);
    let prices = in_bounds(books);
    if within_bounds(books) {
        assert forall|market: Seq<char>| #[trigger] books.pending.contains_key(market) implies {
            &&& laws::all_priced(orders::marked(books.pending[market], up, down), prices)
            &&& laws::all_priced(orders::confirmed(books.pending[market], filled), prices)
            &&& laws::all_priced(orders::kept(books.pending[market], side), prices)
            &&& laws::all_priced(orders::unexpired(books.pending[market], now, limit), prices)
        } by {
            laws::prices_stay(books.pending[market], prices, up, down, filled, side, now, limit);
        }
        let read = books.after_snapshot(snapshot, now);
        assert(in_bounds(read) == prices);
        assert(within_bounds(read));
        assert(in_bounds(books.with_fills(key, filled)) == prices);
        assert(in_bounds(books.without_open(key, side)) == prices);
        assert(in_bounds(books.without_expired(key, now, limit)) == prices);
        if books.may_place(snapshot, side) && books.is_plan(plan, snapshot, side, now) {
            limit_price_is_bounded(books, snapshot, side, now, plan);
            let placed = books.with_batch(plan, ids);
            let name = plan.market_key@;
            assert(in_bounds(placed) == prices);
            assert(laws::all_priced(books.batches(name), prices));
            let after = placed.pending[name];
            assert forall|i: int, j: int|
                0 <= i < after.len() && 0 <= j < after[i].orders.len() implies prices(
                (#[trigger] after[i].orders[j]).price,
            ) by {
                if i < books.batches(name).len() {
                    assert(after[i].orders[j] == books.batches(name)[i].orders[j]);
                }
            }
        }
    }
}

/// Every order of `batch` is a matched order of `side` with the given price and size.
pub open spec fn all_bought_at<A>(batch: BatchView<A>, side: Side, price: A, size: A) -> bool {
    forall|j: int|
        0 <= j < batch.orders.len() ==> {
            let order = #[trigger] batch.orders[j];
            order.matched && order.side == side && order.price == price && order.size == size
        }
}

proof fn lemma_equal_orders(
    orders_in: Seq<OrderView<Micros>>,
    side: Side,
    price: Micros,
    size: Micros,
    cost: int,
)
    requires
        forall|j: int|
            0 <= j < orders_in.len() ==> {
                let order = #[trigger] orders_in[j];
                order.matched && order.side == side && order.price == price && order.size == size
            },
        0 <= size.units,
        0 <= cost,
        price.product(size).units == cost,
        orders_in.len() * size.units <= i64::MAX,
        orders_in.len() * cost <= i64::MAX,
    ensures
        simulating::with_orders(Position::none(), orders_in) == position_on(
            side,
            orders_in.len() * size.units,
            orders_in.len() * cost,
        ),
    decreases orders_in.len(),
{
    lemma_small_amounts();
    if orders_in.len() > 0 {
        let rest = orders_in.drop_last();
        let n = orders_in.len() as int;
        assert(n * size.units == (n - 1) * size.units + size.units) by (nonlinear_arith);
        assert(n * cost == (n - 1) * cost + cost) by (nonlinear_arith);
        assert(0 <= (n - 1) * size.units) by (nonlinear_arith)
            requires
                n >= 1,
                0 <= size.units,
        ;
        assert(0 <= (n - 1) * cost) by (nonlinear_arith)
            requires
                n >= 1,
                0 <= cost,
        ;
        assert forall|j: int| 0 <= j < rest.len() implies {
            let order = #[trigger] rest[j];
            order.matched && order.side == side && order.price == price && order.size == size
        } by {
            assert(rest[j] == orders_in[j]);
        }
        lemma_equal_orders(rest, side, price, size, cost);
        assert(orders_in.last() == orders_in[n - 1]);
    }
}

/// A position on one side alone.
pub open spec fn position_on(side: Side, shares: int, cost: int) -> Position<Micros> {
    let nothing = Micros { units: 0 };
    let held = Micros { units: shares as i64 };
    let paid = Micros { units: cost as i64 };
    match side {
        Side::Up => Position {
            up_shares: held,
            up_cost: paid,
            down_shares: nothing,
            down_cost: nothing,
        },
        Side::Down => Position {
            up_shares: nothing,
            up_cost: nothing,
            down_shares: held,
            down_cost: paid,
        },
    }
}

/// With exact amounts, where a simulation holds one batch, all of it matched at one price, and
/// its side wins, settling brings in one for each share less what the batch cost: `n` orders
/// of `size` shares at `price` bring in `n * size - n * size * price`. Amounts are counted in
/// millionths, and price times size comes out even in them.
pub proof fn simulated_batch_pays(
    snapshot: MarketSnapshot,
    batch: BatchView<Micros>,
    side: Side,
    price: Micros,
    size: Micros,
    cost: int,
)
    requires
        all_bought_at(batch, side, price, size),
        batch.orders.len() > 0,
        0 <= price.units,
        0 < size.units,
        price.units * size.units == cost * 1_000_000,
        batch.orders.len() * size.units <= i64::MAX,
        batch.orders.len() * cost <= i64::MAX,
    ensures
        ({
            let position = simulating::matched_position(seq![batch]);
            let trade = syncing::trade_of(snapshot, position);
            let n = batch.orders.len();
            &&& position.is_held()
            &&& trade.cost().units == n * cost
            &&& trade.pnl(Some(side)).units == n * size.units - n * cost
        }),
{
    lemma_small_amounts();
    let n = batch.orders.len() as int;
    let (p, z) = (price.units as int, size.units as int);
    assert(0 <= cost) by (nonlinear_arith)
        requires
            p * z == cost * 1_000_000,
            0 <= p,
            0 < z,
    ;
    assert(cost <= n * cost <= i64::MAX) by (nonlinear_arith)
        requires
            n >= 1,
            cost >= 0,
            n * cost <= i64::MAX,
    ;
    assert(price.product(size).units == cost) by {
        assert(amount::toward_zero(cost * 1_000_000, 1_000_000) == cost);
    }
    assert(seq![batch].drop_last() =~= Seq::<BatchView<Micros>>::empty());
    assert(seq![batch].last() == batch);
    assert(simulating::matched_position(Seq::<BatchView<Micros>>::empty()) == Position::<
        Micros,
    >::none());
    lemma_equal_orders(batch.orders, side, price, size, cost);
    let position = simulating::matched_position(seq![batch]);
    assert(position == position_on(side, n * z, n * cost));
    assert(0 < z <= n * z) by (nonlinear_arith)
        requires
            n >= 1,
            0 < z,
    ;
    let (shares, paid) = (Micros { units: (n * z) as i64 }, Micros { units: (n * cost) as i64 });
    assert(n * cost * 1_000_000 == p * (n * z)) by (nonlinear_arith)
        requires
            p * z == cost * 1_000_000,
    ;
    assert(amount::toward_zero(n * cost * 1_000_000, n * z) == p) by {
        vstd::arithmetic::div_mod::lemma_div_multiples_vanish(p, n * z);
        assert(p * (n * z) == (n * z) * p) by (nonlinear_arith);
        assert(0 <= p * (n * z)) by (nonlinear_arith)
            requires
                0 <= p,
                0 < n * z,
        ;
    }
    assert(paid.quotient(shares) == price);
    assert((n * z) * p == n * cost * 1_000_000) by (nonlinear_arith)
        requires
            n * cost * 1_000_000 == p * (n * z),
    ;
    assert(shares.product(price) == paid) by {
        assert(amount::toward_zero(n * cost * 1_000_000, 1_000_000) == n * cost);
    }
    let nothing = Micros { units: 0 };
    assert(nothing.product(nothing) == nothing) by {
        assert(nothing.units * nothing.units == 0) by (nonlinear_arith)
            requires
                nothing.units == 0,
        ;
        assert(amount::toward_zero(0, 1_000_000) == 0);
    }
    winning_shares_pay_one(syncing::trade_of(snapshot, position));
}

} // verus!
