//! What the trader's operations come to in numbers: profits, prices, matches and reports.

use crate::amount;
use crate::amount::{Amount, Micros};
use crate::fills::Position;
use crate::models::{MarketDetails, MarketSnapshot, OrderResponse};
use crate::orders;
use crate::orders::totals;
use crate::orders::{HoldingsView, OrderView, Side};
use crate::sums;
use crate::trader;
use crate::trader::cancelling::CancelDecision;
use crate::trader::closing;
use crate::trader::closing::{CycleTrade, Redemption, TradeView};
use crate::trader::placing;
use crate::trader::placing::BatchPlan;
use crate::trader::syncing;
use crate::trader::syncing::PositionReport;
use crate::trader::{HoldingsReport, TraderView};
use vstd::prelude::*;

verus! {

proof fn lemma_amounts()
    ensures
        Micros::decimal(0, 0) == (Micros { units: 0 }),
        Micros::decimal(1, 0) == (Micros { units: 1_000_000 }),
        Micros::decimal(1, 2) == (Micros { units: 10_000 }),
        Micros::decimal(1, 3) == (Micros { units: 1_000 }),
        Micros::decimal(1, 4) == (Micros { units: 100 }),
        Micros::decimal(1, 6) == (Micros { units: 1 }),
{
    reveal_with_fuel(amount::pow10, 7);
    assert(amount::pow10(2) == 100);
    assert(amount::pow10(3) == 1_000);
    assert(amount::pow10(4) == 10_000);
    assert(amount::pow10(6) == 1_000_000);
}

// Settling.

/// One market that is settled: the key of its trade, the trade, and the side that won.
pub struct Settled {
    pub key: Seq<char>,
    pub trade: TradeView<Micros>,
    pub winner: Option<Side>,
}

/// The books after a run of settlements, one after the other.
pub open spec fn after_settlements(
    books: TraderView<Micros>,
    run: Seq<Settled>,
) -> TraderView<Micros>
    decreases run.len(),
{
    if run.len() == 0 {
        books
    } else {
        let last = run.last();
        after_settlements(books, run.drop_last()).with_settlement(
            last.key,
            last.trade,
            last.winner,
        )
    }
}

/// What each settlement of a run brought in, in millionths.
pub open spec fn brought_in(run: Seq<Settled>) -> Seq<int> {
    run.map_values(|settled: Settled| settled.trade.pnl(settled.winner).units as int)
}

/// Starting at `units`, no part of the run takes the profit out of range.
pub open spec fn profit_in_range(units: int, run: Seq<Settled>) -> bool {
    forall|k: int|
        0 <= k <= run.len() ==> i64::MIN <= units + sums::total(
            #[trigger] brought_in(run).take(k),
        ) <= i64::MAX
}

/// With exact amounts in range, settling raises both profits by what the trade brought in,
/// whatever they were before.
pub proof fn settling_adds_to_the_profits(
    books: TraderView<Micros>,
    key: Seq<char>,
    trade: TradeView<Micros>,
    winner: Option<Side>,
)
    ensures
        ({
            let after = books.with_settlement(key, trade, winner);
            let pnl = trade.pnl(winner).units;
            &&& i64::MIN <= books.total_profit.units + pnl <= i64::MAX ==> after.total_profit.units
                - books.total_profit.units == pnl
            &&& i64::MIN <= books.period_profit.units + pnl <= i64::MAX
                ==> after.period_profit.units - books.period_profit.units == pnl
        }),
{
}

/// With exact amounts in range, a run of settlements raises both profits by the sum of what
/// the settlements brought in.
pub proof fn settlements_add_up(books: TraderView<Micros>, run: Seq<Settled>)
    requires
        profit_in_range(books.total_profit.units as int, run),
        profit_in_range(books.period_profit.units as int, run),
    ensures
        after_settlements(books, run).total_profit.units == books.total_profit.units + sums::total(
            brought_in(run),
        ),
        after_settlements(books, run).period_profit.units == books.period_profit.units
            + sums::total(brought_in(run)),
    decreases run.len(),
{
    if run.len() > 0 {
        let rest = run.drop_last();
        assert(brought_in(rest) =~= brought_in(run).drop_last());
        assert forall|k: int| 0 <= k <= rest.len() implies i64::MIN <= books.total_profit.units
            + sums::total(#[trigger] brought_in(rest).take(k)) <= i64::MAX by {
            assert(brought_in(rest).take(k) =~= brought_in(run).take(k));
        }
        assert forall|k: int| 0 <= k <= rest.len() implies i64::MIN <= books.period_profit.units
            + sums::total(#[trigger] brought_in(rest).take(k)) <= i64::MAX by {
            assert(brought_in(rest).take(k) =~= brought_in(run).take(k));
        }
        settlements_add_up(books, rest);
        assert(brought_in(run).take(run.len() as int) =~= brought_in(run));
        settling_adds_to_the_profits(
            after_settlements(books, rest),
            run.last().key,
            run.last().trade,
            run.last().winner,
        );
    }
}

/// Settling a trade takes out that trade and no other, and touches no order.
pub proof fn settling_takes_out_one_trade<A: Amount>(
    books: TraderView<A>,
    key: Seq<char>,
    other: Seq<char>,
    trade: TradeView<A>,
    winner: Option<Side>,
)
    requires
        other != key,
    ensures
        ({
            let after = books.with_settlement(key, trade, winner);
            &&& !after.trades.contains_key(key)
            &&& after.trades.contains_key(other) == books.trades.contains_key(other)
            &&& books.trades.contains_key(other) ==> after.trades[other] == books.trades[other]
            &&& after.pending == books.pending
            &&& after.is_checked(trade.condition_id)
            &&& other != trade.condition_id ==> after.is_checked(other) == books.is_checked(other)
        }),
{
}

/// With exact amounts in range, a trade brings in its shares of the side that won, and costs
/// what was paid for both sides; where shares times price come out even in millionths, to the
/// last of them.
pub proof fn a_trade_brings_in_payout_less_cost(
    trade: TradeView<Micros>,
    winner: Option<Side>,
    up_cost: int,
    down_cost: int,
)
    requires
        trade.up_shares.units * trade.up_avg_price.units == up_cost * 1_000_000,
        trade.down_shares.units * trade.down_avg_price.units == down_cost * 1_000_000,
        i64::MIN <= up_cost <= i64::MAX,
        i64::MIN <= down_cost <= i64::MAX,
        i64::MIN <= up_cost + down_cost <= i64::MAX,
    ensures
        trade.cost().units == up_cost + down_cost,
        ({
            let payout: int = match winner {
                Some(Side::Up) => trade.up_shares.units as int,
                Some(Side::Down) => trade.down_shares.units as int,
                None => 0,
            };
            &&& trade.payout(winner).units == payout
            &&& i64::MIN <= payout - up_cost - down_cost <= i64::MAX ==> trade.pnl(winner).units
                == payout - up_cost - down_cost
        }),
{
    lemma_amounts();
    assert(amount::toward_zero(up_cost * 1_000_000, 1_000_000) == up_cost);
    assert(amount::toward_zero(down_cost * 1_000_000, 1_000_000) == down_cost);
    trader::laws::winning_shares_pay_one(trade);
}

/// The side that won is the one whose token the market calls the winner; Up comes first.
pub proof fn the_winner_has_the_winning_token<A: Amount>(
    trade: TradeView<A>,
    market: MarketDetails,
)
    ensures
        trade.winner(market) == Some(Side::Up) <==> names_winner(market, trade.up_token_id),
        trade.winner(market) == Some(Side::Down) <==> !names_winner(market, trade.up_token_id)
            && names_winner(market, trade.down_token_id),
{
    lemma_names_winner(market, trade.up_token_id);
    lemma_names_winner(market, trade.down_token_id);
}

/// Some token of the market is called `id` and has won.
pub open spec fn names_winner(market: MarketDetails, id: Option<Seq<char>>) -> bool {
    exists|i: int|
        0 <= i < market.tokens@.len() && (#[trigger] market.tokens@[i]).winner && id == Some(
            market.tokens@[i].token_id@,
        )
}

proof fn lemma_names_winner(market: MarketDetails, id: Option<Seq<char>>)
    ensures
        closing::token_won(market, id) <==> names_winner(market, id),
{
    if closing::token_won(market, id) {
        let i = choose|i: int|
            0 <= i < market.tokens@.len() && (#[trigger] market.tokens@[i]).token_id@ == id->0
                && market.tokens@[i].winner;
        assert(market.tokens@[i].winner);
    }
    if names_winner(market, id) {
        let i = choose|i: int|
            0 <= i < market.tokens@.len() && (#[trigger] market.tokens@[i]).winner && id == Some(
                market.tokens@[i].token_id@,
            );
        assert(market.tokens@[i].token_id@ == id->0);
    }
}

/// With exact amounts, the tokens of Up are redeemed where Up won with more than 0.001 shares,
/// and else those of Down, each by the token that the trade holds and in the trade's market.
pub proof fn the_won_tokens_are_redeemed(
    trade: TradeView<Micros>,
    redeem: Redemption,
    winner: Option<Side>,
)
    requires
        trade.is_redemption(redeem, winner),
    ensures
        redeem.condition_id@ == trade.condition_id,
        redeem.outcome == Side::Up <==> winner == Some(Side::Up) && trade.up_shares.units > 1_000,
        redeem.outcome == Side::Up && trade.up_token_id is Some ==> redeem.token_id@
            == trade.up_token_id->0,
        redeem.outcome == Side::Down && trade.down_token_id is Some ==> redeem.token_id@
            == trade.down_token_id->0,
{
    lemma_amounts();
}

/// A market is over once as many seconds have gone by since its period began as it lasts.
pub proof fn markets_end_with_their_period<A: Amount>(trade: TradeView<A>, now: u64)
    ensures
        trade.has_ended(now) <==> now - trade.period_timestamp >= trade.market_duration_secs,
{
}

// Positions.

/// With exact amounts, a position is entered where shares are held on a side, under the key of
/// its market, with the market's own names and times, and the shares that it has.
pub proof fn positions_are_entered_as_they_are(
    books: TraderView<Micros>,
    snapshot: MarketSnapshot,
    position: Position<Micros>,
)
    ensures
        ({
            let key = trader::key_of(snapshot);
            let after = books.with_position(snapshot, position);
            let market = snapshot.btc_market_15m;
            if position.up_shares.units > 0 || position.down_shares.units > 0 {
                let trade = after.trades[key];
                &&& after.trades.contains_key(key)
                &&& trade.condition_id == market.condition_id@
                &&& trade.period_timestamp == snapshot.btc_15m_period_timestamp
                &&& trade.market_duration_secs == snapshot.market_duration_secs
                &&& trade.up_token_id is Some <==> market.up_token is Some
                &&& trade.down_token_id is Some <==> market.down_token is Some
                &&& market.up_token is Some ==> trade.up_token_id->0
                    == market.up_token->0.token_id@
                &&& market.down_token is Some ==> trade.down_token_id->0
                    == market.down_token->0.token_id@
                &&& trade.up_shares == position.up_shares
                &&& trade.down_shares == position.down_shares
            } else {
                after == books
            }
        }),
{
    lemma_amounts();
}

/// With exact amounts in range, the average price of a side, times its shares, is what they
/// cost, but for what is cut off at the sixth place; without shares it is zero.
pub proof fn average_prices_give_back_the_cost(
    snapshot: MarketSnapshot,
    position: Position<Micros>,
)
    requires
        0 <= position.up_cost.units * 1_000_000 <= 9_223_372_036_854_775_807
            * position.up_shares.units || position.up_shares.units <= 0,
        0 <= position.down_cost.units * 1_000_000 <= 9_223_372_036_854_775_807
            * position.down_shares.units || position.down_shares.units <= 0,
    ensures
        ({
            let trade = syncing::trade_of(snapshot, position);
            let (up, down) = (position.up_shares.units, position.down_shares.units);
            &&& up > 0 ==> trade.up_avg_price.units * up <= position.up_cost.units * 1_000_000
                < trade.up_avg_price.units * up + up
            &&& down > 0 ==> trade.down_avg_price.units * down <= position.down_cost.units
                * 1_000_000 < trade.down_avg_price.units * down + down
            &&& up <= 0 ==> trade.up_avg_price.units == 0
            &&& down <= 0 ==> trade.down_avg_price.units == 0
        }),
{
    lemma_amounts();
    if position.up_shares.units > 0 {
        assert(-9_223_372_036_854_775_807 * position.up_shares.units <= 0) by (nonlinear_arith)
            requires
                position.up_shares.units > 0,
        ;
        amount::quotients_are_cut_off(position.up_cost, position.up_shares);
    }
    if position.down_shares.units > 0 {
        assert(-9_223_372_036_854_775_807 * position.down_shares.units <= 0) by (nonlinear_arith)
            requires
                position.down_shares.units > 0,
        ;
        amount::quotients_are_cut_off(position.down_cost, position.down_shares);
    }
}

/// With exact amounts in range, a report on a position shows what both sides cost together,
/// and for each side its shares less that cost.
pub proof fn position_reports_add_up(report: PositionReport<Micros>, position: Position<Micros>)
    requires
        syncing::is_position_report(report, position),
        i64::MIN <= position.up_cost.units + position.down_cost.units <= i64::MAX,
    ensures
        ({
            let cost = position.up_cost.units + position.down_cost.units;
            &&& report.position == position
            &&& report.total_cost.units == cost
            &&& i64::MIN <= position.up_shares.units - cost <= i64::MAX
                ==> report.pnl_if_up_wins.units == position.up_shares.units - cost
            &&& i64::MIN <= position.down_shares.units - cost <= i64::MAX
                ==> report.pnl_if_down_wins.units == position.down_shares.units - cost
        }),
{
}

/// With exact amounts in range, a report on holdings shows them, and for each side its shares
/// less the deposit.
pub proof fn holdings_reports_add_up(report: HoldingsReport<Micros>, held: HoldingsView<Micros>)
    requires
        trader::is_report(report, held),
    ensures
        report.held.up_shares == held.up_shares,
        report.held.down_shares == held.down_shares,
        report.held.unmatched == held.unmatched,
        report.held.total_deposit == held.total_deposit,
        i64::MIN <= held.up_shares.units - held.total_deposit.units <= i64::MAX
            ==> report.pnl_if_up_wins.units == held.up_shares.units - held.total_deposit.units,
        i64::MIN <= held.down_shares.units - held.total_deposit.units <= i64::MAX
            ==> report.pnl_if_down_wins.units == held.down_shares.units - held.total_deposit.units,
{
}

/// With exact amounts in range, what a report says of a market is counted order by order: the
/// shares of each side, the deposit for both sides, and for each side its shares less the
/// whole deposit.
pub proof fn reports_count_every_order(
    books: TraderView<Micros>,
    key: Seq<char>,
    report: HoldingsReport<Micros>,
)
    requires
        trader::is_report(report, books.held(key)),
        totals::sums_in_range(books.batches(key)),
    ensures
        ({
            let batches = books.batches(key);
            let up = totals::over_all(batches, totals::shares_on(Side::Up));
            let down = totals::over_all(batches, totals::shares_on(Side::Down));
            let deposit = totals::over_all(batches, totals::cost_on(Side::Up)) + totals::over_all(
                batches,
                totals::cost_on(Side::Down),
            );
            &&& report.held.up_shares.units == up
            &&& report.held.down_shares.units == down
            &&& report.held.total_deposit.units == deposit
            &&& report.held.unmatched == totals::over_all(batches, totals::unmatched_one())
            &&& i64::MIN <= up - deposit <= i64::MAX ==> report.pnl_if_up_wins.units == up
                - deposit
            &&& i64::MIN <= down - deposit <= i64::MAX ==> report.pnl_if_down_wins.units == down
                - deposit
        }),
{
    totals::holdings_add_up(books.batches(key));
}

/// With exact amounts in range, a report is due where shares are held or orders wait, unless
/// the same was shown last.
pub proof fn changed_holdings_are_reported(books: TraderView<Micros>, key: Seq<char>)
    requires
        ({
            let held = books.held(key);
            &&& i64::MIN <= held.up_shares.units + held.down_shares.units <= i64::MAX
            &&& books.logged.contains_key(key) ==> in_reach(held, books.logged[key])
        }),
    ensures
        ({
            let held = books.held(key);
            books.report_due(key) <==> (held.up_shares.units + held.down_shares.units > 0
                || held.unmatched > 0) && !(books.logged.contains_key(key) && books.logged[key]
                == held)
        }),
{
    lemma_amounts();
}

/// The amounts of `left` and `right` are so near to each other that their differences are in
/// range.
pub open spec fn in_reach(left: HoldingsView<Micros>, right: HoldingsView<Micros>) -> bool {
    &&& i64::MIN < left.up_shares.units - right.up_shares.units <= i64::MAX
    &&& i64::MIN < left.down_shares.units - right.down_shares.units <= i64::MAX
    &&& i64::MIN < left.total_deposit.units - right.total_deposit.units <= i64::MAX
}

// Snapshots.

/// The ask of a token, in millionths, zero where there is none.
pub open spec fn ask_units(snapshot: MarketSnapshot, side: Side) -> int {
    trader::quoted_ask::<Micros>(snapshot, side).units as int
}

/// The ask of a side is that of its own token, and zero where it has no token or no ask.
pub proof fn asks_are_those_of_the_side<A: Amount>(snapshot: MarketSnapshot)
    ensures
        ({
            let (up, down) = (
                snapshot.btc_market_15m.up_token,
                snapshot.btc_market_15m.down_token,
            );
            &&& up is Some && up->0.ask is Some ==> trader::quoted_ask::<A>(snapshot, Side::Up)
                == A::decimal(up->0.ask->0.mantissa as int, up->0.ask->0.scale as nat)
            &&& down is Some && down->0.ask is Some ==> trader::quoted_ask::<A>(
                snapshot,
                Side::Down,
            ) == A::decimal(down->0.ask->0.mantissa as int, down->0.ask->0.scale as nat)
            &&& up is None || up->0.ask is None ==> trader::quoted_ask::<A>(snapshot, Side::Up)
                == A::decimal(0, 0)
            &&& down is None || down->0.ask is None ==> trader::quoted_ask::<A>(
                snapshot,
                Side::Down,
            ) == A::decimal(0, 0)
        }),
{
}

/// With exact amounts, a snapshot counts while time is left and both asks are above zero;
/// another one changes nothing.
pub proof fn dead_snapshots_change_nothing(
    books: TraderView<Micros>,
    snapshot: MarketSnapshot,
    now: u64,
)
    ensures
        trader::is_live::<Micros>(snapshot) <==> snapshot.btc_15m_time_remaining > 0 && ask_units(
            snapshot,
            Side::Up,
        ) > 0 && ask_units(snapshot, Side::Down) > 0,
        !trader::is_live::<Micros>(snapshot) ==> books.after_snapshot(snapshot, now) == books,
{
    lemma_amounts();
}

/// With exact amounts in range, a live snapshot in simulation matches an order of its market
/// if the ask of the order's own side is at most 0.0001 above its price, keeps matched what
/// was matched, and changes nothing else about any order.
pub proof fn snapshots_match_orders_at_their_price(
    books: TraderView<Micros>,
    snapshot: MarketSnapshot,
    now: u64,
    i: int,
    j: int,
)
    requires
        books.simulation_mode,
        trader::is_live::<Micros>(snapshot),
        0 <= i < books.batches(trader::key_of(snapshot)).len(),
        0 <= j < books.batches(trader::key_of(snapshot))[i].orders.len(),
        books.batches(trader::key_of(snapshot))[i].orders[j].price.units + 100 <= i64::MAX,
    ensures
        ({
            let key = trader::key_of(snapshot);
            let before = books.batches(key)[i].orders[j];
            let after = books.after_snapshot(snapshot, now).batches(key)[i].orders[j];
            &&& books.after_snapshot(snapshot, now).batches(key).len() == books.batches(key).len()
            &&& after == (OrderView { matched: after.matched, ..before })
            &&& before.side == Side::Up ==> (after.matched <==> before.matched || ask_units(
                snapshot,
                Side::Up,
            ) - before.price.units <= 100)
            &&& before.side == Side::Down ==> (after.matched <==> before.matched || ask_units(
                snapshot,
                Side::Down,
            ) - before.price.units <= 100)
        }),
{
    lemma_amounts();
}

/// A production trader that never asked for a market's fills asks for them with its first live
/// snapshot, and the time of asking is remembered.
pub proof fn the_first_snapshot_asks_for_fills<A: Amount>(
    books: TraderView<A>,
    snapshot: MarketSnapshot,
    now: u64,
)
    requires
        !books.simulation_mode,
        !books.synced.contains_key(trader::key_of(snapshot)),
        trader::is_live::<A>(snapshot),
    ensures
        books.sync_due(trader::key_of(snapshot), now),
        books.after_snapshot(snapshot, now).synced.contains_key(trader::key_of(snapshot)),
        books.after_snapshot(snapshot, now).synced[trader::key_of(snapshot)] == now,
{
}

// Placing.

/// With exact amounts, a batch may be placed on a side that has a token, at an ask above zero
/// that is not below the lower bound and not above the upper one.
pub proof fn batches_are_placed_within_the_bounds(
    books: TraderView<Micros>,
    snapshot: MarketSnapshot,
    side: Side,
)
    ensures
        books.may_place(snapshot, side) <==> {
            let token = match side {
                Side::Up => snapshot.btc_market_15m.up_token,
                Side::Down => snapshot.btc_market_15m.down_token,
            };
            &&& token is Some
            &&& ask_units(snapshot, side) > 0
            &&& books.min_side_price.units <= ask_units(snapshot, side)
                <= books.max_side_price.units
        },
{
    lemma_amounts();
}

/// With exact amounts in range and bounds the right way round, the price is a cent above the
/// ask on Up, and the ask plus the configured offset on Down; where that lies outside the
/// bounds, it is the bound.
pub proof fn prices_are_ask_and_offset(
    books: TraderView<Micros>,
    snapshot: MarketSnapshot,
    side: Side,
    now: u64,
    plan: BatchPlan<Micros>,
)
    requires
        books.is_plan(plan, snapshot, side, now),
        books.min_side_price.units <= books.max_side_price.units,
    ensures
        ({
            let wanted: int = match side {
                Side::Up => ask_units(snapshot, Side::Up) + 10_000,
                Side::Down => ask_units(snapshot, Side::Down)
                    + books.limit_order_price_offset_down.units,
            };
            let (low, high) = (books.min_side_price.units, books.max_side_price.units);
            &&& low <= wanted <= high ==> plan.price.units == wanted
            &&& wanted > high ==> plan.price.units == high
            &&& wanted < low ==> plan.price.units == low
        }),
{
    lemma_amounts();
}

/// A batch is planned with the trader's own settings: as many orders as a batch has, of the
/// configured size, for the token of the side, and sent to the exchange unless it is a
/// simulation.
pub proof fn plans_follow_the_settings<A: Amount>(
    books: TraderView<A>,
    snapshot: MarketSnapshot,
    side: Side,
    now: u64,
    plan: BatchPlan<A>,
)
    requires
        books.is_plan(plan, snapshot, side, now),
        books.may_place(snapshot, side),
    ensures
        plan.market_key@ == trader::key_of(snapshot),
        plan.side == side,
        plan.count == books.batch_count,
        plan.size == books.shares_per_limit_order,
        plan.send <==> !books.simulation_mode,
        plan.placed_at == now,
        side == Side::Up ==> plan.token_id@ == snapshot.btc_market_15m.up_token->0.token_id@,
        side == Side::Down ==> plan.token_id@ == snapshot.btc_market_15m.down_token->0.token_id@,
{
}

/// Entering a batch adds it behind those of its market, and leaves them as they were: as many
/// orders as were planned, unmatched, each of the planned side, price and size, the first ones
/// with the names that the exchange gave, in order, and the others without.
pub proof fn entered_batches_hold_what_was_planned<A: Amount>(
    books: TraderView<A>,
    plan: BatchPlan<A>,
    ids: Seq<Seq<char>>,
    j: int,
)
    requires
        0 <= j < plan.count,
    ensures
        ({
            let before = books.batches(plan.market_key@);
            let after = books.with_batch(plan, ids).batches(plan.market_key@);
            let order = after.last().orders[j];
            &&& after.len() == before.len() + 1
            &&& after.drop_last() == before
            &&& after.last().placed_at == plan.placed_at
            &&& after.last().orders.len() == plan.count
            &&& order.side == plan.side
            &&& order.price == plan.price
            &&& order.size == plan.size
            &&& !order.matched
            &&& j < ids.len() ==> order.order_id == Some(ids[j])
            &&& j >= ids.len() ==> order.order_id is None
        }),
{
    let before = books.batches(plan.market_key@);
    let after = books.with_batch(plan, ids).batches(plan.market_key@);
    assert(after.drop_last() =~= before);
}

/// The names in replies are gathered in order: those of one list of replies come before those
/// of the list behind it; a single reply gives its name, and none where it has none.
pub proof fn names_are_gathered_in_order(
    first: Seq<Option<OrderResponse>>,
    second: Seq<Option<OrderResponse>>,
    reply: Option<OrderResponse>,
)
    ensures
        placing::ids_in(first + second) == placing::ids_in(first) + placing::ids_in(second),
        reply is Some && reply->0.order_id is Some ==> placing::ids_in(seq![reply])
            == seq![reply->0.order_id->0@],
        reply is None || reply->0.order_id is None ==> placing::ids_in(seq![reply]) == Seq::<
            Seq<char>,
        >::empty(),
    decreases second.len(),
{
    let none = Seq::<Option<OrderResponse>>::empty();
    assert(seq![reply].drop_last() =~= none);
    assert(placing::ids_in(none) =~= Seq::<Seq<char>>::empty());
    if second.len() == 0 {
        assert(first + second =~= first);
        assert(placing::ids_in(first) + placing::ids_in(second) =~= placing::ids_in(first));
    } else {
        assert((first + second).drop_last() =~= first + second.drop_last());
        names_are_gathered_in_order(first, second.drop_last(), reply);
        assert(placing::ids_in(first + second) =~= placing::ids_in(first) + placing::ids_in(
            second,
        ));
    }
}

// Cancelling.

/// In production, where an order of the side is open and named, the exchange is asked to
/// cancel, and the names that it gets are those of all such orders of the market, and no
/// others.
pub proof fn open_orders_are_cancelled_at_the_exchange<A: Amount>(
    books: TraderView<A>,
    key: Seq<char>,
    side: Side,
    decision: CancelDecision,
    id: Seq<char>,
)
    requires
        !books.simulation_mode,
        books.calls_for(decision, key, side),
    ensures
        totals::is_named_open(books.batches(key), side, id) <==> decision is Cancel
            && decision->order_ids.deep_view().contains(id),
        decision is Cancel ==> decision->order_ids.deep_view().len() == totals::over_all(
            books.batches(key),
            totals::named_open_one(side),
        ),
{
    totals::every_open_order_is_cancelled(books.batches(key), side, id);
    totals::open_orders_are_counted(books.batches(key), side);
    if let CancelDecision::Cancel { order_ids } = decision {
        assert(order_ids.deep_view() == orders::open_ids(books.batches(key), side));
    } else {
        if books.pending.contains_key(key) {
            assert(orders::open_ids(books.batches(key), side) =~= Seq::<Seq<char>>::empty());
        } else {
            assert(orders::open_ids(books.batches(key), side) =~= Seq::<Seq<char>>::empty());
        }
    }
}

/// In simulation, a request to cancel drops as many orders as are open on the side.
pub proof fn open_orders_are_untracked_in_simulation<A: Amount>(
    books: TraderView<A>,
    key: Seq<char>,
    side: Side,
    decision: CancelDecision,
)
    requires
        books.simulation_mode,
        books.calls_for(decision, key, side),
    ensures
        ({
            let open = totals::over_all(books.batches(key), totals::open_one(side));
            &&& decision is Untrack <==> open > 0
            &&& decision is Untrack ==> decision->count == open
        }),
{
    totals::open_orders_are_counted(books.batches(key), side);
}

/// In production, the names that expire are those of the unmatched orders of the market that
/// have waited for the limit; in simulation there are none.
pub proof fn overdue_orders_are_cancelled_at_the_exchange<A: Amount>(
    books: TraderView<A>,
    key: Seq<char>,
    now: u64,
    limit: u64,
    id: Seq<char>,
)
    ensures
        books.expired(key, now, limit).contains(id) <==> !books.simulation_mode
            && totals::is_overdue(books.batches(key), now, limit, id),
{
    totals::every_overdue_order_expires(books.batches(key), now, limit, id);
}

/// With exact amounts in range, the cost of a trade is what shares times average price come to
/// over both sides, but for less than two millionths.
pub proof fn costs_are_close_to_shares_times_price(trade: TradeView<Micros>)
    requires
        ({
            let up = trade.up_shares.units * trade.up_avg_price.units;
            let down = trade.down_shares.units * trade.down_avg_price.units;
            &&& 0 <= up
            &&& 0 <= down
            &&& up + down <= 9_223_372_036_854_775_807 * 1_000_000
        }),
    ensures
        ({
            let exact = trade.up_shares.units * trade.up_avg_price.units + trade.down_shares.units
                * trade.down_avg_price.units;
            trade.cost().units * 1_000_000 <= exact < trade.cost().units * 1_000_000 + 2_000_000
        }),
{
    amount::products_are_cut_off(trade.up_shares, trade.up_avg_price);
    amount::products_are_cut_off(trade.down_shares, trade.down_avg_price);
}

// What each step leaves alone.

/// Each step writes in its own book and leaves the others as they are: placing, cancelling,
/// expiry and fills change the orders alone, a position the trades alone, a report what was
/// last shown, a request for fills the time of asking; a snapshot changes nothing but those
/// four; and settling changes the profits, the trades and what has been settled.
pub proof fn each_step_keeps_to_its_book<A: Amount>(
    books: TraderView<A>,
    snapshot: MarketSnapshot,
    key: Seq<char>,
    side: Side,
    now: u64,
    limit: u64,
    plan: BatchPlan<A>,
    ids: Seq<Seq<char>>,
    filled: Set<Seq<char>>,
    position: Position<A>,
    trade: TradeView<A>,
    winner: Option<Side>,
)
    ensures
        ({
            let placed = books.with_batch(plan, ids);
            let cancelled = books.without_open(key, side);
            let expired = books.without_expired(key, now, limit);
            let confirmed = books.with_fills(key, filled);
            let entered = books.with_position(snapshot, position);
            let shown = books.with_report(key);
            let asked = books.with_sync(key, now);
            let read = books.after_snapshot(snapshot, now);
            let settled = books.with_settlement(key, trade, winner);
            &&& placed == (TraderView { pending: placed.pending, ..books })
            &&& cancelled == (TraderView { pending: cancelled.pending, ..books })
            &&& expired == (TraderView { pending: expired.pending, ..books })
            &&& confirmed == (TraderView { pending: confirmed.pending, ..books })
            &&& entered == (TraderView { trades: entered.trades, ..books })
            &&& shown == (TraderView { logged: shown.logged, ..books })
            &&& asked == (TraderView { synced: asked.synced, ..books })
            &&& read == (TraderView {
                pending: read.pending,
                logged: read.logged,
                synced: read.synced,
                trades: read.trades,
                ..books
            })
            &&& settled == (TraderView {
                total_profit: settled.total_profit,
                period_profit: settled.period_profit,
                trades: settled.trades,
                checked: settled.checked,
                ..books
            })
        }),
{
}

/// Cancelling in a market leaves no open order of the side there, and neither adds the market
/// to the books nor takes it out.
pub proof fn cancelling_leaves_no_open_order<A: Amount>(
    books: TraderView<A>,
    key: Seq<char>,
    side: Side,
)
    ensures
        ({
            let after = books.without_open(key, side);
            &&& totals::over_all(after.batches(key), totals::open_one(side)) == 0
            &&& books.pending.contains_key(key) <==> after.pending.contains_key(key)
        }),
{
    if books.pending.contains_key(key) {
        orders::laws::cancelling_leaves_none_open(books.pending[key], side);
    }
    totals::open_orders_are_counted(books.without_open(key, side).batches(key), side);
}

/// A simulation takes nothing from the exchange: neither fills nor expiry change its books. Nor
/// do they change those of a market where nothing was placed.
pub proof fn simulations_take_nothing_from_the_exchange<A: Amount>(
    books: TraderView<A>,
    key: Seq<char>,
    filled: Set<Seq<char>>,
    now: u64,
    limit: u64,
)
    ensures
        books.simulation_mode ==> books.with_fills(key, filled) == books,
        books.simulation_mode ==> books.without_expired(key, now, limit) == books,
        !books.pending.contains_key(key) ==> books.with_fills(key, filled) == books,
        !books.pending.contains_key(key) ==> books.without_expired(key, now, limit) == books,
{
}

/// A trade is seen as it is: each part of it is that part of its view.
pub proof fn trades_are_seen_as_they_are<A>(trade: CycleTrade<A>)
    ensures
        trade.deep_view().condition_id == trade.condition_id@,
        trade.deep_view().period_timestamp == trade.period_timestamp,
        trade.deep_view().market_duration_secs == trade.market_duration_secs,
        trade.deep_view().up_token_id is Some <==> trade.up_token_id is Some,
        trade.up_token_id is Some ==> trade.deep_view().up_token_id->0 == trade.up_token_id->0@,
        trade.deep_view().down_token_id is Some <==> trade.down_token_id is Some,
        trade.down_token_id is Some ==> trade.deep_view().down_token_id->0
            == trade.down_token_id->0@,
        trade.deep_view().up_shares == trade.up_shares,
        trade.deep_view().down_shares == trade.down_shares,
        trade.deep_view().up_avg_price == trade.up_avg_price,
        trade.deep_view().down_avg_price == trade.down_avg_price,
{
}

} // verus!
