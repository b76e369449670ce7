//! What the trader tells the human about orders, positions and profits.

use crate::amount;
use crate::amount::{Amount, Micros};
use crate::orders::Side;
use crate::text;
use crate::text::{decimal_text, uppercase};
use crate::trader::cancelling::CancelDecision;
use crate::trader::closing::{CycleTrade, Settlement, TradeView};
use crate::trader::placing::BatchPlan;
use crate::trader::syncing::PositionReport;
use crate::trader::HoldingsReport;
use vstd::prelude::*;
use vstd::string::*;

verus! {

/// The name that a market is shown under: its asset in upper case, and its timeframe.
pub open spec fn market_name_of(raised_asset: Seq<char>, timeframe: Seq<char>) -> Seq<char> {
    raised_asset + " "@ + timeframe
}

/// The name that a market is shown under, e.g. "BTC 15m".
pub fn market_name(asset: &str, timeframe: &str) -> (name: String)
    ensures
        name@ == market_name_of(text::unicode_uppercase(asset@), timeframe@),
        vstd::utf8::is_ascii_chars(asset@) ==> name@ == market_name_of(
            text::ascii_raised(asset@),
            timeframe@,
        ),
{
    let mut name: String = uppercase(asset);
    name.append(" ");
    name.append(timeframe);
    name
}

/// "ask" and what is added to it, with its sign.
pub open spec fn ask_and_offset<A: Amount>(offset: A) -> Seq<char> {
    if A::decimal(0, 0).is_at_most(offset) {
        "ask+"@ + offset.plain_text()
    } else {
        "ask"@ + offset.plain_text()
    }
}

fn offset_text<A: Amount>(offset: A) -> (shown: String)
    ensures
        shown@ == ask_and_offset(offset),
{
    let mut shown: String = if A::from_decimal(0, 0).at_most(offset) {
        "ask+".to_owned()
    } else {
        "ask".to_owned()
    };
    shown.append(offset.to_plain().as_str());
    shown
}

/// The line about the size of a batch and the prices that it is placed at.
pub fn batch_line<A: Amount>(
    batch_count: usize,
    shares_per_limit_order: A,
    limit_order_price_offset_down: A,
) -> (line: String)
    ensures
        line@ == "   Batch: "@ + text::decimal_digits(batch_count as nat) + " x "@
            + shares_per_limit_order.plain_text() + " shares per limit order (limit = "@
            + ask_and_offset(A::decimal(1, 2)) + " Up, "@ + ask_and_offset(
            limit_order_price_offset_down,
        ) + " Down)"@,
{
    let mut line: String = "   Batch: ".to_owned();
    line.append(decimal_text(batch_count as u128).as_str());
    line.append(" x ");
    line.append(shares_per_limit_order.to_plain().as_str());
    line.append(" shares per limit order (limit = ");
    line.append(offset_text(A::from_decimal(1, 2)).as_str());
    line.append(" Up, ");
    line.append(offset_text(limit_order_price_offset_down).as_str());
    line.append(" Down)");
    line
}

/// The line about the bounds for side prices.
pub fn bounds_line<A: Amount>(min_side_price: A, max_side_price: A) -> (line: String)
    ensures
        line@ == "   Price bounds: $"@ + min_side_price.fixed_text(2) + "\u{2013}$"@
            + max_side_price.fixed_text(2),
{
    let mut line: String = "   Price bounds: $".to_owned();
    line.append(min_side_price.to_fixed(2).as_str());
    line.append("\u{2013}$");
    line.append(max_side_price.to_fixed(2).as_str());
    line
}

// Placing.

/// A batch is about to be placed.
pub open spec fn placing_line_of<A: Amount>(market_name: Seq<char>, plan: BatchPlan<A>) -> Seq<char> {
    "\u{1f4ca} "@ + market_name + ": placing "@ + text::decimal_digits(plan.count as nat)
        + " limit buy "@ + plan.side.name() + " @ $"@ + plan.price.fixed_text(4) + " x "@
        + plan.size.plain_text() + " shares each ("@ + ask_and_offset(plan.offset) + ")"@
}

/// A batch is about to be placed.
pub fn placing_line<A: Amount>(market_name: &str, plan: &BatchPlan<A>) -> (line: String)
    ensures
        line@ == placing_line_of(market_name@, *plan),
{
    let mut line: String = "\u{1f4ca} ".to_owned();
    line.append(market_name);
    line.append(": placing ");
    line.append(decimal_text(plan.count as u128).as_str());
    line.append(" limit buy ");
    line.append(plan.side.label());
    line.append(" @ $");
    line.append(plan.price.to_fixed(4).as_str());
    line.append(" x ");
    line.append(plan.size.to_plain().as_str());
    line.append(" shares each (");
    line.append(offset_text(plan.offset).as_str());
    line.append(")");
    line
}

/// A simulated order stands for the `number`-th of its batch.
pub open spec fn simulated_line_of<A: Amount>(plan: BatchPlan<A>, number: nat) -> Seq<char> {
    "  [SIM] Limit BUY "@ + plan.side.name() + " #"@ + text::decimal_digits(number) + "/"@
        + text::decimal_digits(plan.count as nat) + " @ $"@ + plan.price.fixed_text(4) + " x "@
        + plan.size.plain_text()
}

/// A simulated order stands for the `number`-th of its batch.
pub fn simulated_line<A: Amount>(plan: &BatchPlan<A>, number: usize) -> (line: String)
    ensures
        line@ == simulated_line_of(*plan, number as nat),
{
    let mut line: String = "  [SIM] Limit BUY ".to_owned();
    line.append(plan.side.label());
    line.append(" #");
    line.append(decimal_text(number as u128).as_str());
    line.append("/");
    line.append(decimal_text(plan.count as u128).as_str());
    line.append(" @ $");
    line.append(plan.price.to_fixed(4).as_str());
    line.append(" x ");
    line.append(plan.size.to_plain().as_str());
    line
}

/// The exchange has taken the `number`-th order of a batch.
pub fn placed_line(market_name: &str, number: usize, order_id: &str) -> (line: String)
    ensures
        line@ == "  "@ + market_name@ + " limit order #"@ + text::decimal_digits(number as nat)
            + " placed: "@ + order_id@,
{
    let mut line: String = "  ".to_owned();
    line.append(market_name);
    line.append(" limit order #");
    line.append(decimal_text(number as u128).as_str());
    line.append(" placed: ");
    line.append(order_id);
    line
}

// Cancelling.

/// How a request to cancel ended, once what it called for has been done.
pub open spec fn cancel_line_of(market_name: Seq<char>, side: Side, decision: CancelDecision) -> Seq<
    char,
> {
    let lead = "  "@ + market_name;
    match decision {
        CancelDecision::NoPending => lead + " | No pending orders to cancel for "@ + side.name(),
        CancelDecision::NoOpen => lead + " | No open "@ + side.name() + " orders to cancel"@,
        CancelDecision::Cancel { order_ids } => lead + " | Cancelled "@ + text::decimal_digits(
            order_ids@.len(),
        ) + " "@ + side.name() + " order(s)"@,
        CancelDecision::Untrack { count } => lead + " | Cancelled "@ + text::decimal_digits(
            count as nat,
        ) + " "@ + side.name() + " order(s)"@,
    }
}

/// How a request to cancel ended, once what it called for has been done.
pub fn cancel_line(market_name: &str, side: Side, decision: &CancelDecision) -> (line: String)
    ensures
        line@ == cancel_line_of(market_name@, side, *decision),
{
    let mut line: String = "  ".to_owned();
    line.append(market_name);
    match decision {
        CancelDecision::NoPending => {
            line.append(" | No pending orders to cancel for ");
            line.append(side.label());
        },
        CancelDecision::NoOpen => {
            line.append(" | No open ");
            line.append(side.label());
            line.append(" orders to cancel");
        },
        CancelDecision::Cancel { order_ids } => {
            line.append(" | Cancelled ");
            line.append(decimal_text(order_ids.len() as u128).as_str());
            line.append(" ");
            line.append(side.label());
            line.append(" order(s)");
        },
        CancelDecision::Untrack { count } => {
            line.append(" | Cancelled ");
            line.append(decimal_text(*count).as_str());
            line.append(" ");
            line.append(side.label());
            line.append(" order(s)");
        },
    }
    line
}

// Positions.

/// What is held in a market.
pub open spec fn holdings_line_of<A: Amount>(market_name: Seq<char>, report: HoldingsReport<A>) -> Seq<
    char,
> {
    "  "@ + market_name + " | Holding: "@ + report.held.up_shares.fixed_text(0) + " Up, "@
        + report.held.down_shares.fixed_text(0) + " Down | Unmatched: "@ + text::decimal_digits(
        report.held.unmatched as nat,
    ) + " | Total deposit: $"@ + report.held.total_deposit.fixed_text(2) + " | PnL if Up wins: $"@
        + report.pnl_if_up_wins.fixed_text(2) + " | if Down wins: $"@
        + report.pnl_if_down_wins.fixed_text(2)
}

/// What is held in a market.
pub fn holdings_line<A: Amount>(market_name: &str, report: &HoldingsReport<A>) -> (line: String)
    ensures
        line@ == holdings_line_of(market_name@, *report),
{
    let mut line: String = "  ".to_owned();
    line.append(market_name);
    line.append(" | Holding: ");
    line.append(report.held.up_shares.to_fixed(0).as_str());
    line.append(" Up, ");
    line.append(report.held.down_shares.to_fixed(0).as_str());
    line.append(" Down | Unmatched: ");
    line.append(decimal_text(report.held.unmatched).as_str());
    line.append(" | Total deposit: $");
    line.append(report.held.total_deposit.to_fixed(2).as_str());
    line.append(" | PnL if Up wins: $");
    line.append(report.pnl_if_up_wins.to_fixed(2).as_str());
    line.append(" | if Down wins: $");
    line.append(report.pnl_if_down_wins.to_fixed(2).as_str());
    line
}

/// What is held in a market as the exchange sees it.
pub open spec fn position_line_of<A: Amount>(market_name: Seq<char>, report: PositionReport<A>) -> Seq<
    char,
> {
    "  "@ + market_name + " | Position (from API): Up "@ + report.position.up_shares.fixed_text(2)
        + " @ $"@ + report.position.up_cost.fixed_text(2) + " cost | Down "@
        + report.position.down_shares.fixed_text(2) + " @ $"@
        + report.position.down_cost.fixed_text(2) + " cost | Total $"@
        + report.total_cost.fixed_text(2) + " | PnL if Up wins: $"@
        + report.pnl_if_up_wins.fixed_text(2) + " | if Down wins: $"@
        + report.pnl_if_down_wins.fixed_text(2)
}

/// What is held in a market as the exchange sees it.
pub fn position_line<A: Amount>(market_name: &str, report: &PositionReport<A>) -> (line: String)
    ensures
        line@ == position_line_of(market_name@, *report),
{
    let mut line: String = "  ".to_owned();
    line.append(market_name);
    line.append(" | Position (from API): Up ");
    line.append(report.position.up_shares.to_fixed(2).as_str());
    line.append(" @ $");
    line.append(report.position.up_cost.to_fixed(2).as_str());
    line.append(" cost | Down ");
    line.append(report.position.down_shares.to_fixed(2).as_str());
    line.append(" @ $");
    line.append(report.position.down_cost.to_fixed(2).as_str());
    line.append(" cost | Total $");
    line.append(report.total_cost.to_fixed(2).as_str());
    line.append(" | PnL if Up wins: $");
    line.append(report.pnl_if_up_wins.to_fixed(2).as_str());
    line.append(" | if Down wins: $");
    line.append(report.pnl_if_down_wins.to_fixed(2).as_str());
    line
}

// Closed markets.

/// The name of the side that won, "Unknown" where that is not known.
pub open spec fn winner_name(winner: Option<Side>) -> Seq<char> {
    match winner {
        Some(side) => side.name(),
        None => "Unknown"@,
    }
}

/// What a closed market paid; `short_id` is the beginning of its condition ID.
pub open spec fn resolved_line_of<A: Amount>(
    short_id: Seq<char>,
    trade: TradeView<A>,
    settlement: Settlement<A>,
) -> Seq<char> {
    "Market closed | condition "@ + short_id + " | Winner: "@ + winner_name(settlement.winner)
        + " | Up "@ + trade.up_shares.fixed_text(2) + " @ "@ + trade.up_avg_price.fixed_text(4)
        + " | Down "@ + trade.down_shares.fixed_text(2) + " @ "@ + trade.down_avg_price.fixed_text(
        4,
    ) + " | Cost $"@ + settlement.total_cost.fixed_text(2) + " | Payout $"@
        + settlement.payout.fixed_text(2) + " | Actual PnL $"@ + settlement.pnl.fixed_text(2)
}

/// What a closed market paid; `short_id` is the beginning of its condition ID.
pub fn resolved_line<A: Amount>(
    short_id: &str,
    trade: &CycleTrade<A>,
    settlement: &Settlement<A>,
) -> (line: String)
    ensures
        line@ == resolved_line_of(short_id@, trade.deep_view(), *settlement),
{
    let mut line: String = "Market closed | condition ".to_owned();
    line.append(short_id);
    line.append(" | Winner: ");
    line.append(
        match settlement.winner {
            Some(side) => side.label(),
            None => "Unknown",
        },
    );
    line.append(" | Up ");
    line.append(trade.up_shares.to_fixed(2).as_str());
    line.append(" @ ");
    line.append(trade.up_avg_price.to_fixed(4).as_str());
    line.append(" | Down ");
    line.append(trade.down_shares.to_fixed(2).as_str());
    line.append(" @ ");
    line.append(trade.down_avg_price.to_fixed(4).as_str());
    line.append(" | Cost $");
    line.append(settlement.total_cost.to_fixed(2).as_str());
    line.append(" | Payout $");
    line.append(settlement.payout.to_fixed(2).as_str());
    line.append(" | Actual PnL $");
    line.append(settlement.pnl.to_fixed(2).as_str());
    line
}

/// What a closed market brought in, and all markets so far.
pub fn settled_line<A: Amount>(settlement: &Settlement<A>) -> (line: String)
    ensures
        line@ == "  -> Actual PnL this market: $"@ + settlement.pnl.fixed_text(2)
            + " | Total actual PnL (all time): $"@ + settlement.total_profit.fixed_text(2),
{
    let mut line: String = "  -> Actual PnL this market: $".to_owned();
    line.append(settlement.pnl.to_fixed(2).as_str());
    line.append(" | Total actual PnL (all time): $");
    line.append(settlement.total_profit.to_fixed(2).as_str());
    line
}

/// `amount` is neither above nor below zero.
pub open spec fn is_zero<A: Amount>(amount: A) -> bool {
    amount.is_at_most(A::decimal(0, 0)) && A::decimal(0, 0).is_at_most(amount)
}

/// The profits so far, where there are any.
pub fn profit_line<A: Amount>(total_profit: A, period_profit: A) -> (line: Option<String>)
    ensures
        line is Some <==> !is_zero(total_profit) || !is_zero(period_profit),
        line is Some ==> line->0@ == "Current Profit - Period: $"@ + period_profit.fixed_text(2)
            + " | Total: $"@ + total_profit.fixed_text(2),
{
    let zero: A = A::from_decimal(0, 0);
    if total_profit.at_most(zero) && zero.at_most(total_profit) && period_profit.at_most(zero)
        && zero.at_most(period_profit) {
        return None;
    }
    let mut line: String = "Current Profit - Period: $".to_owned();
    line.append(period_profit.to_fixed(2).as_str());
    line.append(" | Total: $");
    line.append(total_profit.to_fixed(2).as_str());
    Some(line)
}

/// A market is shown under its asset and its timeframe, one space apart.
pub proof fn names_tell_asset_and_timeframe(raised_asset: Seq<char>, timeframe: Seq<char>)
    ensures
        ({
            let name = market_name_of(raised_asset, timeframe);
            &&& name.take(raised_asset.len() as int) == raised_asset
            &&& name[raised_asset.len() as int] == ' '
            &&& name.skip(raised_asset.len() as int + 1) == timeframe
        }),
{
    reveal_strlit(" ");
    let name = market_name_of(raised_asset, timeframe);
    assert(name.take(raised_asset.len() as int) =~= raised_asset);
    assert(name.skip(raised_asset.len() as int + 1) =~= timeframe);
}

/// With exact amounts, what is added to the ask is shown with its sign: a plus where it is not
/// negative, and else the minus of the number itself.
pub proof fn offsets_are_shown_with_their_sign(offset: Micros)
    ensures
        "ask"@.is_prefix_of(ask_and_offset(offset)),
        offset.units >= 0 ==> ask_and_offset(offset).skip(4) == offset.plain_text()
            && ask_and_offset(offset)[3] == '+',
        offset.units < 0 ==> ask_and_offset(offset).skip(3) == offset.plain_text()
            && ask_and_offset(offset)[3] == '-',
{
    reveal_strlit("ask");
    reveal_strlit("ask+");
    reveal_with_fuel(amount::pow10, 1);
    let shown = ask_and_offset(offset);
    assert("ask"@ =~= shown.subrange(0, 3));
    if offset.units >= 0 {
        assert(shown.skip(4) =~= offset.plain_text());
    } else {
        assert(shown.skip(3) =~= offset.plain_text());
        assert(offset.plain_text()[0] == '-');
    }
}

/// The line about a batch to place shows the market, the number of orders, the side, the price
/// to four places, the size and the offset.
pub proof fn placing_lines_tell_the_plan<A: Amount>(market_name: Seq<char>, plan: BatchPlan<A>)
    ensures
        ({
            let line = placing_line_of(market_name, plan);
            &&& text::appears_in("\u{1f4ca} "@ + market_name, line)
            &&& text::appears_in(": placing "@ + text::decimal_digits(plan.count as nat), line)
            &&& text::appears_in(" limit buy "@ + plan.side.name(), line)
            &&& text::appears_in(" @ $"@ + plan.price.fixed_text(4), line)
            &&& text::appears_in(" x "@ + plan.size.plain_text(), line)
            &&& text::appears_in(" shares each ("@ + ask_and_offset(plan.offset), line)
        }),
{
    broadcast use
        text::lemma_appears_whole,
        text::lemma_appears_last,
        text::lemma_appears_more,
    ;

}

/// The line about a simulated order shows its side, which order of how many it is, its price
/// to four places, and its size.
pub proof fn simulated_lines_tell_the_order<A: Amount>(plan: BatchPlan<A>, number: nat)
    ensures
        ({
            let line = simulated_line_of(plan, number);
            &&& text::appears_in("  [SIM] Limit BUY "@ + plan.side.name(), line)
            &&& text::appears_in(" #"@ + text::decimal_digits(number), line)
            &&& text::appears_in("/"@ + text::decimal_digits(plan.count as nat), line)
            &&& text::appears_in(" @ $"@ + plan.price.fixed_text(4), line)
            &&& text::appears_in(" x "@ + plan.size.plain_text(), line)
        }),
{
    broadcast use
        text::lemma_appears_whole,
        text::lemma_appears_last,
        text::lemma_appears_more,
    ;

}

/// The line about a request to cancel shows the market and the side, and how many orders were
/// cancelled where any were.
pub proof fn cancel_lines_tell_what_was_cancelled(
    market_name: Seq<char>,
    side: Side,
    decision: CancelDecision,
)
    ensures
        ({
            let line = cancel_line_of(market_name, side, decision);
            &&& text::appears_in("  "@ + market_name, line)
            &&& text::appears_in(side.name(), line)
            &&& decision is Cancel ==> text::appears_in(
                " | Cancelled "@ + text::decimal_digits(decision->order_ids@.len()),
                line,
            )
            &&& decision is Untrack ==> text::appears_in(
                " | Cancelled "@ + text::decimal_digits(decision->count as nat),
                line,
            )
            &&& decision is NoPending ==> text::appears_in(
                " | No pending orders to cancel for "@ + side.name(),
                line,
            )
            &&& decision is NoOpen ==> text::appears_in(" | No open "@ + side.name(), line)
        }),
{
    broadcast use
        text::lemma_appears_whole,
        text::lemma_appears_last,
        text::lemma_appears_more,
    ;

    let lead = "  "@ + market_name;
    let none = Seq::<char>::empty();
    let name = side.name();
    assert(none + name =~= name);
    match decision {
        CancelDecision::NoPending => {
            let before = lead + " | No pending orders to cancel for "@;
            assert(before + none + name =~= before + name);
            text::lemma_appears_last(before, none, name);
        },
        CancelDecision::NoOpen => {
            let before = lead + " | No open "@;
            assert(before + none + name =~= before + name);
            text::lemma_appears_last(before, none, name);
            text::lemma_appears_more(name, before + name, " orders to cancel"@);
        },
        CancelDecision::Cancel { order_ids } => {
            let before = lead + " | Cancelled "@ + text::decimal_digits(order_ids@.len()) + " "@;
            assert(before + none + name =~= before + name);
            text::lemma_appears_last(before, none, name);
            text::lemma_appears_more(name, before + name, " order(s)"@);
        },
        CancelDecision::Untrack { count } => {
            let before = lead + " | Cancelled "@ + text::decimal_digits(count as nat) + " "@;
            assert(before + none + name =~= before + name);
            text::lemma_appears_last(before, none, name);
            text::lemma_appears_more(name, before + name, " order(s)"@);
        },
    }
}

/// The line about holdings shows each number behind its label: the shares of both sides, the
/// unmatched orders, the deposit, and what each outcome would bring in.
pub proof fn holdings_lines_tell_every_number<A: Amount>(
    market_name: Seq<char>,
    report: HoldingsReport<A>,
)
    ensures
        ({
            let line = holdings_line_of(market_name, report);
            &&& text::appears_in("  "@ + market_name, line)
            &&& text::appears_in(" | Holding: "@ + report.held.up_shares.fixed_text(0), line)
            &&& text::appears_in(" Up, "@ + report.held.down_shares.fixed_text(0), line)
            &&& text::appears_in(
                " Down | Unmatched: "@ + text::decimal_digits(report.held.unmatched as nat),
                line,
            )
            &&& text::appears_in(
                " | Total deposit: $"@ + report.held.total_deposit.fixed_text(2),
                line,
            )
            &&& text::appears_in(" | PnL if Up wins: $"@ + report.pnl_if_up_wins.fixed_text(2), line)
            &&& text::appears_in(" | if Down wins: $"@ + report.pnl_if_down_wins.fixed_text(2), line)
        }),
{
    broadcast use
        text::lemma_appears_whole,
        text::lemma_appears_last,
        text::lemma_appears_more,
    ;

}

/// The line about a position shows each number behind its label: shares and cost of both
/// sides, the whole cost, and what each outcome would bring in.
pub proof fn position_lines_tell_every_number<A: Amount>(
    market_name: Seq<char>,
    report: PositionReport<A>,
)
    ensures
        ({
            let line = position_line_of(market_name, report);
            let up = report.position.up_cost.fixed_text(2);
            let down = report.position.down_cost.fixed_text(2);
            &&& text::appears_in("  "@ + market_name, line)
            &&& text::appears_in(
                " | Position (from API): Up "@ + report.position.up_shares.fixed_text(2),
                line,
            )
            &&& text::appears_in(" @ $"@ + up, line)
            &&& text::appears_in(up + " cost | Down "@, line)
            &&& text::appears_in(
                " cost | Down "@ + report.position.down_shares.fixed_text(2),
                line,
            )
            &&& text::appears_in(" @ $"@ + down, line)
            &&& text::appears_in(down + " cost | Total $"@, line)
            &&& text::appears_in(" cost | Total $"@ + report.total_cost.fixed_text(2), line)
            &&& text::appears_in(" | PnL if Up wins: $"@ + report.pnl_if_up_wins.fixed_text(2), line)
            &&& text::appears_in(" | if Down wins: $"@ + report.pnl_if_down_wins.fixed_text(2), line)
        }),
{
    broadcast use
        text::lemma_appears_whole,
        text::lemma_appears_last,
        text::lemma_appears_more,
    ;

}

/// The line about a closed market shows the market, the winner, shares and average price of
/// both sides, what they cost, what they paid, and what that came to.
pub proof fn resolved_lines_tell_every_number<A: Amount>(
    short_id: Seq<char>,
    trade: TradeView<A>,
    settlement: Settlement<A>,
)
    ensures
        ({
            let line = resolved_line_of(short_id, trade, settlement);
            let up = trade.up_avg_price.fixed_text(4);
            let down = trade.down_avg_price.fixed_text(4);
            &&& text::appears_in("Market closed | condition "@ + short_id, line)
            &&& settlement.winner == Some(Side::Up) ==> text::appears_in(
                " | Winner: "@ + Side::Up.name(),
                line,
            )
            &&& settlement.winner == Some(Side::Down) ==> text::appears_in(
                " | Winner: "@ + Side::Down.name(),
                line,
            )
            &&& settlement.winner is None ==> text::appears_in(" | Winner: "@ + "Unknown"@, line)
            &&& text::appears_in(" | Up "@ + trade.up_shares.fixed_text(2), line)
            &&& text::appears_in(" @ "@ + up, line)
            &&& text::appears_in(up + " | Down "@, line)
            &&& text::appears_in(" | Down "@ + trade.down_shares.fixed_text(2), line)
            &&& text::appears_in(" @ "@ + down, line)
            &&& text::appears_in(down + " | Cost $"@, line)
            &&& text::appears_in(" | Cost $"@ + settlement.total_cost.fixed_text(2), line)
            &&& text::appears_in(" | Payout $"@ + settlement.payout.fixed_text(2), line)
            &&& text::appears_in(" | Actual PnL $"@ + settlement.pnl.fixed_text(2), line)
        }),
{
    broadcast use
        text::lemma_appears_whole,
        text::lemma_appears_last,
        text::lemma_appears_more,
    ;

}

/// With exact amounts, there are profits to show where one of them is not zero.
pub proof fn profits_are_shown_unless_zero(amount: Micros)
    ensures
        is_zero(amount) <==> amount.units == 0,
{
    reveal_with_fuel(amount::pow10, 1);
}

} // verus!
