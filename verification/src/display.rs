//! The price feed as it is shown.

use crate::amount;
use crate::amount::Amount;
use crate::models::{MarketSnapshot, TokenPrice};
use crate::text;
use crate::text::{decimal_text, padded_text};
use vstd::prelude::*;
use vstd::string::*;

verus! {

/// A date and a time of day.
#[derive(Clone, Copy, Debug)]
pub struct ClockTime {
    pub year: u32,
    pub month: u32,
    pub day: u32,
    pub hour: u32,
    pub minute: u32,
    pub second: u32,
}

impl ClockTime {
    /// The date and the time, as in 2026-02-04T23:17:23. The year has four digits, or as many
    /// as it takes; everything else has two.
    pub open spec fn written(self) -> Seq<char> {
        let year = if self.year < 10_000 {
            text::padded_digits(self.year as nat, 4)
        } else {
            text::decimal_digits(self.year as nat)
        };
        year + "-"@ + text::padded_digits(self.month as nat, 2) + "-"@ + text::padded_digits(
            self.day as nat,
            2,
        ) + "T"@ + text::padded_digits(self.hour as nat, 2) + ":"@ + text::padded_digits(
            self.minute as nat,
            2,
        ) + ":"@ + text::padded_digits(self.second as nat, 2)
    }

    /// `line` with this time in front, in square brackets.
    pub open spec fn stamped_line(self, line: Seq<char>) -> Seq<char> {
        "["@ + self.written() + "] "@ + line
    }

    /// The date and the time, as in 2026-02-04T23:17:23.
    pub fn timestamp(&self) -> (stamp: String)
        ensures
            stamp@ == self.written(),
    {
        let mut stamp: String = if self.year < 10_000 {
            padded_text(self.year as u128, 4)
        } else {
            decimal_text(self.year as u128)
        };
        stamp.append("-");
        stamp.append(padded_text(self.month as u128, 2).as_str());
        stamp.append("-");
        stamp.append(padded_text(self.day as u128, 2).as_str());
        stamp.append("T");
        stamp.append(padded_text(self.hour as u128, 2).as_str());
        stamp.append(":");
        stamp.append(padded_text(self.minute as u128, 2).as_str());
        stamp.append(":");
        stamp.append(padded_text(self.second as u128, 2).as_str());
        stamp
    }

    /// `line` with this time in front, as the history shows it.
    pub fn stamped(&self, line: &str) -> (shown: String)
        ensures
            shown@ == self.stamped_line(line@),
    {
        let mut shown: String = "[".to_owned();
        shown.append(self.timestamp().as_str());
        shown.append("] ");
        shown.append(line);
        shown
    }
}

/// `secs` as hours, minutes and seconds; leading units that are zero are left out.
pub open spec fn remaining_time_of(secs: nat) -> Seq<char> {
    if secs >= 3600 {
        text::decimal_digits(secs / 3600) + "h "@ + text::decimal_digits(secs % 3600 / 60) + "m "@
            + text::decimal_digits(secs % 60) + "s"@
    } else if secs >= 60 {
        text::decimal_digits(secs / 60) + "m "@ + text::decimal_digits(secs % 60) + "s"@
    } else {
        text::decimal_digits(secs) + "s"@
    }
}

/// `secs` as hours, minutes and seconds, e.g. "12m 34s".
pub fn format_remaining_time(secs: u64) -> (shown: String)
    ensures
        shown@ == remaining_time_of(secs as nat),
{
    if secs >= 3600 {
        let mut shown: String = decimal_text((secs / 3600) as u128);
        shown.append("h ");
        shown.append(decimal_text((secs % 3600 / 60) as u128).as_str());
        shown.append("m ");
        shown.append(decimal_text((secs % 60) as u128).as_str());
        shown.append("s");
        shown
    } else if secs >= 60 {
        let mut shown: String = decimal_text((secs / 60) as u128);
        shown.append("m ");
        shown.append(decimal_text((secs % 60) as u128).as_str());
        shown.append("s");
        shown
    } else {
        let mut shown: String = decimal_text(secs as u128);
        shown.append("s");
        shown
    }
}

/// A token's bid and ask, zero where there is none, with two decimal places.
pub open spec fn token_price_of<A: Amount>(token: TokenPrice) -> Seq<char> {
    let bid: A = token.bid_or_zero().amount();
    let ask: A = token.ask_or_zero().amount();
    "BID:$"@ + bid.fixed_text(2) + " ASK:$"@ + ask.fixed_text(2)
}

/// A token's bid and ask, zero where there is none, e.g. "BID:$0.52 ASK:$0.53".
pub fn format_token_price<A: Amount>(token: &TokenPrice) -> (shown: String)
    requires
        token.wf(),
    ensures
        shown@ == token_price_of::<A>(*token),
{
    let bid: A = token.bid_price().to_amount();
    let ask: A = token.ask_price().to_amount();
    let mut shown: String = "BID:$".to_owned();
    shown.append(bid.to_fixed(2).as_str());
    shown.append(" ASK:$");
    shown.append(ask.to_fixed(2).as_str());
    shown
}

/// `price` behind a dollar sign, with two decimal places.
pub open spec fn dollars<A: Amount>(price: A) -> Seq<char> {
    "$"@ + price.fixed_text(2)
}

/// `prices`, one space apart.
pub open spec fn joined_prices<A: Amount>(prices: Seq<A>) -> Seq<char>
    decreases prices.len(),
{
    if prices.len() == 0 {
        Seq::empty()
    } else if prices.len() == 1 {
        dollars(prices[0])
    } else {
        joined_prices(prices.drop_last()) + " "@ + dollars(prices.last())
    }
}

/// The prices that a side was bought at, or a dash where there are none.
pub open spec fn bought_of<A: Amount>(prices: Seq<A>) -> Seq<char> {
    if prices.len() == 0 {
        "\u{2014}"@
    } else {
        joined_prices(prices)
    }
}

fn dollar_text<A: Amount>(price: A) -> (shown: String)
    ensures
        shown@ == dollars(price),
{
    let mut shown: String = "$".to_owned();
    shown.append(price.to_fixed(2).as_str());
    shown
}

/// The prices that a side was bought at, or a dash where there are none.
pub fn format_bought<A: Amount>(prices: &Vec<A>) -> (shown: String)
    ensures
        shown@ == bought_of(prices@),
{
    if prices.len() == 0 {
        return "\u{2014}".to_owned();
    }
    let mut shown: String = dollar_text(prices[0]);
    let mut i: usize = 1;
    assert(prices@.take(1)[0] == prices@[0]);
    while i < prices.len()
        invariant
            1 <= i <= prices@.len(),
            shown@ == joined_prices(prices@.take(i as int)),
        decreases prices@.len() - i,
    {
        assert(prices@.take(i + 1).drop_last() =~= prices@.take(i as int));
        shown.append(" ");
        shown.append(dollar_text(prices[i]).as_str());
        i = i + 1;
    }
    assert(prices@.take(prices@.len() as int) =~= prices@);
    shown
}

/// A token's quote, or "N/A" where the token is missing.
pub open spec fn quote_of<A: Amount>(token: Option<TokenPrice>) -> Seq<char> {
    match token {
        Some(token) => token_price_of::<A>(token),
        None => "N/A"@,
    }
}

fn quote_text<A: Amount>(token: &Option<TokenPrice>) -> (shown: String)
    requires
        token is Some ==> token->0.wf(),
    ensures
        shown@ == quote_of::<A>(*token),
{
    match token {
        Some(token) => format_token_price::<A>(token),
        None => "N/A".to_owned(),
    }
}

/// One line of the price feed, as it is at the time `now`.
pub open spec fn price_line_of<A: Amount>(
    now: ClockTime,
    snapshot: MarketSnapshot,
    up_bought: Seq<A>,
    down_bought: Seq<A>,
) -> Seq<char> {
    now.stamped_line(quotes_of(snapshot, up_bought, down_bought))
}

/// The quotes of a market, the time left, and what was bought at which prices.
pub open spec fn quotes_of<A: Amount>(
    snapshot: MarketSnapshot,
    up_bought: Seq<A>,
    down_bought: Seq<A>,
) -> Seq<char> {
    snapshot.market_name@ + " Up Token "@ + quote_of::<A>(snapshot.btc_market_15m.up_token) + " Down Token "@
        + quote_of::<A>(snapshot.btc_market_15m.down_token) + " remaining time:"@ + remaining_time_of(
        snapshot.btc_15m_time_remaining as nat,
    ) + " | Up bought: "@ + bought_of(up_bought) + " | Down bought: "@ + bought_of(down_bought)
        + "\n"@
}

/// One line of the price feed: the time, quotes, time left, and what was bought at which
/// prices.
pub fn price_line<A: Amount>(
    now: &ClockTime,
    snapshot: &MarketSnapshot,
    up_bought: &Vec<A>,
    down_bought: &Vec<A>,
) -> (line: String)
    requires
        snapshot.wf(),
    ensures
        line@ == price_line_of(*now, *snapshot, up_bought@, down_bought@),
{
    let mut line: String = snapshot.market_name.clone();
    line.append(" Up Token ");
    line.append(quote_text::<A>(&snapshot.btc_market_15m.up_token).as_str());
    line.append(" Down Token ");
    line.append(quote_text::<A>(&snapshot.btc_market_15m.down_token).as_str());
    line.append(" remaining time:");
    line.append(format_remaining_time(snapshot.btc_15m_time_remaining).as_str());
    line.append(" | Up bought: ");
    line.append(format_bought(up_bought).as_str());
    line.append(" | Down bought: ");
    line.append(format_bought(down_bought).as_str());
    line.append("\n");
    now.stamped(line.as_str())
}

/// The shown hours, minutes and seconds add up to the time, and minutes and seconds stay
/// below sixty.
pub proof fn remaining_time_adds_up(secs: nat)
    ensures
        secs / 3600 * 3600 + secs % 3600 / 60 * 60 + secs % 60 == secs,
        secs / 60 * 60 + secs % 60 == secs,
        secs % 3600 / 60 < 60,
        secs % 60 < 60,
{
}

/// `first`, a unit and more reads the same as `second`, a unit and more: the numbers and the
/// units are the same, and so is what follows.
proof fn lemma_number_and_unit(
    first: nat,
    first_rest: Seq<char>,
    second: nat,
    second_rest: Seq<char>,
)
    requires
        first_rest.len() > 0,
        second_rest.len() > 0,
        !('0' <= first_rest[0] <= '9'),
        !('0' <= second_rest[0] <= '9'),
        text::decimal_digits(first) + first_rest == text::decimal_digits(second) + second_rest,
    ensures
        first == second,
        first_rest == second_rest,
{
    let (left, right) = (text::decimal_digits(first), text::decimal_digits(second));
    let whole = left + first_rest;
    crate::market_key::lemma_digit_chars(first);
    crate::market_key::lemma_digit_chars(second);
    assert(whole[left.len() as int] == first_rest[0]);
    assert((right + second_rest)[right.len() as int] == second_rest[0]);
    if left.len() < right.len() {
        assert((right + second_rest)[left.len() as int] == right[left.len() as int]);
    } else if right.len() < left.len() {
        assert(whole[right.len() as int] == left[right.len() as int]);
    }
    assert(left =~= whole.take(left.len() as int));
    assert(right =~= whole.take(left.len() as int));
    assert(first_rest =~= whole.skip(left.len() as int));
    assert(second_rest =~= whole.skip(left.len() as int));
    crate::market_key::lemma_digits_injective(first, second);
}

/// What is shown behind the first number of a remaining time.
spec fn after_first_number(secs: nat) -> Seq<char> {
    if secs >= 3600 {
        "h "@ + after_hours(secs % 3600)
    } else if secs >= 60 {
        "m "@ + (text::decimal_digits(secs % 60) + "s"@)
    } else {
        "s"@
    }
}

/// Minutes and seconds, as they are shown behind the hours.
spec fn after_hours(secs: nat) -> Seq<char> {
    text::decimal_digits(secs / 60) + ("m "@ + (text::decimal_digits(secs % 60) + "s"@))
}

spec fn first_number(secs: nat) -> nat {
    if secs >= 3600 {
        secs / 3600
    } else if secs >= 60 {
        secs / 60
    } else {
        secs
    }
}

proof fn lemma_remaining_parts(secs: nat)
    ensures
        remaining_time_of(secs) == text::decimal_digits(first_number(secs)) + after_first_number(
            secs,
        ),
        after_first_number(secs).len() > 0,
        after_first_number(secs)[0] == if secs >= 3600 {
            'h'
        } else if secs >= 60 {
            'm'
        } else {
            's'
        },
{
    reveal_strlit("h ");
    reveal_strlit("m ");
    reveal_strlit("s");
    assert(secs % 3600 % 60 == secs % 60);
    assert(remaining_time_of(secs) =~= text::decimal_digits(first_number(secs))
        + after_first_number(secs));
}

proof fn lemma_minutes_and_seconds(first: nat, second: nat)
    requires
        after_hours(first) == after_hours(second),
    ensures
        first == second,
{
    reveal_strlit("m ");
    reveal_strlit("s");
    let (left, right) = (
        text::decimal_digits(first % 60) + "s"@,
        text::decimal_digits(second % 60) + "s"@,
    );
    lemma_number_and_unit(first / 60, "m "@ + left, second / 60, "m "@ + right);
    assert(left =~= ("m "@ + left).skip(2));
    assert(right =~= ("m "@ + left).skip(2));
    lemma_number_and_unit(first % 60, "s"@, second % 60, "s"@);
}

/// Different times are shown differently.
pub proof fn remaining_times_read_differently(first: nat, second: nat)
    requires
        remaining_time_of(first) == remaining_time_of(second),
    ensures
        first == second,
{
    reveal_strlit("h ");
    reveal_strlit("m ");
    reveal_strlit("s");
    lemma_remaining_parts(first);
    lemma_remaining_parts(second);
    lemma_number_and_unit(
        first_number(first),
        after_first_number(first),
        first_number(second),
        after_first_number(second),
    );
    let rest = after_first_number(first);
    if first >= 3600 {
        assert(after_hours(first % 3600) =~= rest.skip(2));
        assert(after_hours(second % 3600) =~= rest.skip(2));
        lemma_minutes_and_seconds(first % 3600, second % 3600);
    } else if first >= 60 {
        let (left, right) = (
            text::decimal_digits(first % 60) + "s"@,
            text::decimal_digits(second % 60) + "s"@,
        );
        assert(left =~= rest.skip(2));
        assert(right =~= rest.skip(2));
        lemma_number_and_unit(first % 60, "s"@, second % 60, "s"@);
    }
}

/// A time with a year of four digits reads back: each part stands at its place, and the
/// separators between them.
pub proof fn written_times_read_back(time: ClockTime)
    requires
        time.year < 10_000,
        time.month < 100,
        time.day < 100,
        time.hour < 100,
        time.minute < 100,
        time.second < 100,
    ensures
        ({
            let shown = time.written();
            &&& shown.len() == 19
            &&& text::number_of(shown.subrange(0, 4)) == time.year
            &&& shown[4] == '-'
            &&& text::number_of(shown.subrange(5, 7)) == time.month
            &&& shown[7] == '-'
            &&& text::number_of(shown.subrange(8, 10)) == time.day
            &&& shown[10] == 'T'
            &&& text::number_of(shown.subrange(11, 13)) == time.hour
            &&& shown[13] == ':'
            &&& text::number_of(shown.subrange(14, 16)) == time.minute
            &&& shown[16] == ':'
            &&& text::number_of(shown.subrange(17, 19)) == time.second
        }),
{
    reveal_strlit("-");
    reveal_strlit("T");
    reveal_strlit(":");
    assert(amount::pow10(2) == 100 && amount::pow10(4) == 10_000) by {
        reveal_with_fuel(amount::pow10, 5);
    }
    text::padded_digits_read_back(time.year as nat, 4);
    text::padded_digits_read_back(time.month as nat, 2);
    text::padded_digits_read_back(time.day as nat, 2);
    text::padded_digits_read_back(time.hour as nat, 2);
    text::padded_digits_read_back(time.minute as nat, 2);
    text::padded_digits_read_back(time.second as nat, 2);
    let shown = time.written();
    assert(shown.subrange(0, 4) =~= text::padded_digits(time.year as nat, 4));
    assert(shown.subrange(5, 7) =~= text::padded_digits(time.month as nat, 2));
    assert(shown.subrange(8, 10) =~= text::padded_digits(time.day as nat, 2));
    assert(shown.subrange(11, 13) =~= text::padded_digits(time.hour as nat, 2));
    assert(shown.subrange(14, 16) =~= text::padded_digits(time.minute as nat, 2));
    assert(shown.subrange(17, 19) =~= text::padded_digits(time.second as nat, 2));
}

/// A line with the time in front is that line behind the time in square brackets.
pub proof fn stamped_lines_keep_the_line(time: ClockTime, line: Seq<char>)
    ensures
        ({
            let shown = time.stamped_line(line);
            let width = time.written().len() as int;
            &&& shown.len() == line.len() + width + 3
            &&& shown[0] == '['
            &&& shown.subrange(1, width + 1) == time.written()
            &&& shown[width + 1] == ']'
            &&& shown[width + 2] == ' '
            &&& shown.skip(width + 3) == line
        }),
{
    reveal_strlit("[");
    reveal_strlit("] ");
    let shown = time.stamped_line(line);
    let width = time.written().len() as int;
    assert(shown.subrange(1, width + 1) =~= time.written());
    assert(shown.skip(width + 3) =~= line);
}

/// Any number of hours, minutes and seconds is shown as those numbers, without the units in
/// front that are zero.
pub proof fn hours_minutes_and_seconds_are_shown(hours: nat, minutes: nat, seconds: nat)
    requires
        minutes < 60,
        seconds < 60,
    ensures
        ({
            let shown = remaining_time_of(hours * 3600 + minutes * 60 + seconds);
            let (h, m, s) = (
                text::decimal_digits(hours),
                text::decimal_digits(minutes),
                text::decimal_digits(seconds),
            );
            &&& hours > 0 ==> shown == h + "h "@ + m + "m "@ + s + "s"@
            &&& hours == 0 && minutes > 0 ==> shown == m + "m "@ + s + "s"@
            &&& hours == 0 && minutes == 0 ==> shown == s + "s"@
        }),
{
    let secs = hours * 3600 + minutes * 60 + seconds;
    assert(secs / 3600 == hours);
    assert(secs % 3600 / 60 == minutes);
    assert(secs % 60 == seconds);
    if hours == 0 {
        assert(secs / 60 == minutes);
    }
}

/// A token's quote shows its bid and its ask, each behind its label and to two places, and
/// zero for one that is missing.
pub proof fn quotes_tell_bid_and_ask<A: Amount>(token: TokenPrice)
    ensures
        ({
            let shown = token_price_of::<A>(token);
            let bid = match token.bid {
                Some(bid) => A::decimal(bid.mantissa as int, bid.scale as nat),
                None => A::decimal(0, 0),
            };
            let ask = match token.ask {
                Some(ask) => A::decimal(ask.mantissa as int, ask.scale as nat),
                None => A::decimal(0, 0),
            };
            &&& text::appears_in("BID:$"@ + bid.fixed_text(2), shown)
            &&& text::appears_in(" ASK:$"@ + ask.fixed_text(2), shown)
        }),
{
    broadcast use
        text::lemma_appears_whole,
        text::lemma_appears_last,
        text::lemma_appears_more,
    ;

}

/// Prices that were bought are shown one behind the other, each with a dollar sign and two
/// places; without any, a dash is shown.
pub proof fn every_bought_price_is_shown<A: Amount>(prices: Seq<A>, price: A)
    ensures
        bought_of(Seq::<A>::empty()) == "\u{2014}"@,
        bought_of(seq![price]) == "$"@ + price.fixed_text(2),
        prices.len() > 0 ==> bought_of(prices.push(price)) == bought_of(prices) + " "@ + ("$"@
            + price.fixed_text(2)),
{
    assert(prices.push(price).drop_last() =~= prices);
}

/// A line of the price feed shows the market, both quotes, the time left and the prices that
/// both sides were bought at, each behind its label, and ends the line.
pub proof fn price_lines_tell_everything<A: Amount>(
    snapshot: MarketSnapshot,
    up_bought: Seq<A>,
    down_bought: Seq<A>,
)
    ensures
        ({
            let line = quotes_of(snapshot, up_bought, down_bought);
            let up = match snapshot.btc_market_15m.up_token {
                Some(token) => token_price_of::<A>(token),
                None => "N/A"@,
            };
            let down = match snapshot.btc_market_15m.down_token {
                Some(token) => token_price_of::<A>(token),
                None => "N/A"@,
            };
            let left = remaining_time_of(snapshot.btc_15m_time_remaining as nat);
            &&& snapshot.market_name@.is_prefix_of(line)
            &&& text::appears_in(" Up Token "@ + up, line)
            &&& text::appears_in(up + " Down Token "@, line)
            &&& text::appears_in(" Down Token "@ + down, line)
            &&& text::appears_in(down + " remaining time:"@, line)
            &&& text::appears_in(" remaining time:"@ + left, line)
            &&& text::appears_in(left + " | Up bought: "@, line)
            &&& text::appears_in(" | Up bought: "@ + bought_of(up_bought), line)
            &&& text::appears_in(bought_of(up_bought) + " | Down bought: "@, line)
            &&& text::appears_in(" | Down bought: "@ + bought_of(down_bought), line)
            &&& line.last() == '\n'
        }),
{
    broadcast use
        text::lemma_appears_whole,
        text::lemma_appears_last,
        text::lemma_appears_more,
    ;

    reveal_strlit("\n");
    let line = quotes_of(snapshot, up_bought, down_bought);
    let name = snapshot.market_name@;
    assert(name =~= line.subrange(0, name.len() as int));
}

} // verus!
