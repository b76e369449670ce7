//! Market, order and fill data as the exchange reports it.

use crate::amount;
use crate::amount::{MAX_MANTISSA, MAX_SCALE};
use crate::decimal;
use crate::decimal::{checked_sum, divided, DecimalValue};
use crate::text;
use crate::text::same_ignoring_ascii_case;
use vstd::prelude::*;

verus! {

#[derive(Clone, Debug)]
pub struct Market {
    pub condition_id: String,
    pub market_id: Option<String>,
    pub question: String,
    pub slug: String,
    pub resolution_source: Option<String>,
    pub end_date_iso: Option<String>,
    pub end_date_iso_alt: Option<String>,
    pub active: bool,
    pub closed: bool,
    pub tokens: Option<Vec<Token>>,
    pub clob_token_ids: Option<String>,
    pub outcomes: Option<String>,
}

#[derive(Clone, Debug)]
pub struct Token {
    pub token_id: String,
    pub outcome: String,
    pub price: Option<DecimalValue>,
}

#[derive(Clone, Debug)]
pub struct OrderBook {
    pub bids: Vec<OrderBookEntry>,
    pub asks: Vec<OrderBookEntry>,
}

#[derive(Clone, Debug)]
pub struct OrderBookEntry {
    pub price: DecimalValue,
    pub size: DecimalValue,
}

#[derive(Clone, Debug)]
pub struct TokenPrice {
    pub token_id: String,
    pub bid: Option<DecimalValue>,
    pub ask: Option<DecimalValue>,
}

/// The sum of two prices is out of the range of decimal numbers.
#[derive(Clone, Copy, Debug, PartialEq, Eq, Structural)]
pub struct PriceOverflow;

impl TokenPrice {
    /// Bid and ask, where there are any, are decimal numbers in range.
    pub open spec fn wf(self) -> bool {
        &&& self.bid is Some ==> self.bid->0.wf()
        &&& self.ask is Some ==> self.ask->0.wf()
    }

    /// Mantissa and scale of bid plus ask, where there are both and the sum is in range.
    pub open spec fn quote_sum(self) -> Option<(int, int)>
        recommends
            self.bid is Some,
            self.ask is Some,
    {
        decimal::decimal_sum(
            self.bid->0.mantissa as int,
            self.bid->0.scale as int,
            self.ask->0.mantissa as int,
            self.ask->0.scale as int,
        )
    }

    /// `mid` is what halving bid plus ask gives.
    pub open spec fn is_half_of_quotes(self, mid: DecimalValue) -> bool
        recommends
            self.quote_sum() is Some,
    {
        let (mantissa, scale) = self.quote_sum()->0;
        (mid.mantissa as int, mid.scale as int) == decimal::decimal_quotient(mantissa, scale, 2)
    }

    /// Bid plus ask can be written down wherever there are both.
    pub open spec fn sum_in_range(self) -> bool {
        self.bid is Some && self.ask is Some ==> decimal::sum_fits(self.bid->0, self.ask->0)
            || self.quote_sum() is Some
    }

    /// Half of bid plus ask; the one there is where the other is missing.
    pub fn mid_price(&self) -> (mid: Option<DecimalValue>)
        requires
            self.wf(),
            self.sum_in_range(),
        ensures
            match (self.bid, self.ask) {
                (Some(bid), Some(ask)) => mid is Some && self.is_half_of_quotes(mid->0)
                    && exact_mid(bid, ask, mid->0),
                (Some(bid), None) => mid == Some(bid),
                (None, Some(ask)) => mid == Some(ask),
                (None, None) => mid is None,
            },
    {
        match (self.bid, self.ask) {
            (Some(bid), Some(ask)) => match checked_sum(bid, ask) {
                Some(sum) => {
                    let mid: DecimalValue = divided(sum, 2);
                    proof {
                        lemma_exact_mid(bid, ask, sum, mid);
                    }
                    Some(mid)
                },
                None => None,
            },
            (Some(bid), None) => Some(bid),
            (None, Some(ask)) => Some(ask),
            (None, None) => None,
        }
    }

    /// As `mid_price`, for quotes of any size: an error where bid plus ask is out of range.
    pub fn checked_mid_price(&self) -> (mid: Result<Option<DecimalValue>, PriceOverflow>)
        requires
            self.wf(),
        ensures
            mid is Err <==> !self.sum_in_range(),
            mid is Ok ==> match (self.bid, self.ask) {
                (Some(bid), Some(ask)) => mid->Ok_0 is Some && self.is_half_of_quotes(mid->Ok_0->0)
                    && exact_mid(bid, ask, mid->Ok_0->0),
                (Some(bid), None) => mid->Ok_0 == Some(bid),
                (None, Some(ask)) => mid->Ok_0 == Some(ask),
                (None, None) => mid->Ok_0 is None,
            },
    {
        match (self.bid, self.ask) {
            (Some(bid), Some(ask)) => match checked_sum(bid, ask) {
                Some(_) => Ok(self.mid_price()),
                None => Err(PriceOverflow),
            },
            _ => Ok(self.mid_price()),
        }
    }

    /// The ask that stands for a token: zero where there is none.
    pub open spec fn ask_or_zero(self) -> DecimalValue {
        match self.ask {
            Some(ask) => ask,
            None => DecimalValue { mantissa: 0, scale: 0 },
        }
    }

    /// The ask, or zero where there is none.
    pub fn ask_price(&self) -> (ask: DecimalValue)
        ensures
            ask == self.ask_or_zero(),
    {
        match self.ask {
            Some(ask) => ask,
            None => DecimalValue { mantissa: 0, scale: 0 },
        }
    }

    /// The bid that stands for a token: zero where there is none.
    pub open spec fn bid_or_zero(self) -> DecimalValue {
        match self.bid {
            Some(bid) => bid,
            None => DecimalValue { mantissa: 0, scale: 0 },
        }
    }

    /// The bid, or zero where there is none.
    pub fn bid_price(&self) -> (bid: DecimalValue)
        ensures
            bid == self.bid_or_zero(),
    {
        match self.bid {
            Some(bid) => bid,
            None => DecimalValue { mantissa: 0, scale: 0 },
        }
    }
}

/// Where bid plus ask fits, and half of it can be written down, `mid` is that half: twice the
/// mid price is bid plus ask. An even sum is halved at its own scale.
pub open spec fn exact_mid(bid: DecimalValue, ask: DecimalValue, mid: DecimalValue) -> bool {
    let (sum, scale) = decimal::exact_sum(bid, ask);
    decimal::sum_fits(bid, ask) ==> {
        &&& sum != 0 && sum % 2 == 0 ==> mid.mantissa * 2 == sum && mid.scale == scale
        &&& decimal::half_fits(sum, scale) ==> mid.mantissa * 2 * amount::pow10(scale) == sum
            * amount::pow10(mid.scale as nat)
    }
}

proof fn lemma_exact_mid(
    bid: DecimalValue,
    ask: DecimalValue,
    sum: DecimalValue,
    mid: DecimalValue,
)
    requires
        decimal::sum_fits(bid, ask) ==> (sum.mantissa as int, sum.scale as nat)
            == decimal::exact_sum(bid, ask),
        sum.mantissa == 0 ==> mid.mantissa == 0,
        sum.mantissa != 0 && sum.mantissa % 2 == 0 ==> mid.mantissa * 2 == sum.mantissa
            && mid.scale == sum.scale,
        sum.scale < MAX_SCALE && -MAX_MANTISSA <= 5 * sum.mantissa <= MAX_MANTISSA
            ==> mid.mantissa * 2 * amount::pow10(sum.scale as nat) == sum.mantissa
            * amount::pow10(mid.scale as nat),
    ensures
        exact_mid(bid, ask, mid),
{
    if sum.mantissa == 0 {
        assert(mid.mantissa * 2 * amount::pow10(sum.scale as nat) == sum.mantissa
            * amount::pow10(mid.scale as nat)) by (nonlinear_arith)
            requires
                sum.mantissa == 0,
                mid.mantissa == 0,
        ;
    }
}

/// Order structure for creating orders (before signing).
#[derive(Clone, Debug)]
pub struct OrderRequest {
    pub token_id: String,
    /// "BUY" or "SELL".
    pub side: String,
    pub size: String,
    pub price: String,
    /// "LIMIT" or "MARKET".
    pub order_type: String,
}

/// Signed order structure for posting to the exchange.
#[derive(Clone, Debug)]
pub struct SignedOrder {
    pub token_id: String,
    pub side: String,
    pub size: String,
    pub price: String,
    /// "LIMIT" or "MARKET".
    pub order_type: String,
    pub signature: Option<String>,
    pub signer: Option<String>,
    pub nonce: Option<u64>,
    pub expiration: Option<u64>,
}

#[derive(Clone, Debug)]
pub struct OrderResponse {
    pub order_id: Option<String>,
    pub status: String,
    pub message: Option<String>,
}

#[derive(Clone, Debug)]
pub struct BalanceResponse {
    pub balance: String,
    pub allowance: String,
}

#[derive(Clone, Debug)]
pub struct RedeemResponse {
    pub success: bool,
    pub message: Option<String>,
    pub transaction_hash: Option<String>,
    pub amount_redeemed: Option<String>,
}

/// A market as looked up by its slug.
#[derive(Clone, Debug)]
pub struct GammaMarketBySlug {
    pub condition_id: String,
    pub slug: String,
    pub active: bool,
    pub closed: bool,
    /// Probabilities of Up and Down, e.g. `["0.545", "0.455"]`.
    pub outcome_prices: String,
}

#[derive(Clone, Copy, Debug)]
pub struct OutcomePrices<A> {
    /// Probability that Up wins (first outcome).
    pub up: A,
    /// Probability that Down wins (second outcome).
    pub down: A,
}

/// What `serde_json::from_str` reads from `text` as an array of strings, or `None` where
/// `text` is no such array.
pub uninterp spec fn json_string_array(text: Seq<char>) -> Option<Seq<Seq<char>>>;

/// Calls `serde_json::from_str::<Vec<String>>`, whose result depends on the text alone; an
/// error is handed on as `None`.
#[verifier::external_body]
pub(crate) fn read_string_array(text: &str) -> (items: Option<Vec<String>>)
    ensures
        items.deep_view() == json_string_array(text@),
{
    serde_json::from_str::<Vec<String>>(text).ok()
}

/// The name of the first of `tokens` whose outcome is `outcome`, in any case.
pub open spec fn token_of_outcome(tokens: Seq<Token>, outcome: Seq<char>) -> Option<Seq<char>>
    decreases tokens.len(),
{
    if tokens.len() == 0 {
        None
    } else if text::ascii_lowered(tokens.first().outcome@) == text::ascii_lowered(outcome) {
        Some(tokens.first().token_id@)
    } else {
        token_of_outcome(tokens.drop_first(), outcome)
    }
}

fn find_token(tokens: &Vec<Token>, outcome: &str) -> (token_id: Option<String>)
    ensures
        token_id.deep_view() == token_of_outcome(tokens@, outcome@),
{
    let mut i: usize = 0;
    assert(tokens@.skip(0) =~= tokens@);
    while i < tokens.len()
        invariant
            i <= tokens@.len(),
            token_of_outcome(tokens@, outcome@) == token_of_outcome(
                tokens@.skip(i as int),
                outcome@,
            ),
        decreases tokens@.len() - i,
    {
        assert(tokens@.skip(i as int).drop_first() =~= tokens@.skip(i + 1));
        if same_ignoring_ascii_case(tokens[i].outcome.as_str(), outcome) {
            return Some(tokens[i].token_id.clone());
        }
        i = i + 1;
    }
    None
}

impl Market {
    /// The tokens of Up and Down: by their outcomes where the market lists its tokens, else
    /// the first two of `listed`.
    pub open spec fn up_and_down(self, listed: Option<Seq<Seq<char>>>) -> (
        Option<Seq<char>>,
        Option<Seq<char>>,
    ) {
        match (self.tokens, listed) {
            (Some(tokens), _) => (
                token_of_outcome(tokens@, "Up"@),
                token_of_outcome(tokens@, "Down"@),
            ),
            (None, Some(ids)) => (
                if ids.len() > 0 {
                    Some(ids[0])
                } else {
                    None
                },
                if ids.len() > 1 {
                    Some(ids[1])
                } else {
                    None
                },
            ),
            (None, None) => (None, None),
        }
    }

    /// The tokens of Up and Down, where `listed` are the token IDs that the market names.
    pub fn token_ids_from(&self, listed: &Option<Vec<String>>) -> (ids: (
        Option<String>,
        Option<String>,
    ))
        ensures
            (ids.0.deep_view(), ids.1.deep_view()) == self.up_and_down(listed.deep_view()),
    {
        match (&self.tokens, listed) {
            (Some(tokens), _) => (find_token(tokens, "Up"), find_token(tokens, "Down")),
            (None, Some(ids)) => {
                let up: Option<String> = if ids.len() > 0 {
                    assert(ids.deep_view()[0] == ids@[0]@);
                    Some(ids[0].clone())
                } else {
                    None
                };
                let down: Option<String> = if ids.len() > 1 {
                    assert(ids.deep_view()[1] == ids@[1]@);
                    Some(ids[1].clone())
                } else {
                    None
                };
                (up, down)
            },
            (None, None) => (None, None),
        }
    }

    /// The tokens of Up and Down.
    pub fn token_ids(&self) -> (ids: (Option<String>, Option<String>))
        ensures
            (ids.0.deep_view(), ids.1.deep_view()) == self.up_and_down(
                match self.clob_token_ids {
                    Some(listed) => json_string_array(listed@),
                    None => None,
                },
            ),
    {
        let listed: Option<Vec<String>> = match &self.clob_token_ids {
            Some(listed) => read_string_array(listed.as_str()),
            None => None,
        };
        self.token_ids_from(&listed)
    }
}

/// `prices` is what `parse` may make of the first two of `items`: both numbers, or nothing
/// where there are fewer than two items or one of the two is no number.
pub open spec fn outcome_prices_of<A, F: Fn(&str) -> Option<A>>(
    items: Option<Seq<Seq<char>>>,
    parse: F,
    prices: Option<OutcomePrices<A>>,
) -> bool {
    match items {
        Some(items) => if items.len() < 2 {
            prices is None
        } else {
            match prices {
                Some(prices) => parses_to(parse, items[0], Some(prices.up)) && parses_to(
                    parse,
                    items[1],
                    Some(prices.down),
                ),
                None => parses_to(parse, items[0], None) || parses_to(parse, items[1], None),
            }
        },
        None => prices is None,
    }
}

/// `parse` may turn `item` into `number`.
pub open spec fn parses_to<A, F: Fn(&str) -> Option<A>>(
    parse: F,
    item: Seq<char>,
    number: Option<A>,
) -> bool {
    exists|piece: &str| piece@ == item && #[trigger] call_ensures(parse, (piece,), number)
}

/// The numbers that `parse` finds in the first two of `items`.
pub fn outcome_prices_from<A, F: Fn(&str) -> Option<A>>(
    items: Option<Vec<String>>,
    parse: F,
) -> (prices: Option<OutcomePrices<A>>)
    requires
        forall|piece: &str| #[trigger] call_requires(parse, (piece,)),
    ensures
        outcome_prices_of(items.deep_view(), parse, prices),
{
    match items {
        Some(items) => {
            if items.len() >= 2 {
                assert(items.deep_view()[0] == items@[0]@);
                assert(items.deep_view()[1] == items@[1]@);
                let first: &str = items[0].as_str();
                match parse(first) {
                    Some(up) => {
                        let second: &str = items[1].as_str();
                        match parse(second) {
                            Some(down) => Some(OutcomePrices { up, down }),
                            None => None,
                        }
                    },
                    None => None,
                }
            } else {
                None
            }
        },
        None => None,
    }
}

impl GammaMarketBySlug {
    /// Reads `outcome_prices`, an array of number strings such as `["0.595", "0.405"]`, into
    /// the probabilities of Up and Down.
    pub fn parse_outcome_prices<A, F: Fn(&str) -> Option<A>>(&self, parse: F) -> (prices: Option<
        OutcomePrices<A>,
    >)
        requires
            forall|piece: &str| #[trigger] call_requires(parse, (piece,)),
        ensures
            outcome_prices_of(
                json_string_array(text::trimmed_of(self.outcome_prices@)),
                parse,
                prices,
            ),
    {
        outcome_prices_from(read_string_array(text::trimmed(self.outcome_prices.as_str())), parse)
    }
}

#[derive(Clone, Debug)]
pub struct MarketData {
    pub condition_id: String,
    pub market_name: String,
    pub up_token: Option<TokenPrice>,
    pub down_token: Option<TokenPrice>,
}

impl MarketData {
    /// The quotes of both tokens are in range.
    pub open spec fn wf(self) -> bool {
        &&& self.up_token is Some ==> self.up_token->0.wf()
        &&& self.down_token is Some ==> self.down_token->0.wf()
    }
}

/// One reading of the price feed for one market.
#[derive(Clone, Debug)]
pub struct MarketSnapshot {
    pub market_name: String,
    pub btc_market_15m: MarketData,
    pub btc_15m_period_timestamp: u64,
    pub btc_15m_time_remaining: u64,
    pub market_duration_secs: u64,
}

impl MarketSnapshot {
    /// The quotes of both tokens are in range.
    pub open spec fn wf(self) -> bool {
        self.btc_market_15m.wf()
    }
}

#[derive(Clone, Debug)]
pub struct MarketToken {
    pub outcome: String,
    pub price: DecimalValue,
    pub token_id: String,
    pub winner: bool,
}

#[derive(Clone, Debug)]
pub struct MarketDetails {
    pub accepting_order_timestamp: Option<String>,
    pub accepting_orders: bool,
    pub active: bool,
    pub archived: bool,
    pub closed: bool,
    pub condition_id: String,
    pub description: String,
    pub enable_order_book: bool,
    pub end_date_iso: String,
    pub fpmm: String,
    pub game_start_time: Option<String>,
    pub icon: String,
    pub image: String,
    pub is_50_50_outcome: bool,
    pub maker_base_fee: DecimalValue,
    pub market_slug: String,
    pub minimum_order_size: DecimalValue,
    pub minimum_tick_size: DecimalValue,
    pub neg_risk: bool,
    pub neg_risk_market_id: String,
    pub neg_risk_request_id: String,
    pub notifications_enabled: bool,
    pub question: String,
    pub question_id: String,
    pub rewards: Rewards,
    pub seconds_delay: u32,
    pub tags: Vec<String>,
    pub taker_base_fee: DecimalValue,
    pub tokens: Vec<MarketToken>,
}

#[derive(Clone, Debug)]
pub struct Rewards {
    pub max_spread: DecimalValue,
    pub min_size: DecimalValue,
    /// Reward rates, as JSON text.
    pub rates: Option<String>,
}

#[derive(Clone, Debug)]
pub struct Fill<A> {
    pub id: Option<String>,
    pub token_id: Option<String>,
    pub asset: Option<String>,
    pub token_name: Option<String>,
    pub side: String,
    pub size: A,
    pub usdc_size: Option<A>,
    pub price: A,
    pub timestamp: u64,
    pub order_id: Option<String>,
    pub user: Option<String>,
    /// Proxy wallet from the data API.
    pub proxy_wallet: Option<String>,
    pub maker: Option<String>,
    pub taker: Option<String>,
    pub fee: Option<String>,
    /// Condition ID from the data API.
    pub condition_id: Option<String>,
    /// Outcome index (0=Up, 1=Down).
    pub outcome_index: Option<u32>,
    /// "Up" or "Down".
    pub outcome: Option<String>,
    /// "TRADE", "REDEMPTION", etc.
    pub activity_type: Option<String>,
    pub transaction_hash: Option<String>,
    /// Market title.
    pub title: Option<String>,
    /// Market slug.
    pub slug: Option<String>,
}

/// The first of two that is there.
pub open spec fn first_of<T>(first: Option<T>, second: Option<T>) -> Option<T> {
    if first is Some {
        first
    } else {
        second
    }
}

fn first_present<'a>(first: &'a Option<String>, second: Option<&'a String>) -> (found: Option<
    &'a String,
>)
    ensures
        found == first_of(
            match first {
                Some(value) => Some(value),
                None => None,
            },
            second,
        ),
        found.deep_view() == first_of(first.deep_view(), second.deep_view()),
{
    match first {
        Some(value) => Some(value),
        None => second,
    }
}

impl<A> Fill<A> {
    /// The token ID: `token_id`, else `asset`.
    pub open spec fn token(self) -> Option<Seq<char>> {
        first_of(self.token_id.deep_view(), self.asset.deep_view())
    }

    /// Get the token ID, trying multiple fields.
    pub fn get_token_id(&self) -> (token_id: Option<&String>)
        ensures
            token_id.deep_view() == self.token(),
    {
        first_present(&self.token_id, self.asset.as_ref())
    }

    /// The user address: `user`, else `proxy_wallet`, else `maker`, else `taker`.
    pub open spec fn user_address(self) -> Option<Seq<char>> {
        first_of(
            self.user.deep_view(),
            first_of(
                self.proxy_wallet.deep_view(),
                first_of(self.maker.deep_view(), self.taker.deep_view()),
            ),
        )
    }

    /// Get the user address, trying multiple fields.
    pub fn get_user_address(&self) -> (address: Option<&String>)
        ensures
            address.deep_view() == self.user_address(),
    {
        first_present(
            &self.user,
            first_present(&self.proxy_wallet, first_present(&self.maker, self.taker.as_ref())),
        )
    }
}

/// Bid plus ask fits, and half of it can be written down.
pub open spec fn mid_fits(bid: DecimalValue, ask: DecimalValue) -> bool {
    let (sum, scale) = decimal::exact_sum(bid, ask);
    decimal::sum_fits(bid, ask) && decimal::half_fits(sum, scale)
}

/// Twice the mid price is bid plus ask, wherever that can be written down. Bid and ask are
/// brought to the larger of their scales, and the two sides to one scale.
pub proof fn twice_the_mid_is_the_sum(bid: DecimalValue, ask: DecimalValue, mid: DecimalValue)
    requires
        exact_mid(bid, ask, mid),
        mid_fits(bid, ask),
    ensures
        mid.mantissa * 2 * amount::pow10(decimal::common_scale(bid, ask)) == decimal::aligned_sum(
            bid,
            ask,
        ) * amount::pow10(mid.scale as nat),
{
    let (sum, scale) = decimal::exact_sum(bid, ask);
    let common = decimal::common_scale(bid, ask);
    let more = amount::pow10((common - scale) as nat);
    amount::lemma_pow10_sum(scale, (common - scale) as nat);
    let (m, low, wide) = (
        mid.mantissa as int,
        amount::pow10(scale),
        amount::pow10(mid.scale as nat),
    );
    assert(decimal::aligned_sum(bid, ask) == sum * more) by {
        reveal_with_fuel(amount::pow10, 1);
        if bid.mantissa == 0 {
            assert(bid.mantissa * amount::pow10((common - bid.scale) as nat) == 0)
                by (nonlinear_arith)
                requires
                    bid.mantissa == 0,
            ;
        } else if ask.mantissa == 0 {
            assert(ask.mantissa * amount::pow10((common - ask.scale) as nat) == 0)
                by (nonlinear_arith)
                requires
                    ask.mantissa == 0,
            ;
        }
    }
    assert(m * 2 * (low * more) == (sum * more) * wide) by (nonlinear_arith)
        requires
            m * 2 * low == sum * wide,
    ;
}

/// The mid price lies between bid and ask, whichever is the larger, wherever it can be written
/// down; the three are brought to one scale here.
pub proof fn mid_lies_between_quotes(bid: DecimalValue, ask: DecimalValue, mid: DecimalValue)
    requires
        exact_mid(bid, ask, mid),
        mid_fits(bid, ask),
    ensures
        ({
            let common = decimal::common_scale(bid, ask);
            let wide = amount::pow10(mid.scale as nat);
            let low = decimal::mantissa_at(bid, common) * wide;
            let high = decimal::mantissa_at(ask, common) * wide;
            let middle = mid.mantissa * amount::pow10(common);
            low <= middle <= high || high <= middle <= low
        }),
{
    let common = decimal::common_scale(bid, ask);
    let (b, a) = (decimal::mantissa_at(bid, common), decimal::mantissa_at(ask, common));
    let (m, wide, narrow) = (
        mid.mantissa as int,
        amount::pow10(mid.scale as nat),
        amount::pow10(common),
    );
    amount::lemma_pow10_positive(mid.scale as nat);
    twice_the_mid_is_the_sum(bid, ask, mid);
    assert(b * wide <= m * narrow <= a * wide || a * wide <= m * narrow <= b * wide)
        by (nonlinear_arith)
        requires
            m * 2 * narrow == (b + a) * wide,
            wide >= 1,
    ;
}

/// Bid and ask can change places: the mid price stays the same number.
pub proof fn mid_is_symmetric(
    bid: DecimalValue,
    ask: DecimalValue,
    mid: DecimalValue,
    swapped: DecimalValue,
)
    requires
        exact_mid(bid, ask, mid),
        exact_mid(ask, bid, swapped),
        mid_fits(bid, ask),
    ensures
        mid.mantissa * amount::pow10(swapped.scale as nat) == swapped.mantissa * amount::pow10(
            mid.scale as nat,
        ),
{
    assert(decimal::common_scale(bid, ask) == decimal::common_scale(ask, bid));
    assert(decimal::aligned_sum(bid, ask) == decimal::aligned_sum(ask, bid));
    assert(mid_fits(ask, bid));
    twice_the_mid_is_the_sum(bid, ask, mid);
    twice_the_mid_is_the_sum(ask, bid, swapped);
    let (m, n) = (mid.mantissa as int, swapped.mantissa as int);
    let (u, v) = (amount::pow10(mid.scale as nat), amount::pow10(swapped.scale as nat));
    let (c, sum) = (
        amount::pow10(decimal::common_scale(bid, ask)),
        decimal::aligned_sum(bid, ask),
    );
    amount::lemma_pow10_positive(decimal::common_scale(bid, ask));
    assert(m * v == n * u) by (nonlinear_arith)
        requires
            m * 2 * c == sum * u,
            n * 2 * c == sum * v,
            c >= 1,
    {
        assert((m * v) * (2 * c) == (m * 2 * c) * v);
        assert((n * u) * (2 * c) == (n * 2 * c) * u);
        assert((sum * u) * v == (sum * v) * u);
    }
}

/// A token is found by its outcome, in any case: the first one with that outcome, and none
/// where no token has it.
pub proof fn tokens_are_found_by_their_outcome(tokens: Seq<Token>, outcome: Seq<char>, i: int)
    requires
        0 <= i <= tokens.len(),
        forall|j: int|
            0 <= j < i ==> text::ascii_lowered((#[trigger] tokens[j]).outcome@)
                != text::ascii_lowered(outcome),
        i < tokens.len() ==> text::ascii_lowered(tokens[i].outcome@) == text::ascii_lowered(outcome),
    ensures
        i < tokens.len() ==> token_of_outcome(tokens, outcome) == Some(tokens[i].token_id@),
        i == tokens.len() ==> token_of_outcome(tokens, outcome) is None,
    decreases tokens.len(),
{
    if i > 0 {
        let rest = tokens.drop_first();
        assert(text::ascii_lowered(tokens[0].outcome@) != text::ascii_lowered(outcome));
        assert forall|j: int| 0 <= j < i - 1 implies text::ascii_lowered(
            (#[trigger] rest[j]).outcome@,
        ) != text::ascii_lowered(outcome) by {
            assert(rest[j] == tokens[j + 1]);
        }
        tokens_are_found_by_their_outcome(rest, outcome, i - 1);
    }
}

/// A market that lists its tokens has the token of each side by its own name; of another one,
/// the first token that it names is Up and the second is Down.
pub proof fn up_comes_before_down(market: Market, listed: Option<Seq<Seq<char>>>)
    ensures
        ({
            let (up, down) = market.up_and_down(listed);
            &&& market.tokens is Some ==> up == token_of_outcome(market.tokens->0@, "Up"@)
            &&& market.tokens is Some ==> down == token_of_outcome(market.tokens->0@, "Down"@)
            &&& market.tokens is None && listed is Some && listed->0.len() >= 1 ==> up == Some(
                listed->0[0],
            )
            &&& market.tokens is None && listed is Some && listed->0.len() >= 2 ==> down == Some(
                listed->0[1],
            )
            &&& market.tokens is None && (listed is None || listed->0.len() < 1) ==> up is None
            &&& market.tokens is None && (listed is None || listed->0.len() < 2) ==> down is None
        }),
{
}

/// Where `parse` reads every text in one way, the first two items are the prices of Up and of
/// Down, in this order; there are none where an item is missing or is no number.
pub proof fn first_price_is_up_and_second_is_down<A, F: Fn(&str) -> Option<A>>(
    items: Option<Seq<Seq<char>>>,
    parse: F,
    prices: Option<OutcomePrices<A>>,
    reads_as: spec_fn(Seq<char>) -> Option<A>,
)
    requires
        outcome_prices_of(items, parse, prices),
        forall|piece: &str, number: Option<A>| #[trigger]
            call_ensures(parse, (piece,), number) ==> number == reads_as(piece@),
    ensures
        prices is Some <==> items is Some && items->0.len() >= 2 && reads_as(items->0[0]) is Some
            && reads_as(items->0[1]) is Some,
        prices is Some ==> Some(prices->0.up) == reads_as(items->0[0]),
        prices is Some ==> Some(prices->0.down) == reads_as(items->0[1]),
{
}

/// A fill names its token by `token_id`, and by `asset` only where that is missing; its user by
/// the first that is there of `user`, `proxy_wallet`, `maker` and `taker`.
pub proof fn fills_name_token_and_user<A>(fill: Fill<A>)
    ensures
        fill.token_id is Some ==> fill.token() == Some(fill.token_id->0@),
        fill.token_id is None && fill.asset is Some ==> fill.token() == Some(fill.asset->0@),
        fill.token_id is None && fill.asset is None ==> fill.token() is None,
        fill.user is Some ==> fill.user_address() == Some(fill.user->0@),
        fill.user is None && fill.proxy_wallet is Some ==> fill.user_address() == Some(
            fill.proxy_wallet->0@,
        ),
        fill.user is None && fill.proxy_wallet is None && fill.maker is Some ==> fill.user_address()
            == Some(fill.maker->0@),
        fill.user is None && fill.proxy_wallet is None && fill.maker is None ==> fill.user_address()
            == fill.taker.deep_view(),
{
}

} // verus!
