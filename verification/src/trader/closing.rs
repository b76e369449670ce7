//! Closed markets and what they paid.

use crate::amount::Amount;
use crate::models::MarketDetails;
use crate::orders::Side;
use crate::text::same_text;
use crate::trader::{Trader, TraderView};
use vstd::prelude::*;

verus! {

/// A position in one market that is waiting for the market to close.
pub struct CycleTrade<A> {
    pub condition_id: String,
    pub period_timestamp: u64,
    pub market_duration_secs: u64,
    pub up_token_id: Option<String>,
    pub down_token_id: Option<String>,
    pub up_shares: A,
    pub down_shares: A,
    pub up_avg_price: A,
    pub down_avg_price: A,
}

/// A `CycleTrade`, seen as a mathematical value.
pub struct TradeView<A> {
    pub condition_id: Seq<char>,
    pub period_timestamp: u64,
    pub market_duration_secs: u64,
    pub up_token_id: Option<Seq<char>>,
    pub down_token_id: Option<Seq<char>>,
    pub up_shares: A,
    pub down_shares: A,
    pub up_avg_price: A,
    pub down_avg_price: A,
}

impl<A> DeepView for CycleTrade<A> {
    type V = TradeView<A>;

    open spec fn deep_view(&self) -> TradeView<A> {
        TradeView {
            condition_id: self.condition_id@,
            period_timestamp: self.period_timestamp,
            market_duration_secs: self.market_duration_secs,
            up_token_id: self.up_token_id.deep_view(),
            down_token_id: self.down_token_id.deep_view(),
            up_shares: self.up_shares,
            down_shares: self.down_shares,
            up_avg_price: self.up_avg_price,
            down_avg_price: self.down_avg_price,
        }
    }
}

/// A request to redeem the tokens of a won market.
pub struct Redemption {
    pub condition_id: String,
    pub token_id: String,
    pub outcome: Side,
}

/// What a closed market paid.
pub struct Settlement<A> {
    /// The side that won, where it is known.
    pub winner: Option<Side>,
    pub total_cost: A,
    pub payout: A,
    pub pnl: A,
    pub redeem: Option<Redemption>,
    /// Profit over all markets, this one counted in.
    pub total_profit: A,
}

impl<A> TradeView<A> {
    /// The market's period is over.
    pub open spec fn has_ended(self, now: u64) -> bool {
        now >= self.period_timestamp + self.market_duration_secs
    }
}

/// The token called `id`, where there is one, has won.
pub open spec fn token_won(market: MarketDetails, id: Option<Seq<char>>) -> bool {
    id is Some && exists|i: int|
        0 <= i < market.tokens@.len() && (#[trigger] market.tokens@[i]).token_id@ == id->0
            && market.tokens@[i].winner
}

impl<A: Amount> TradeView<A> {
    /// The side that won, where it is known; Up is tried first.
    pub open spec fn winner(self, market: MarketDetails) -> Option<Side> {
        if token_won(market, self.up_token_id) {
            Some(Side::Up)
        } else if token_won(market, self.down_token_id) {
            Some(Side::Down)
        } else {
            None
        }
    }

    /// What was paid for both sides.
    pub open spec fn cost(self) -> A {
        self.up_shares.product(self.up_avg_price).sum(self.down_shares.product(self.down_avg_price))
    }

    /// One for each share of the side that won.
    pub open spec fn payout(self, winner: Option<Side>) -> A {
        match winner {
            Some(Side::Up) => self.up_shares.product(A::decimal(1, 0)),
            Some(Side::Down) => self.down_shares.product(A::decimal(1, 0)),
            None => A::decimal(0, 0),
        }
    }

    /// What the trade brought in.
    pub open spec fn pnl(self, winner: Option<Side>) -> A {
        self.payout(winner).difference(self.cost())
    }

    /// The side whose tokens are redeemed: Up where it won with more than 0.001 shares, else
    /// Down.
    pub open spec fn redeemed_side(self, winner: Option<Side>) -> Side {
        if winner == Some(Side::Up) && A::decimal(1, 3).is_below(self.up_shares) {
            Side::Up
        } else {
            Side::Down
        }
    }

    /// The name of the token of one side, empty where it is not known.
    pub open spec fn token_or_empty(self, side: Side) -> Seq<char> {
        let token = match side {
            Side::Up => self.up_token_id,
            Side::Down => self.down_token_id,
        };
        match token {
            Some(id) => id,
            None => Seq::empty(),
        }
    }

    /// `redeem` asks for this trade's tokens.
    pub open spec fn is_redemption(self, redeem: Redemption, winner: Option<Side>) -> bool {
        &&& redeem.condition_id@ == self.condition_id
        &&& redeem.outcome == self.redeemed_side(winner)
        &&& redeem.token_id@ == self.token_or_empty(redeem.outcome)
    }
}

impl<A: Amount> TraderView<A> {
    /// The market has been settled before.
    pub open spec fn is_checked(self, condition_id: Seq<char>) -> bool {
        self.checked.contains_key(condition_id) && self.checked[condition_id]
    }

    /// The books once `trade`, kept under `key`, has been settled.
    pub open spec fn with_settlement(
        self,
        key: Seq<char>,
        trade: TradeView<A>,
        winner: Option<Side>,
    ) -> Self {
        TraderView {
            total_profit: self.total_profit.sum(trade.pnl(winner)),
            period_profit: self.period_profit.sum(trade.pnl(winner)),
            checked: self.checked.insert(trade.condition_id, true),
            trades: self.trades.remove(key),
            ..self
        }
    }
}

fn token_has_won(market: &MarketDetails, token_id: &Option<String>) -> (won: bool)
    ensures
        won == token_won(*market, token_id.deep_view()),
{
    match token_id {
        Some(id) => {
            let mut i: usize = 0;
            while i < market.tokens.len()
                invariant
                    token_id.deep_view() == Some(id@),
                    i <= market.tokens@.len(),
                    forall|j: int|
                        0 <= j < i ==> !((#[trigger] market.tokens@[j]).token_id@ == id@
                            && market.tokens@[j].winner),
                decreases market.tokens@.len() - i,
            {
                if market.tokens[i].winner && same_text(
                    market.tokens[i].token_id.as_str(),
                    id.as_str(),
                ) {
                    return true;
                }
                i = i + 1;
            }
            false
        },
        None => false,
    }
}

fn text_or_empty(text: &Option<String>) -> (plain: String)
    ensures
        plain@ == match text.deep_view() {
            Some(text) => text,
            None => Seq::empty(),
        },
{
    match text {
        Some(text) => text.clone(),
        None => String::new(),
    }
}

impl<A: Amount> CycleTrade<A> {
    fn duplicate(&self) -> (copy: Self)
        ensures
            copy.deep_view() == self.deep_view(),
    {
        CycleTrade {
            condition_id: self.condition_id.clone(),
            period_timestamp: self.period_timestamp,
            market_duration_secs: self.market_duration_secs,
            up_token_id: match &self.up_token_id {
                Some(id) => Some(id.clone()),
                None => None,
            },
            down_token_id: match &self.down_token_id {
                Some(id) => Some(id.clone()),
                None => None,
            },
            up_shares: self.up_shares,
            down_shares: self.down_shares,
            up_avg_price: self.up_avg_price,
            down_avg_price: self.down_avg_price,
        }
    }

    fn ended(&self, now: u64) -> (answer: bool)
        ensures
            answer == self.deep_view().has_ended(now),
    {
        now >= self.period_timestamp && now - self.period_timestamp >= self.market_duration_secs
    }

    fn winning_side(&self, market: &MarketDetails) -> (winner: Option<Side>)
        ensures
            winner == self.deep_view().winner(*market),
    {
        if token_has_won(market, &self.up_token_id) {
            Some(Side::Up)
        } else if token_has_won(market, &self.down_token_id) {
            Some(Side::Down)
        } else {
            None
        }
    }

    fn redemption(&self, winner: Option<Side>) -> (redeem: Redemption)
        ensures
            self.deep_view().is_redemption(redeem, winner),
    {
        let up_won: bool = match winner {
            Some(Side::Up) => true,
            _ => false,
        };
        if up_won && A::from_decimal(1, 3).below(self.up_shares) {
            Redemption {
                condition_id: self.condition_id.clone(),
                token_id: text_or_empty(&self.up_token_id),
                outcome: Side::Up,
            }
        } else {
            Redemption {
                condition_id: self.condition_id.clone(),
                token_id: text_or_empty(&self.down_token_id),
                outcome: Side::Down,
            }
        }
    }
}

/// A trade whose market's period is over, and the key under which it is kept.
pub struct EndedTrade<A> {
    pub market_key: String,
    pub trade: CycleTrade<A>,
}

impl<A: Amount> Trader<A> {
    /// The trades whose market's period is over, each once.
    pub fn check_market_closure(&self, now: u64) -> (ended: Vec<EndedTrade<A>>)
        requires
            self.wf(),
        ensures
            forall|i: int|
                0 <= i < ended@.len() ==> {
                    &&& self@.trades.contains_key((#[trigger] ended@[i]).market_key@)
                    &&& ended@[i].trade.deep_view() == self@.trades[ended@[i].market_key@]
                    &&& ended@[i].trade.deep_view().has_ended(now)
                },
            forall|key: Seq<char>| #[trigger]
                self@.trades.contains_key(key) && self@.trades[key].has_ended(now) ==> exists|i: int|
                    0 <= i < ended@.len() && (#[trigger] ended@[i]).market_key@ == key,
            forall|i: int, j: int|
                0 <= i < j < ended@.len() ==> (#[trigger] ended@[i]).market_key@ != (
                #[trigger] ended@[j]).market_key@,
    {
        let mut ended: Vec<EndedTrade<A>> = Vec::new();
        let mut n: usize = 0;
        let ghost keys = self.trades.keys();
        proof {
            self.trades.lemma_keys();
        }
        while n < self.trades.len()
            invariant
                self.wf(),
                keys == self.trades.keys(),
                keys.no_duplicates(),
                n <= keys.len(),
                forall|i: int|
                    0 <= i < ended@.len() ==> {
                        &&& self@.trades.contains_key((#[trigger] ended@[i]).market_key@)
                        &&& ended@[i].trade.deep_view() == self@.trades[ended@[i].market_key@]
                        &&& ended@[i].trade.deep_view().has_ended(now)
                    },
                forall|i: int|
                    0 <= i < ended@.len() ==> keys.take(n as int).contains(
                        (#[trigger] ended@[i]).market_key@,
                    ),
                forall|k: int|
                    0 <= k < n && self@.trades[#[trigger] keys[k]].has_ended(now) ==> exists|i: int|
                        0 <= i < ended@.len() && (#[trigger] ended@[i]).market_key@ == keys[k],
                forall|i: int, j: int|
                    0 <= i < j < ended@.len() ==> (#[trigger] ended@[i]).market_key@ != (
                    #[trigger] ended@[j]).market_key@,
            decreases keys.len() - n,
        {
            let ghost before = ended@;
            let (key, trade) = self.trades.entry(n);
            if trade.ended(now) {
                ended.push(EndedTrade { market_key: key.clone(), trade: trade.duplicate() });
            }
            proof {
                assert(keys.take(n + 1)[n as int] == keys[n as int]);
                assert forall|i: int| 0 <= i < before.len() implies keys.take(n + 1).contains(
                    (#[trigger] ended@[i]).market_key@,
                ) && ended@[i].market_key@ != keys[n as int] by {
                    assert(ended@[i] == before[i]);
                    let k = keys.take(n as int).index_of(ended@[i].market_key@);
                    assert(keys.take(n + 1)[k] == ended@[i].market_key@);
                }
                assert forall|k: int|
                    0 <= k < n + 1 && self@.trades[#[trigger] keys[k]].has_ended(now) implies exists|
                    i: int,
                |
                    0 <= i < ended@.len() && (#[trigger] ended@[i]).market_key@ == keys[k] by {
                    if k < n {
                        let i = choose|i: int|
                            0 <= i < before.len() && (#[trigger] before[i]).market_key@ == keys[k];
                        assert(ended@[i] == before[i]);
                    } else {
                        assert(ended@[before.len() as int].market_key@ == keys[k]);
                    }
                }
            }
            n = n + 1;
        }
        proof {
            self.trades.lemma_keys();
            assert forall|key: Seq<char>| #[trigger]
                self@.trades.contains_key(key) && self@.trades[key].has_ended(now) implies exists|
                i: int,
            |
                0 <= i < ended@.len() && (#[trigger] ended@[i]).market_key@ == key by {
                assert(keys.contains(key));
                let k = keys.index_of(key);
                assert(keys[k] == key);
            }
        }
        ended
    }

    /// Whether the market has been settled since the period was last reset.
    pub fn is_closure_checked(&self, condition_id: &str) -> (answer: bool)
        requires
            self.wf(),
        ensures
            answer == self@.is_checked(condition_id@),
    {
        match self.closure_checked.get(condition_id) {
            Some(checked) => *checked,
            None => false,
        }
    }

    /// Settles `trade`, kept under `market_key`, if its market is closed and has not been
    /// settled yet: works out what it paid, adds that to the profits, and forgets the trade.
    pub fn settle(&mut self, market_key: &str, trade: &CycleTrade<A>, market: &MarketDetails) -> (
        settlement: Option<Settlement<A>>)
        requires
            old(self).wf(),
        ensures
            final(self).wf(),
            settlement is Some <==> market.closed && !old(self)@.is_checked(trade.condition_id@),
            settlement is None ==> final(self)@ == old(self)@,
            settlement is Some ==> {
                let sold = trade.deep_view();
                let winner = sold.winner(*market);
                &&& final(self)@ == old(self)@.with_settlement(market_key@, sold, winner)
                &&& settlement->0.winner == winner
                &&& settlement->0.total_cost == sold.cost()
                &&& settlement->0.payout == sold.payout(winner)
                &&& settlement->0.pnl == sold.pnl(winner)
                &&& settlement->0.total_profit == final(self)@.total_profit
                &&& settlement->0.redeem is Some <==> !old(self)@.simulation_mode && winner is Some
                &&& settlement->0.redeem is Some ==> sold.is_redemption(
                    settlement->0.redeem->0,
                    winner,
                )
            },
    {
        if !market.closed || self.is_closure_checked(trade.condition_id.as_str()) {
            return None;
        }
        let winner: Option<Side> = trade.winning_side(market);
        let total_cost: A = trade.up_shares.times(trade.up_avg_price).plus(
            trade.down_shares.times(trade.down_avg_price),
        );
        let payout: A = match winner {
            Some(Side::Up) => trade.up_shares.times(A::from_decimal(1, 0)),
            Some(Side::Down) => trade.down_shares.times(A::from_decimal(1, 0)),
            None => A::from_decimal(0, 0),
        };
        let pnl: A = payout.minus(total_cost);
        let redeem: Option<Redemption> = if !self.simulation_mode && winner.is_some() {
            Some(trade.redemption(winner))
        } else {
            None
        };
        self.total_profit = self.total_profit.plus(pnl);
        self.period_profit = self.period_profit.plus(pnl);
        self.closure_checked.insert(trade.condition_id.clone(), true);
        self.trades.remove(market_key);
        assert(self@ =~= old(self)@.with_settlement(market_key@, trade.deep_view(), winner));
        Some(
            Settlement {
                winner,
                total_cost,
                payout,
                pnl,
                redeem,
                total_profit: self.total_profit,
            },
        )
    }

    /// Forgets which markets have been settled.
    pub fn reset_period(&mut self)
        requires
            old(self).wf(),
        ensures
            final(self).wf(),
            final(self)@ == (TraderView { checked: Map::empty(), ..old(self)@ }),
    {
        self.closure_checked.clear();
    }

    /// Profit over all settled markets.
    pub fn get_total_profit(&self) -> (profit: A)
        ensures
            profit == self@.total_profit,
    {
        self.total_profit
    }

    /// Profit over the settled markets of this run.
    pub fn get_period_profit(&self) -> (profit: A)
        ensures
            profit == self@.period_profit,
    {
        self.period_profit
    }
}

} // verus!
