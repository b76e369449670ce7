//! Finding the market that is open now.

use crate::models::Market;
use crate::slug;
use crate::slug::{slug_15m, slug_1h_human_readable};
use crate::text;
use crate::text::{lowercase, same_text};
use vstd::prelude::*;

verus! {

/// Why no market was found.
#[derive(Clone, Copy, Debug, PartialEq, Eq, Structural)]
pub enum DiscoveryError {
    /// Only BTC, ETH, SOL and XRP are supported.
    UnsupportedAsset,
    /// Only 15m and 1h markets are supported.
    UnsupportedDuration { minutes: u64 },
    /// Neither this period's market nor one of the three before it is open.
    NotFound,
}

/// There are markets for the asset, which is written in lower case.
pub open spec fn is_known_asset(lower: Seq<char>) -> bool {
    lower == "btc"@ || lower == "eth"@ || lower == "sol"@ || lower == "xrp"@
}

/// Whether there are markets for an asset written in lower case.
pub fn known_asset(lower: &str) -> (known: bool)
    ensures
        known == is_known_asset(lower@),
{
    same_text(lower, "btc") || same_text(lower, "eth") || same_text(lower, "sol") || same_text(
        lower,
        "xrp",
    )
}

/// A search for the open market of one asset: the market of the current period is tried
/// first, then those of the three periods before it.
pub struct Discovery {
    pub slug_prefix: String,
    /// Hourly markets, else those of 15 minutes.
    pub hourly: bool,
    /// Start of the current period, in Unix seconds.
    pub rounded_time: u64,
    /// How many periods back the market is that is tried next.
    pub offset: u64,
}

/// What a reply of the exchange leads to.
pub enum DiscoveryStep {
    Found(Market),
    TryNext(Discovery),
    Failed(DiscoveryError),
}

/// The length of a period, in seconds.
pub open spec fn period_secs_of(hourly: bool) -> u64 {
    if hourly {
        3600
    } else {
        900
    }
}

/// The start of the period of length `period` that `time` lies in.
pub open spec fn period_start(time: u64, period: u64) -> u64 {
    (time / period * period) as u64
}

/// The start of the period of length `period` that `time` lies in.
pub fn round_to_period(time: u64, period: u64) -> (start: u64)
    requires
        period > 0,
    ensures
        start == period_start(time, period),
        start <= time < start + period,
        start % period == 0,
{
    proof {
        vstd::arithmetic::div_mod::lemma_fundamental_div_mod(time as int, period as int);
        vstd::arithmetic::mul::lemma_mul_is_commutative((time / period) as int, period as int);
        vstd::arithmetic::div_mod::lemma_mod_multiples_basic((time / period) as int, period as int);
    }
    (time / period) * period
}

impl Discovery {
    /// At most three periods back.
    pub open spec fn wf(self) -> bool {
        self.offset <= 3
    }

    /// The start of the period that is tried next.
    pub open spec fn try_time(self) -> int {
        self.rounded_time - self.offset * period_secs_of(self.hourly)
    }

    /// The period that is tried next starts no earlier than 1970, and for an hourly market
    /// the calendar holds it.
    pub open spec fn has_slug(self) -> bool {
        &&& self.try_time() >= 0
        &&& self.hourly ==> slug::in_calendar(self.try_time() as u64)
    }

    /// The slug of the market that is tried next.
    pub open spec fn slug_to_try(self) -> Seq<char> {
        if self.hourly {
            slug::slug_1h_of(self.try_time() as u64, self.slug_prefix@)
        } else {
            slug::slug_15m_of(self.try_time() as u64, self.slug_prefix@)
        }
    }

    /// Starts a search for the market of the period that `current_time` lies in.
    pub fn discover_market(
        slug_prefix: &str,
        market_duration_minutes: u64,
        current_time: u64,
    ) -> (search: Result<Discovery, DiscoveryError>)
        ensures
            search is Ok <==> market_duration_minutes == 60 || market_duration_minutes == 15,
            search is Err ==> search->Err_0 == (DiscoveryError::UnsupportedDuration {
                minutes: market_duration_minutes,
            }),
            search is Ok ==> search->Ok_0.is_start(
                slug_prefix@,
                market_duration_minutes,
                current_time,
            ),
    {
        let hourly: bool = if market_duration_minutes == 60 {
            true
        } else if market_duration_minutes == 15 {
            false
        } else {
            return Err(DiscoveryError::UnsupportedDuration { minutes: market_duration_minutes });
        };
        let period: u64 = if hourly {
            3600
        } else {
            900
        };
        Ok(
            Discovery {
                slug_prefix: slug_prefix.to_owned(),
                hourly,
                rounded_time: round_to_period(current_time, period),
                offset: 0,
            },
        )
    }

    /// This is the search that starts at `current_time`.
    pub open spec fn is_start(self, slug_prefix: Seq<char>, minutes: u64, current_time: u64) -> bool {
        &&& self.wf()
        &&& self.slug_prefix@ == slug_prefix
        &&& self.hourly == (minutes == 60)
        &&& self.rounded_time == period_start(current_time, period_secs_of(self.hourly))
        &&& self.offset == 0
    }

    /// Starts a search for an asset given by its ticker, in any case.
    pub fn discover_market_for_asset_timeframe(
        asset: &str,
        market_duration_minutes: u64,
        current_time: u64,
    ) -> (search: Result<Discovery, DiscoveryError>)
        ensures
            match search {
                Ok(search) => is_known_asset(text::unicode_lowercase(asset@)) && (
                market_duration_minutes == 60 || market_duration_minutes == 15) && search.is_start(
                    text::unicode_lowercase(asset@),
                    market_duration_minutes,
                    current_time,
                ),
                Err(error) => if !is_known_asset(text::unicode_lowercase(asset@)) {
                    error == DiscoveryError::UnsupportedAsset
                } else {
                    market_duration_minutes != 60 && market_duration_minutes != 15 && error == (
                    DiscoveryError::UnsupportedDuration { minutes: market_duration_minutes })
                },
            },
            vstd::utf8::is_ascii_chars(asset@) ==> text::unicode_lowercase(asset@)
                == text::ascii_lowered(asset@),
    {
        let lower: String = lowercase(asset);
        Discovery::for_lowered_asset(lower.as_str(), market_duration_minutes, current_time)
    }

    /// Starts a search for an asset given by its ticker in lower case.
    pub fn for_lowered_asset(lower: &str, market_duration_minutes: u64, current_time: u64) -> (search:
        Result<Discovery, DiscoveryError>)
        ensures
            match search {
                Ok(search) => is_known_asset(lower@) && (market_duration_minutes == 60
                    || market_duration_minutes == 15) && search.is_start(
                    lower@,
                    market_duration_minutes,
                    current_time,
                ),
                Err(error) => if !is_known_asset(lower@) {
                    error == DiscoveryError::UnsupportedAsset
                } else {
                    market_duration_minutes != 60 && market_duration_minutes != 15 && error == (
                    DiscoveryError::UnsupportedDuration { minutes: market_duration_minutes })
                },
            },
    {
        if !known_asset(lower) {
            return Err(DiscoveryError::UnsupportedAsset);
        }
        Discovery::discover_market(lower, market_duration_minutes, current_time)
    }

    /// The slug of the market that is tried next.
    pub fn slug(&self) -> (slug: String)
        requires
            self.wf(),
            self.has_slug(),
        ensures
            slug@ == self.slug_to_try(),
    {
        if self.hourly {
            slug_1h_human_readable(
                self.rounded_time - self.offset * 3600,
                self.slug_prefix.as_str(),
            )
        } else {
            slug_15m(self.rounded_time - self.offset * 900, self.slug_prefix.as_str())
        }
    }

    /// Takes the exchange's reply to the slug that was tried: `None` where it had none.
    pub fn step(self, reply: Option<Market>, seen_ids: &Vec<String>) -> (step: DiscoveryStep)
        requires
            self.wf(),
        ensures
            match step {
                DiscoveryStep::Found(market) => reply == Some(market) && is_usable(
                    market,
                    seen_ids.deep_view(),
                ),
                DiscoveryStep::TryNext(next) => !(reply is Some && is_usable(
                    reply->0,
                    seen_ids.deep_view(),
                )) && self.offset < 3 && next == (Discovery {
                    offset: (self.offset + 1) as u64,
                    ..self
                }),
                DiscoveryStep::Failed(error) => !(reply is Some && is_usable(
                    reply->0,
                    seen_ids.deep_view(),
                )) && self.offset == 3 && error == DiscoveryError::NotFound,
            },
    {
        if let Some(market) = reply {
            if usable(&market, seen_ids) {
                return DiscoveryStep::Found(market);
            }
        }
        if self.offset < 3 {
            DiscoveryStep::TryNext(Discovery { offset: self.offset + 1, ..self })
        } else {
            DiscoveryStep::Failed(DiscoveryError::NotFound)
        }
    }
}

/// The market is open, and not one of those seen before.
pub open spec fn is_usable(market: Market, seen_ids: Seq<Seq<char>>) -> bool {
    &&& !seen_ids.contains(market.condition_id@)
    &&& market.active
    &&& !market.closed
}

fn usable(market: &Market, seen_ids: &Vec<String>) -> (answer: bool)
    ensures
        answer == is_usable(*market, seen_ids.deep_view()),
{
    let mut i: usize = 0;
    while i < seen_ids.len()
        invariant
            i <= seen_ids@.len(),
            forall|j: int|
                0 <= j < i ==> #[trigger] seen_ids.deep_view()[j] != market.condition_id@,
        decreases seen_ids@.len() - i,
    {
        if same_text(seen_ids[i].as_str(), market.condition_id.as_str()) {
            assert(seen_ids.deep_view()[i as int] == market.condition_id@);
            return false;
        }
        i = i + 1;
    }
    market.active && !market.closed
}

/// A period holds the times from its start on, up to the start of the next one: those times,
/// and no others, have that start.
pub proof fn periods_hold_their_times(time: u64, other: u64, period: u64)
    requires
        period > 0,
    ensures
        period_start(time, period) <= time < period_start(time, period) + period,
        period_start(other, period) == period_start(time, period) <==> period_start(time, period)
            <= other < period_start(time, period) + period,
{
    let p = period as int;
    let (t, o) = (time as int, other as int);
    vstd::arithmetic::div_mod::lemma_fundamental_div_mod(t, p);
    vstd::arithmetic::div_mod::lemma_fundamental_div_mod(o, p);
    assert(t / p * p == p * (t / p)) by (nonlinear_arith);
    assert(o / p * p == p * (o / p)) by (nonlinear_arith);
    if p * (t / p) <= o < p * (t / p) + p {
        vstd::arithmetic::div_mod::lemma_fundamental_div_mod_converse(
            o,
            p,
            t / p,
            o - p * (t / p),
        );
    }
}

/// A search that starts three periods or more after 1970, and within the calendar, has a slug
/// for every period that it tries.
pub proof fn every_try_has_a_slug(
    search: Discovery,
    slug_prefix: Seq<char>,
    minutes: u64,
    current_time: u64,
    offset: u64,
)
    requires
        search.is_start(slug_prefix, minutes, current_time),
        3 * period_secs_of(search.hourly) <= current_time <= slug::LAST_SECOND,
        offset <= 3,
    ensures
        (Discovery { offset, ..search }).has_slug(),
{
    let period = period_secs_of(search.hourly);
    periods_hold_their_times(current_time, current_time, period);
    assert(current_time / period >= 3) by (nonlinear_arith)
        requires
            current_time >= 3 * period,
            period > 0,
    ;
    assert(current_time / period * period >= 3 * period) by (nonlinear_arith)
        requires
            current_time / period >= 3,
            period > 0,
    ;
    let tried = (Discovery { offset, ..search }).try_time();
    assert(0 <= tried <= slug::LAST_SECOND);
    assert((tried as u64) as i64 == tried);
}

/// A search for a 15-minute market never tries the same slug twice.
pub proof fn tries_differ(search: Discovery, first: u64, second: u64)
    requires
        !search.hourly,
        first <= 3,
        second <= 3,
        (Discovery { offset: first, ..search }).has_slug(),
        (Discovery { offset: second, ..search }).has_slug(),
        (Discovery { offset: first, ..search }).slug_to_try() == (Discovery {
            offset: second,
            ..search
        }).slug_to_try(),
    ensures
        first == second,
{
    slug::slugs_15m_are_distinct(
        (Discovery { offset: first, ..search }).try_time() as u64,
        (Discovery { offset: second, ..search }).try_time() as u64,
        search.slug_prefix@,
    );
}

/// A search starts with the period that the current time lies in, and each further try goes
/// back by one period: an hour, or 15 minutes.
pub proof fn tries_go_back_by_one_period(
    search: Discovery,
    slug_prefix: Seq<char>,
    minutes: u64,
    current_time: u64,
    offset: u64,
)
    requires
        search.is_start(slug_prefix, minutes, current_time),
        offset < 3,
    ensures
        ({
            let period: int = if minutes == 60 {
                3600
            } else {
                900
            };
            let tried = (Discovery { offset, ..search }).try_time();
            let next = (Discovery { offset: (offset + 1) as u64, ..search }).try_time();
            &&& search.try_time() % period == 0
            &&& search.try_time() <= current_time < search.try_time() + period
            &&& next + period == tried
            &&& offset == 0 ==> tried == search.try_time()
        }),
{
    let period = period_secs_of(search.hourly);
    periods_hold_their_times(current_time, current_time, period);
    vstd::arithmetic::div_mod::lemma_mod_multiples_basic(
        (current_time / period) as int,
        period as int,
    );
    assert((offset + 1) * period == offset * period + period) by (nonlinear_arith);
    assert(0 * period == 0);
}

/// Every slug that a search for a 15-minute market tries is one of its own asset, and reads as
/// the start of the period that is tried.
pub proof fn searches_stay_with_their_asset(
    search: Discovery,
    slug_prefix: Seq<char>,
    minutes: u64,
    current_time: u64,
    offset: u64,
)
    requires
        search.is_start(slug_prefix, minutes, current_time),
        minutes != 60,
        (Discovery { offset, ..search }).has_slug(),
    ensures
        ({
            let tried = Discovery { offset, ..search };
            let lead = slug_prefix + "-updown-15m-"@;
            &&& lead.is_prefix_of(tried.slug_to_try())
            &&& 0 <= tried.try_time() <= u64::MAX ==> text::number_of(
                tried.slug_to_try().skip(lead.len() as int),
            ) == tried.try_time()
        }),
{
    let tried = Discovery { offset, ..search };
    slug::slugs_15m_name_asset_and_start(tried.try_time() as u64, slug_prefix);
}

/// Every slug that a search for an hourly market tries is one of its own asset.
pub proof fn hourly_searches_stay_with_their_asset(
    search: Discovery,
    slug_prefix: Seq<char>,
    current_time: u64,
    offset: u64,
)
    requires
        search.is_start(slug_prefix, 60, current_time),
        (Discovery { offset, ..search }).has_slug(),
    ensures
        ({
            let slug = (Discovery { offset, ..search }).slug_to_try();
            &&& slug_prefix == "btc"@ ==> ("bitcoin"@ + "-up-or-down-"@).is_prefix_of(slug)
            &&& slug_prefix == "eth"@ ==> ("ethereum"@ + "-up-or-down-"@).is_prefix_of(slug)
            &&& slug_prefix != "btc"@ && slug_prefix != "eth"@ ==> (slug_prefix
                + "-up-or-down-"@).is_prefix_of(slug)
        }),
{
    let tried = Discovery { offset, ..search };
    let (month, day, hour) = slug::new_york_clock(((tried.try_time() as u64) as i64) as int);
    slug::hourly_slugs_name_their_asset(month, day as nat, hour, slug_prefix);
}

/// Two searches for 15-minute markets of different assets never try the same slug.
pub proof fn searches_for_different_assets_differ(
    first: Discovery,
    first_prefix: Seq<char>,
    second: Discovery,
    second_prefix: Seq<char>,
    first_time: u64,
    second_time: u64,
    first_offset: u64,
    second_offset: u64,
)
    requires
        first.is_start(first_prefix, 15, first_time),
        second.is_start(second_prefix, 15, second_time),
        (Discovery { offset: first_offset, ..first }).slug_to_try() == (Discovery {
            offset: second_offset,
            ..second
        }).slug_to_try(),
    ensures
        first_prefix == second_prefix,
{
    slug::slugs_15m_tell_assets_apart(
        (Discovery { offset: first_offset, ..first }).try_time() as u64,
        first_prefix,
        (Discovery { offset: second_offset, ..second }).try_time() as u64,
        second_prefix,
    );
}

/// A market can be used just if it is active, not closed, and not among those seen before.
pub proof fn usable_markets_are_open_and_new(market: Market, seen_ids: Seq<Seq<char>>)
    ensures
        is_usable(market, seen_ids) <==> market.active && !market.closed && forall|i: int|
            0 <= i < seen_ids.len() ==> #[trigger] seen_ids[i] != market.condition_id@,
{
    if !seen_ids.contains(market.condition_id@) {
        assert forall|i: int| 0 <= i < seen_ids.len() implies #[trigger] seen_ids[i]
            != market.condition_id@ by {}
    }
}

/// The four supported assets are known, and no other.
pub proof fn supported_assets_are_known(lower: Seq<char>)
    ensures
        is_known_asset(lower) <==> slug::is_supported(lower),
{
}

} // verus!
