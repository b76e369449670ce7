//! Command line and configuration.

use crate::amount;
use crate::amount::{Amount, Micros};
use vstd::prelude::*;

verus! {

/// What the command line asks for.
#[derive(Clone, Debug)]
pub struct Args {
    pub simulation: bool,
    pub production: bool,
    /// Path of the configuration file.
    pub config: String,
    pub redeem: bool,
    pub condition_id: Option<String>,
}

impl Args {
    /// Production wins over simulation.
    pub fn is_simulation(&self) -> (simulation: bool)
        ensures
            simulation == (self.simulation && !self.production),
    {
        if self.production {
            false
        } else {
            self.simulation
        }
    }
}

#[derive(Clone, Debug)]
pub struct Config<A> {
    pub polymarket: PolymarketConfig,
    pub trading: TradingConfig<A>,
}

#[derive(Clone, Debug)]
pub struct PolymarketConfig {
    pub gamma_api_url: String,
    pub clob_api_url: String,
    pub api_key: Option<String>,
    pub api_secret: Option<String>,
    pub api_passphrase: Option<String>,
    pub private_key: Option<String>,
    pub proxy_wallet_address: Option<String>,
    pub signature_type: Option<u8>,
}

#[derive(Clone, Debug)]
pub struct TradingConfig<A> {
    pub check_interval_ms: u64,
    pub market_closure_check_interval_seconds: u64,
    pub data_source: String,
    pub markets: Vec<String>,
    pub timeframes: Vec<String>,
    /// Number of price datapoints required to confirm "rising" trend (e.g. 5 or 7). Trends
    /// play no part in trading by hand.
    pub trend_datapoints: usize,
    /// When market is unclear, use this many datapoints for trend (e.g. 10 or 15).
    pub trend_datapoints_extended: usize,
    /// Number of limit orders to place in one batch (e.g. 5).
    pub batch_count: usize,
    /// Shares per limit order in the batch (e.g. 30: 5 orders make 150 shares in total).
    pub shares_per_limit_order: A,
    /// Price offset for Down orders: place at (current_ask + this), e.g. -0.02 for 2 cents
    /// below ask.
    pub limit_order_price_offset_down: A,
    /// After this many seconds, cancel unmatched limit orders (production only). 0 = never cancel.
    pub cancel_unmatched_after_secs: u64,
    /// Don't place orders if token ask is below this (safety).
    pub min_side_price: A,
    /// Don't place orders if token ask is above this (safety).
    pub max_side_price: A,
}

pub fn default_market_closure_check_interval() -> (secs: u64)
    ensures
        secs == 20,
{
    20
}

pub fn default_data_source() -> (source: String)
    ensures
        source@ == "api"@,
{
    "api".to_owned()
}

pub fn default_markets() -> (markets: Vec<String>)
    ensures
        markets.deep_view() == seq!["btc"@],
{
    let mut markets: Vec<String> = Vec::new();
    markets.push("btc".to_owned());
    assert(markets.deep_view() =~= seq!["btc"@]);
    markets
}

pub fn default_timeframes() -> (timeframes: Vec<String>)
    ensures
        timeframes.deep_view() == seq!["15m"@, "1h"@],
{
    let mut timeframes: Vec<String> = Vec::new();
    timeframes.push("15m".to_owned());
    timeframes.push("1h".to_owned());
    assert(timeframes.deep_view() =~= seq!["15m"@, "1h"@]);
    timeframes
}

pub fn default_trend_datapoints() -> (count: usize)
    ensures
        count == 7,
{
    7
}

pub fn default_trend_datapoints_extended() -> (count: usize)
    ensures
        count == 15,
{
    15
}

pub fn default_batch_count() -> (count: usize)
    ensures
        count == 5,
{
    5
}

/// 30 shares.
pub fn default_shares_per_limit_order<A: Amount>() -> (shares: A)
    ensures
        shares == A::decimal(30, 0),
{
    A::from_decimal(30, 0)
}

/// -0.02.
pub fn default_limit_order_price_offset_down<A: Amount>() -> (offset: A)
    ensures
        offset == A::decimal(-2, 2),
{
    A::from_decimal(-2, 2)
}

pub fn default_cancel_unmatched_after_secs() -> (secs: u64)
    ensures
        secs == 120,
{
    120
}

/// 0.05.
pub fn default_min_side_price<A: Amount>() -> (price: A)
    ensures
        price == A::decimal(5, 2),
{
    A::from_decimal(5, 2)
}

/// 0.99.
pub fn default_max_side_price<A: Amount>() -> (price: A)
    ensures
        price == A::decimal(99, 2),
{
    A::from_decimal(99, 2)
}

impl PolymarketConfig {
    /// The public endpoints, and no credentials.
    pub open spec fn is_default(self) -> bool {
        &&& self.gamma_api_url@ == "https://gamma-api.polymarket.com"@
        &&& self.clob_api_url@ == "https://clob.polymarket.com"@
        &&& self.api_key is None
        &&& self.api_secret is None
        &&& self.api_passphrase is None
        &&& self.private_key is None
        &&& self.proxy_wallet_address is None
        &&& self.signature_type is None
    }
}

impl<A: Amount> TradingConfig<A> {
    /// Bitcoin on both timeframes, five orders of 30 shares between 0.05 and 0.99.
    pub open spec fn is_default(self) -> bool {
        &&& self.check_interval_ms == 1000
        &&& self.market_closure_check_interval_seconds == 20
        &&& self.data_source@ == "api"@
        &&& self.markets.deep_view() == seq!["btc"@]
        &&& self.timeframes.deep_view() == seq!["15m"@, "1h"@]
        &&& self.trend_datapoints == 7
        &&& self.trend_datapoints_extended == 15
        &&& self.batch_count == 5
        &&& self.shares_per_limit_order == A::decimal(30, 0)
        &&& self.limit_order_price_offset_down == A::decimal(-2, 2)
        &&& self.cancel_unmatched_after_secs == 120
        &&& self.min_side_price == A::decimal(5, 2)
        &&& self.max_side_price == A::decimal(99, 2)
    }
}

impl<A: Amount> Default for Config<A> {
    fn default() -> (config: Self)
        ensures
            config.polymarket.is_default(),
            config.trading.is_default(),
    {
        Config {
            polymarket: PolymarketConfig {
                gamma_api_url: "https://gamma-api.polymarket.com".to_owned(),
                clob_api_url: "https://clob.polymarket.com".to_owned(),
                api_key: None,
                api_secret: None,
                api_passphrase: None,
                private_key: None,
                proxy_wallet_address: None,
                signature_type: None,
            },
            trading: TradingConfig {
                check_interval_ms: 1000,
                market_closure_check_interval_seconds: default_market_closure_check_interval(),
                data_source: default_data_source(),
                markets: default_markets(),
                timeframes: default_timeframes(),
                trend_datapoints: default_trend_datapoints(),
                trend_datapoints_extended: default_trend_datapoints_extended(),
                batch_count: default_batch_count(),
                shares_per_limit_order: default_shares_per_limit_order(),
                limit_order_price_offset_down: default_limit_order_price_offset_down(),
                cancel_unmatched_after_secs: default_cancel_unmatched_after_secs(),
                min_side_price: default_min_side_price(),
                max_side_price: default_max_side_price(),
            },
        }
    }
}

/// With exact amounts, the default configuration places five orders of 30 shares, between five
/// and 99 cents, two cents below the ask on Down, and takes unmatched ones back after two
/// minutes.
pub proof fn defaults_in_numbers(config: Config<Micros>)
    requires
        config.trading.is_default(),
    ensures
        config.trading.batch_count == 5,
        config.trading.shares_per_limit_order.units == 30_000_000,
        config.trading.limit_order_price_offset_down.units == -20_000,
        config.trading.min_side_price.units == 50_000,
        config.trading.max_side_price.units == 990_000,
        config.trading.cancel_unmatched_after_secs == 2 * 60,
        config.trading.check_interval_ms == 1000,
        config.trading.market_closure_check_interval_seconds == 20,
        config.trading.trend_datapoints == 7,
        config.trading.trend_datapoints_extended == 15,
{
    reveal_with_fuel(amount::pow10, 3);
    assert(amount::pow10(2) == 100);
}

/// By default, Bitcoin is traded on both timeframes over the public endpoints, without any
/// credentials.
pub proof fn defaults_hold_no_credentials<A: Amount>(config: Config<A>)
    requires
        config.polymarket.is_default(),
        config.trading.is_default(),
    ensures
        config.polymarket.gamma_api_url@ == "https://gamma-api.polymarket.com"@,
        config.polymarket.clob_api_url@ == "https://clob.polymarket.com"@,
        config.polymarket.api_key is None && config.polymarket.api_secret is None,
        config.polymarket.api_passphrase is None && config.polymarket.private_key is None,
        config.polymarket.proxy_wallet_address is None && config.polymarket.signature_type is None,
        config.trading.data_source@ == "api"@,
        config.trading.markets@.len() == 1 && config.trading.markets@[0]@ == "btc"@,
        config.trading.timeframes@.len() == 2,
        config.trading.timeframes@[0]@ == "15m"@ && config.trading.timeframes@[1]@ == "1h"@,
{
    let (markets, timeframes) = (
        config.trading.markets.deep_view(),
        config.trading.timeframes.deep_view(),
    );
    assert(markets.len() == config.trading.markets@.len() && markets.len() == 1);
    assert(timeframes.len() == config.trading.timeframes@.len() && timeframes.len() == 2);
    assert(markets[0] == config.trading.markets@[0]@);
    assert(timeframes[0] == config.trading.timeframes@[0]@);
    assert(timeframes[1] == config.trading.timeframes@[1]@);
}

} // verus!
