use updown_trader::amount::Micros;
use updown_trader::config::{
    default_batch_count, default_cancel_unmatched_after_secs, default_data_source,
    default_limit_order_price_offset_down, default_market_closure_check_interval, default_markets,
    default_max_side_price, default_min_side_price, default_shares_per_limit_order,
    default_timeframes, default_trend_datapoints, default_trend_datapoints_extended, Args, Config,
};
use updown_trader::decimal::DecimalValue;
use updown_trader::display::{
    format_bought, format_remaining_time, format_token_price, price_line, ClockTime,
};
use updown_trader::keys::{handle_key, key_action, KeyAction, KeyDecision};
use updown_trader::messages::batch_line;
use updown_trader::models::{MarketData, MarketSnapshot, TokenPrice};
use updown_trader::redeem::{
    begins_with, hex_id, redeem_plan, redeem_tally, MissingProxyWallet, RedeemTargets,
};
use updown_trader::terminal::{terminal_bytes, terminal_text};

fn args(simulation: bool, production: bool) -> Args {
    Args { simulation, production, config: "config.json".to_string(), redeem: false, condition_id: None }
}

fn quotes(bid: Option<i128>, ask: Option<i128>) -> TokenPrice {
    let cents = |n: i128| DecimalValue { mantissa: n, scale: 2 };
    TokenPrice { token_id: "t".to_string(), bid: bid.map(cents), ask: ask.map(cents) }
}

#[test]
fn production_wins_over_simulation() {
    assert!(args(true, false).is_simulation());
    assert!(!args(true, true).is_simulation());
    assert!(!args(false, true).is_simulation());
    assert!(!args(false, false).is_simulation());
}

#[test]
fn the_default_configuration() {
    let config: Config<Micros> = Config::default();
    assert_eq!(config.polymarket.gamma_api_url, "https://gamma-api.polymarket.com");
    assert_eq!(config.polymarket.clob_api_url, "https://clob.polymarket.com");
    assert!(config.polymarket.api_key.is_none() && config.polymarket.private_key.is_none());
    let trading = config.trading;
    assert_eq!(trading.check_interval_ms, 1000);
    assert_eq!(trading.market_closure_check_interval_seconds, 20);
    assert_eq!(trading.data_source, "api");
    assert_eq!(trading.markets, vec!["btc".to_string()]);
    assert_eq!(trading.timeframes, vec!["15m".to_string(), "1h".to_string()]);
    assert_eq!(trading.trend_datapoints, 7);
    assert_eq!(trading.trend_datapoints_extended, 15);
    assert_eq!(trading.batch_count, 5);
    assert_eq!(trading.shares_per_limit_order, Micros { units: 30_000_000 });
    assert_eq!(trading.limit_order_price_offset_down, Micros { units: -20_000 });
    assert_eq!(trading.cancel_unmatched_after_secs, 120);
    assert_eq!(trading.min_side_price, Micros { units: 50_000 });
    assert_eq!(trading.max_side_price, Micros { units: 990_000 });
}

#[test]
fn defaults_of_single_settings() {
    assert_eq!(default_market_closure_check_interval(), 20);
    assert_eq!(default_data_source(), "api");
    assert_eq!(default_markets(), vec!["btc".to_string()]);
    assert_eq!(default_timeframes(), vec!["15m".to_string(), "1h".to_string()]);
    assert_eq!(default_trend_datapoints(), 7);
    assert_eq!(default_trend_datapoints_extended(), 15);
    assert_eq!(default_batch_count(), 5);
    assert_eq!(default_shares_per_limit_order::<Micros>().units, 30_000_000);
    assert_eq!(default_limit_order_price_offset_down::<Micros>().units, -20_000);
    assert_eq!(default_cancel_unmatched_after_secs(), 120);
    assert_eq!(default_min_side_price::<Micros>().units, 50_000);
    assert_eq!(default_max_side_price::<Micros>().units, 990_000);
}

#[test]
fn four_keys_act() {
    assert_eq!(key_action('+'), Some(KeyAction::PlaceUp));
    assert_eq!(key_action('-'), Some(KeyAction::PlaceDown));
    assert_eq!(key_action('*'), Some(KeyAction::CancelUp));
    assert_eq!(key_action('/'), Some(KeyAction::CancelDown));
    assert_eq!(key_action('x'), None);
    assert_eq!(handle_key('+', false), KeyDecision::NoSnapshot);
    assert_eq!(handle_key('x', false), KeyDecision::NoSnapshot);
    assert_eq!(handle_key('x', true), KeyDecision::Ignore);
    assert_eq!(handle_key('/', true), KeyDecision::Act(KeyAction::CancelDown));
}

#[test]
fn condition_ids_are_completed() {
    assert_eq!(hex_id("abc"), "0xabc");
    assert_eq!(hex_id("0xabc"), "0xabc");
    assert_eq!(hex_id("0"), "0x0");
    assert_eq!(hex_id(""), "0x");
    assert_eq!(hex_id(&hex_id("abc")), "0xabc");
    assert!(begins_with("abc", "ab") && begins_with("abc", "") && !begins_with("a", "ab"));
}

#[test]
fn redeeming_takes_a_proxy_wallet() {
    assert!(matches!(redeem_plan(&None, &Some("abc".to_string())), Err(MissingProxyWallet)));
    let wallet = Some("0xwallet".to_string());
    match redeem_plan(&wallet, &Some("abc".to_string())) {
        Ok(plan) => {
            assert_eq!(plan.proxy_wallet, "0xwallet");
            match plan.targets {
                RedeemTargets::One { condition_id } => assert_eq!(condition_id, "0xabc"),
                RedeemTargets::AllRedeemable => panic!("one condition was asked for"),
            }
        },
        Err(_) => panic!("there is a wallet"),
    }
    match redeem_plan(&wallet, &None) {
        Ok(plan) => assert!(matches!(plan.targets, RedeemTargets::AllRedeemable)),
        Err(_) => panic!("there is a wallet"),
    }
}

#[test]
fn redemptions_are_counted() {
    assert_eq!(redeem_tally(&vec![true, false, true, true]), (3, 1));
    assert_eq!(redeem_tally(&Vec::new()), (0, 0));
}

#[test]
fn terminal_lines_start_at_the_left() {
    assert_eq!(terminal_bytes(b""), b"".to_vec());
    assert_eq!(terminal_bytes(b"a\nb"), b"\ra\r\nb".to_vec());
    assert_eq!(terminal_bytes(b"\ra\r\n"), b"\ra\r\n".to_vec());
    assert_eq!(terminal_bytes(b"\n"), b"\r\r\n".to_vec());
}

#[test]
fn terminal_texts_move_the_cursor() {
    assert_eq!(terminal_text(""), "\u{1b}[1G");
    assert_eq!(terminal_text("a\n"), "\u{1b}[1Ga\n");
    assert_eq!(terminal_text("a\nb\n"), "\u{1b}[1Ga\n\u{1b}[1Gb\n");
    assert_eq!(terminal_text("\u{2014}\n"), "\u{1b}[1G\u{2014}\n");
    assert_eq!(terminal_text("\u{2014}\n\n"), "\u{1b}[1G\u{2014}\n\u{1b}[1G\n");
}

#[test]
fn remaining_time_leaves_out_leading_zeros() {
    assert_eq!(format_remaining_time(0), "0s");
    assert_eq!(format_remaining_time(59), "59s");
    assert_eq!(format_remaining_time(60), "1m 0s");
    assert_eq!(format_remaining_time(754), "12m 34s");
    assert_eq!(format_remaining_time(3600), "1h 0m 0s");
    assert_eq!(format_remaining_time(86399), "23h 59m 59s");
}

#[test]
fn remaining_times_differ() {
    let mut shown: Vec<String> = (0..8000).map(format_remaining_time).collect();
    shown.sort();
    shown.dedup();
    assert_eq!(shown.len(), 8000);
}

#[test]
fn quotes_are_shown_in_cents() {
    assert_eq!(format_token_price::<Micros>(&quotes(Some(52), Some(53))), "BID:$0.52 ASK:$0.53");
    assert_eq!(format_token_price::<Micros>(&quotes(None, None)), "BID:$0.00 ASK:$0.00");
}

#[test]
fn bought_prices_are_listed() {
    let m = |units: i64| Micros { units };
    assert_eq!(format_bought::<Micros>(&Vec::new()), "\u{2014}");
    assert_eq!(format_bought(&vec![m(520_000)]), "$0.52");
    assert_eq!(format_bought(&vec![m(520_000), m(550_000), m(1_000_000)]), "$0.52 $0.55 $1.00");
}

fn at_night() -> ClockTime {
    ClockTime { year: 2026, month: 2, day: 4, hour: 23, minute: 17, second: 23 }
}

#[test]
fn history_lines_carry_the_time() {
    assert_eq!(at_night().timestamp(), "2026-02-04T23:17:23");
    assert_eq!(at_night().stamped("Period reset"), "[2026-02-04T23:17:23] Period reset");
    let early = ClockTime { year: 7, month: 1, day: 2, hour: 3, minute: 4, second: 5 };
    assert_eq!(early.timestamp(), "0007-01-02T03:04:05");
    assert_eq!(ClockTime { year: 12026, ..early }.timestamp(), "12026-01-02T03:04:05");
}

#[test]
fn a_line_of_the_price_feed() {
    let snapshot = MarketSnapshot {
        market_name: "BTC 15m".to_string(),
        btc_market_15m: MarketData {
            condition_id: "0x1".to_string(),
            market_name: "BTC 15m".to_string(),
            up_token: Some(quotes(Some(52), Some(53))),
            down_token: None,
        },
        btc_15m_period_timestamp: 900,
        btc_15m_time_remaining: 754,
        market_duration_secs: 900,
    };
    assert_eq!(
        price_line(&at_night(), &snapshot, &vec![Micros { units: 540_000 }], &Vec::new()),
        "[2026-02-04T23:17:23] BTC 15m Up Token BID:$0.52 ASK:$0.53 Down Token N/A remaining time:12m 34s | Up bought: $0.54 | Down bought: \u{2014}\n"
    );
}

#[test]
fn the_size_of_a_batch_is_shown() {
    assert_eq!(
        batch_line(5, Micros { units: 30_000_000 }, Micros { units: -20_000 }),
        "   Batch: 5 x 30 shares per limit order (limit = ask+0.01 Up, ask-0.02 Down)"
    );
}
