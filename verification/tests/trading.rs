use updown_trader::amount::{Amount, Micros};
use updown_trader::decimal::DecimalValue;
use updown_trader::market_key::market_key;
use updown_trader::messages::{
    bounds_line, cancel_line, holdings_line, placed_line, placing_line, simulated_line,
};
use updown_trader::models::{MarketData, MarketSnapshot, OrderResponse, TokenPrice};
use updown_trader::orders::Side;
use updown_trader::trader::cancelling::CancelDecision;
use updown_trader::trader::placing::placed_order_ids;
use updown_trader::trader::Trader;

/// Binary floating-point amounts.
#[derive(Clone, Copy, Debug, PartialEq)]
struct Float(f64);

impl Amount for Float {
    fn from_decimal(mantissa: i128, scale: u32) -> Self {
        Float(format!("{}e-{}", mantissa, scale).parse().unwrap())
    }
    fn plus(self, other: Self) -> Self {
        Float(self.0 + other.0)
    }
    fn minus(self, other: Self) -> Self {
        Float(self.0 - other.0)
    }
    fn times(self, other: Self) -> Self {
        Float(self.0 * other.0)
    }
    fn over(self, other: Self) -> Self {
        Float(self.0 / other.0)
    }
    fn least(self, other: Self) -> Self {
        Float(self.0.min(other.0))
    }
    fn greatest(self, other: Self) -> Self {
        Float(self.0.max(other.0))
    }
    fn magnitude(self) -> Self {
        Float(self.0.abs())
    }
    fn at_most(self, other: Self) -> bool {
        self.0 <= other.0
    }
    fn below(self, other: Self) -> bool {
        self.0 < other.0
    }
    fn to_fixed(self, places: u32) -> String {
        format!("{:.*}", places as usize, self.0)
    }
    fn to_plain(self) -> String {
        format!("{}", self.0)
    }
}

fn cents(n: i128) -> DecimalValue {
    DecimalValue { mantissa: n, scale: 2 }
}

fn token(name: &str, ask: Option<i128>) -> Option<TokenPrice> {
    Some(TokenPrice { token_id: name.to_string(), bid: None, ask: ask.map(cents) })
}

fn snapshot_of(condition: &str, period: u64, up_ask: i128, down_ask: i128) -> MarketSnapshot {
    MarketSnapshot {
        market_name: "BTC 15m".to_string(),
        btc_market_15m: MarketData {
            condition_id: condition.to_string(),
            market_name: "BTC 15m".to_string(),
            up_token: token("up-token", Some(up_ask)),
            down_token: token("down-token", Some(down_ask)),
        },
        btc_15m_period_timestamp: period,
        btc_15m_time_remaining: 600,
        market_duration_secs: 900,
    }
}

fn snapshot(up_ask: i128, down_ask: i128) -> MarketSnapshot {
    snapshot_of("0xabc", 900, up_ask, down_ask)
}

fn trader(simulation: bool) -> Trader<Micros> {
    Trader::new(
        simulation,
        5,
        Micros { units: 30_000_000 },
        Micros { units: 50_000 },
        Micros { units: 990_000 },
        Micros { units: -20_000 },
    )
}

fn float_trader(simulation: bool) -> Trader<Float> {
    Trader::new(simulation, 5, Float(30.0), Float(0.05), Float(0.99), Float(-0.02))
}

fn place(trader: &mut Trader<Micros>, snapshot: &MarketSnapshot, side: Side, now: u64, ids: &[&str]) {
    let plan = trader.place_side_batch(snapshot, side, now).unwrap();
    let ids: Vec<String> = ids.iter().map(|id| id.to_string()).collect();
    trader.record_batch(&plan, &ids);
}

#[test]
fn an_up_batch_goes_one_cent_above_the_ask() {
    let plan = trader(true).place_up_batch(&snapshot(52, 49), 1000).unwrap();
    assert_eq!(plan.market_key, "0xabc:900");
    assert_eq!(plan.side, Side::Up);
    assert_eq!(plan.token_id, "up-token");
    assert_eq!(plan.price, Micros { units: 530_000 });
    assert_eq!(plan.size, Micros { units: 30_000_000 });
    assert_eq!(plan.count, 5);
    assert!(!plan.send);
    assert_eq!(plan.placed_at, 1000);
    let plan = float_trader(true).place_up_batch(&snapshot(49, 52), 1000).unwrap();
    assert_eq!(plan.price, Float(0.5));
}

#[test]
fn a_down_batch_goes_at_the_ask_plus_the_offset() {
    let plan = trader(true).place_down_batch(&snapshot(51, 50), 1000).unwrap();
    assert_eq!(plan.side, Side::Down);
    assert_eq!(plan.token_id, "down-token");
    assert_eq!(plan.price, Micros { units: 480_000 });
    assert_eq!(plan.offset, Micros { units: -20_000 });
    let plan = float_trader(true).place_down_batch(&snapshot(51, 50), 1000).unwrap();
    assert_eq!(plan.price, Float(0.48));
}

#[test]
fn a_down_batch_below_the_ask_waits() {
    let mut t = trader(true);
    let s = snapshot(51, 50);
    place(&mut t, &s, Side::Down, 1000, &[]);
    t.process_snapshot(&s, 1001);
    assert_eq!(t.get_matched_bought_prices("0xabc:900").1.len(), 0);
    t.process_snapshot(&snapshot(53, 48), 1002);
    assert_eq!(t.get_matched_bought_prices("0xabc:900").1, vec![Micros { units: 480_000 }]);
}

#[test]
fn prices_match_nothing_in_production() {
    let mut t = trader(false);
    place(&mut t, &snapshot(51, 49), Side::Up, 1000, &["a"]);
    let report = t.process_snapshot(&snapshot(50, 50), 1001).report.unwrap();
    assert_eq!(report.held.unmatched, 5);
    assert_eq!(report.held.up_shares, Micros { units: 0 });
    assert_eq!(t.get_matched_bought_prices("0xabc:900").0.len(), 0);
    assert!(matches!(t.cancel_up_orders(&snapshot(50, 50)), CancelDecision::Cancel { .. }));
}

#[test]
fn confirmed_orders_are_matched_in_production() {
    let mut t = trader(false);
    let s = snapshot(51, 49);
    place(&mut t, &s, Side::Up, 1000, &["a", "b"]);
    t.confirm_orders(&s, &vec!["b".to_string(), "z".to_string()]);
    assert_eq!(t.get_matched_bought_prices("0xabc:900").0, vec![Micros { units: 520_000 }]);
    let report = t.process_snapshot(&s, 1001).report.unwrap();
    assert_eq!(report.held.up_shares, Micros { units: 30_000_000 });
    assert_eq!(report.held.unmatched, 4);
    match t.cancel_up_orders(&s) {
        CancelDecision::Cancel { order_ids } => assert_eq!(order_ids, vec!["a".to_string()]),
        _ => panic!("one named order is open"),
    }
}

#[test]
fn nothing_is_confirmed_in_simulation() {
    let mut t = trader(true);
    let s = snapshot(51, 49);
    place(&mut t, &s, Side::Up, 1000, &["a"]);
    t.confirm_orders(&s, &vec!["a".to_string()]);
    assert_eq!(t.get_matched_bought_prices("0xabc:900").0.len(), 0);
}

#[test]
fn bought_prices_are_never_lost() {
    let mut t = trader(true);
    place(&mut t, &snapshot(51, 49), Side::Up, 1000, &[]);
    t.process_snapshot(&snapshot(50, 50), 1001);
    let bought = vec![Micros { units: 520_000 }];
    assert_eq!(t.get_matched_bought_prices("0xabc:900").0, bought);
    place(&mut t, &snapshot(60, 40), Side::Up, 1002, &[]);
    t.process_snapshot(&snapshot(90, 10), 1003);
    t.drop_open_orders(&snapshot(90, 10), Side::Up);
    t.drop_expired_orders(&snapshot(90, 10), 9000, 1);
    t.reset_period();
    assert_eq!(t.get_matched_bought_prices("0xabc:900").0, bought);
    place(&mut t, &snapshot(51, 49), Side::Up, 1004, &[]);
    t.process_snapshot(&snapshot(51, 49), 1005);
    assert_eq!(
        t.get_matched_bought_prices("0xabc:900").0,
        vec![Micros { units: 520_000 }, Micros { units: 520_000 }]
    );
}

#[test]
fn no_batch_outside_the_price_bounds() {
    let t = trader(false);
    assert!(t.place_up_batch(&snapshot(4, 97), 0).is_none());
    assert!(t.place_up_batch(&snapshot(5, 97), 0).is_some());
    assert!(t.place_up_batch(&snapshot(99, 1), 0).is_some());
    assert!(t.place_up_batch(&snapshot(100, 1), 0).is_none());
}

#[test]
fn a_price_is_held_to_the_bounds() {
    let plan = trader(false).place_up_batch(&snapshot(99, 1), 0).unwrap();
    assert_eq!(plan.price, Micros { units: 990_000 });
    let plan = trader(false).place_down_batch(&snapshot(97, 5), 0).unwrap();
    assert_eq!(plan.price, Micros { units: 50_000 });
}

#[test]
fn no_batch_without_a_token_or_an_ask() {
    let mut s = snapshot(52, 49);
    s.btc_market_15m.up_token = None;
    assert!(trader(false).place_up_batch(&s, 0).is_none());
    s.btc_market_15m.up_token = token("up-token", None);
    assert!(trader(false).place_up_batch(&s, 0).is_none());
    assert!(trader(false).place_down_batch(&s, 0).is_some());
}

#[test]
fn requests_go_out_in_production_only() {
    let plan = trader(false).place_up_batch(&snapshot(52, 49), 0).unwrap();
    let requests = plan.order_requests();
    assert_eq!(requests.len(), 5);
    for request in &requests {
        assert_eq!(request.token_id, "up-token");
        assert_eq!(request.side, "BUY");
        assert_eq!(request.price, "0.5300");
        assert_eq!(request.size, "30.0000");
        assert_eq!(request.order_type, "LIMIT");
    }
    let plan = trader(true).place_up_batch(&snapshot(52, 49), 0).unwrap();
    assert_eq!(plan.order_requests().len(), 0);
    let plan = float_trader(false).place_up_batch(&snapshot(52, 49), 0).unwrap();
    assert_eq!(plan.order_requests()[0].price, "0.5300");
}

#[test]
fn only_replies_with_an_id_count_as_placed() {
    let reply = |id: Option<&str>| OrderResponse {
        order_id: id.map(|id| id.to_string()),
        status: "live".to_string(),
        message: None,
    };
    let replies = vec![Some(reply(Some("a"))), None, Some(reply(None)), Some(reply(Some("b")))];
    assert_eq!(placed_order_ids(&replies), vec!["a".to_string(), "b".to_string()]);
}

#[test]
fn holdings_are_reported_when_they_change() {
    let mut t = trader(true);
    let s = snapshot(52, 49);
    place(&mut t, &s, Side::Up, 1000, &[]);
    let report = t.process_snapshot(&snapshot(54, 47), 1001).report.unwrap();
    assert_eq!(report.held.up_shares, Micros { units: 0 });
    assert_eq!(report.held.unmatched, 5);
    assert!(t.process_snapshot(&snapshot(54, 47), 1002).report.is_none());
    let report = t.process_snapshot(&snapshot(53, 48), 1003).report.unwrap();
    assert_eq!(report.held.up_shares, Micros { units: 150_000_000 });
    assert_eq!(report.held.down_shares, Micros { units: 0 });
    assert_eq!(report.held.unmatched, 0);
    assert_eq!(report.held.total_deposit, Micros { units: 79_500_000 });
    assert_eq!(report.pnl_if_up_wins, Micros { units: 70_500_000 });
    assert_eq!(report.pnl_if_down_wins, Micros { units: -79_500_000 });
    assert_eq!(
        holdings_line("BTC 15m", &report),
        "  BTC 15m | Holding: 150 Up, 0 Down | Unmatched: 0 | Total deposit: $79.50 | PnL if Up wins: $70.50 | if Down wins: $-79.50"
    );
    assert!(t.process_snapshot(&snapshot(60, 41), 1004).report.is_none());
}

#[test]
fn nothing_is_reported_where_nothing_was_placed() {
    let mut t = trader(true);
    assert!(t.process_snapshot(&snapshot(52, 49), 1000).report.is_none());
    assert!(t.log_matched_and_pnl(&"0xabc:900".to_string()).is_none());
}

#[test]
fn an_order_matches_within_a_ten_thousandth() {
    let mut t = trader(true);
    place(&mut t, &snapshot(52, 49), Side::Up, 1000, &[]);
    let mut s = snapshot(53, 49);
    s.btc_market_15m.up_token = Some(TokenPrice {
        token_id: "up-token".to_string(),
        bid: None,
        ask: Some(DecimalValue { mantissa: 53011, scale: 5 }),
    });
    t.process_snapshot(&s, 1001);
    assert_eq!(t.get_matched_bought_prices("0xabc:900").0.len(), 0);
    s.btc_market_15m.up_token = Some(TokenPrice {
        token_id: "up-token".to_string(),
        bid: None,
        ask: Some(DecimalValue { mantissa: 5301, scale: 4 }),
    });
    t.process_snapshot(&s, 1002);
    assert_eq!(t.get_matched_bought_prices("0xabc:900").0, vec![Micros { units: 530_000 }]);
}

#[test]
fn a_batch_shows_its_price_once() {
    let mut t = trader(true);
    place(&mut t, &snapshot(51, 49), Side::Up, 1000, &[]);
    place(&mut t, &snapshot(55, 45), Side::Up, 1001, &[]);
    place(&mut t, &snapshot(55, 45), Side::Down, 1002, &[]);
    t.process_snapshot(&snapshot(50, 43), 1003);
    let (up, down) = t.get_matched_bought_prices("0xabc:900");
    assert_eq!(up, vec![Micros { units: 520_000 }, Micros { units: 560_000 }]);
    assert_eq!(down, vec![Micros { units: 430_000 }]);
    let (up, down) = t.get_matched_bought_prices("0xabc:1800");
    assert!(up.is_empty() && down.is_empty());
}

#[test]
fn matched_orders_stay_matched() {
    let mut t = trader(true);
    place(&mut t, &snapshot(51, 49), Side::Up, 1000, &[]);
    t.process_snapshot(&snapshot(50, 50), 1001);
    t.process_snapshot(&snapshot(90, 10), 1002);
    assert_eq!(t.get_matched_bought_prices("0xabc:900").0.len(), 1);
}

#[test]
fn a_snapshot_without_time_or_asks_changes_nothing() {
    let mut t = trader(false);
    place(&mut t, &snapshot(51, 49), Side::Up, 1000, &[]);
    let mut over = snapshot(40, 49);
    over.btc_15m_time_remaining = 0;
    let outcome = t.process_snapshot(&over, 1001);
    assert!(outcome.report.is_none() && !outcome.sync_fills);
    let mut no_down = snapshot(40, 49);
    no_down.btc_market_15m.down_token = None;
    let outcome = t.process_snapshot(&no_down, 1002);
    assert!(outcome.report.is_none() && !outcome.sync_fills);
    assert_eq!(t.get_matched_bought_prices("0xabc:900").0.len(), 0);
}

#[test]
fn fills_are_asked_for_every_twenty_seconds() {
    let mut t = trader(false);
    assert!(t.process_snapshot(&snapshot(52, 49), 1000).sync_fills);
    assert!(!t.process_snapshot(&snapshot(52, 49), 1019).sync_fills);
    assert!(t.process_snapshot(&snapshot(52, 49), 1020).sync_fills);
    assert!(!t.process_snapshot(&snapshot(52, 49), 1021).sync_fills);
    assert!(t.process_snapshot(&snapshot_of("0xabc", 1800, 52, 49), 1021).sync_fills);
}

#[test]
fn a_simulation_never_asks_for_fills() {
    let mut t = trader(true);
    assert!(!t.process_snapshot(&snapshot(52, 49), 1000).sync_fills);
    assert!(!t.process_snapshot(&snapshot(52, 49), 5000).sync_fills);
}

#[test]
fn cancelling_in_production_names_the_open_orders() {
    let mut t = trader(false);
    let s = snapshot(52, 49);
    assert!(matches!(t.cancel_up_orders(&s), CancelDecision::NoPending));
    place(&mut t, &s, Side::Up, 1000, &["a", "b"]);
    place(&mut t, &s, Side::Down, 1001, &["c"]);
    match t.cancel_up_orders(&s) {
        CancelDecision::Cancel { order_ids } => {
            assert_eq!(order_ids, vec!["a".to_string(), "b".to_string()])
        },
        _ => panic!("two orders are open"),
    }
    t.drop_open_orders(&s, Side::Up);
    assert!(matches!(t.cancel_up_orders(&s), CancelDecision::NoOpen));
    match t.cancel_down_orders(&s) {
        CancelDecision::Cancel { order_ids } => assert_eq!(order_ids, vec!["c".to_string()]),
        _ => panic!("one order is open"),
    }
}

#[test]
fn cancelling_in_simulation_untracks_the_open_orders() {
    let mut t = trader(true);
    let s = snapshot(52, 49);
    place(&mut t, &s, Side::Up, 1000, &[]);
    match t.cancel_up_orders(&s) {
        CancelDecision::Untrack { count } => assert_eq!(count, 5),
        _ => panic!("five orders are open"),
    }
    t.drop_open_orders(&s, Side::Up);
    assert!(matches!(t.cancel_up_orders(&s), CancelDecision::NoOpen));
    assert!(t.process_snapshot(&s, 1001).report.is_none());
}

#[test]
fn cancelling_keeps_matched_orders() {
    let mut t = trader(true);
    place(&mut t, &snapshot(51, 49), Side::Up, 1000, &[]);
    t.process_snapshot(&snapshot(50, 50), 1001);
    place(&mut t, &snapshot(40, 60), Side::Up, 1002, &[]);
    t.drop_open_orders(&snapshot(51, 49), Side::Up);
    let report = t.process_snapshot(&snapshot(50, 50), 1003).report;
    assert!(report.is_none());
    assert_eq!(
        t.get_matched_bought_prices("0xabc:900").0,
        vec![Micros { units: 520_000 }]
    );
}

#[test]
fn expired_orders_are_cancelled_in_production() {
    let mut t = trader(false);
    let s = snapshot(52, 49);
    place(&mut t, &s, Side::Up, 1000, &["a"]);
    place(&mut t, &s, Side::Down, 1100, &["b"]);
    assert!(t.expired_orders(&s, 1119, 120).is_empty());
    assert_eq!(t.expired_orders(&s, 1120, 120), vec!["a".to_string()]);
    assert!(t.expired_orders(&s, 99999, 0).is_empty());
    t.drop_expired_orders(&s, 1120, 120);
    assert!(matches!(t.cancel_up_orders(&s), CancelDecision::NoOpen));
    assert!(matches!(t.cancel_down_orders(&s), CancelDecision::Cancel { .. }));
}

#[test]
fn orders_do_not_expire_in_simulation() {
    let mut t = trader(true);
    let s = snapshot(52, 49);
    place(&mut t, &s, Side::Up, 1000, &["a"]);
    assert!(t.expired_orders(&s, 5000, 120).is_empty());
    t.drop_expired_orders(&s, 5000, 120);
    assert!(matches!(t.cancel_up_orders(&s), CancelDecision::Untrack { .. }));
}

#[test]
fn markets_are_kept_apart() {
    let mut t = trader(true);
    place(&mut t, &snapshot_of("0xabc", 900, 51, 49), Side::Up, 1000, &[]);
    place(&mut t, &snapshot_of("0xabc", 1800, 51, 49), Side::Up, 1000, &[]);
    t.process_snapshot(&snapshot_of("0xabc", 900, 50, 50), 1001);
    assert_eq!(t.get_matched_bought_prices(&market_key("0xabc", 900)).0.len(), 1);
    assert_eq!(t.get_matched_bought_prices(&market_key("0xabc", 1800)).0.len(), 0);
}

#[test]
fn keys_hold_condition_and_period() {
    assert_eq!(market_key("0xabc", 1770249600), "0xabc:1770249600");
    assert_eq!(market_key("", 0), ":0");
    assert_eq!(market_key("a", u64::MAX), "a:18446744073709551615");
}

#[test]
fn placing_messages() {
    let plan = trader(true).place_up_batch(&snapshot(52, 49), 0).unwrap();
    assert_eq!(
        placing_line("BTC 15m", &plan),
        "\u{1f4ca} BTC 15m: placing 5 limit buy Up @ $0.5300 x 30 shares each (ask+0.01)"
    );
    let down = float_trader(true).place_down_batch(&snapshot(51, 50), 0).unwrap();
    assert_eq!(
        placing_line("BTC 15m", &down),
        "\u{1f4ca} BTC 15m: placing 5 limit buy Down @ $0.4800 x 30 shares each (ask-0.02)"
    );
    assert_eq!(simulated_line(&plan, 2), "  [SIM] Limit BUY Up #2/5 @ $0.5300 x 30");
    assert_eq!(placed_line("BTC 15m", 3, "id"), "  BTC 15m limit order #3 placed: id");
    assert_eq!(
        bounds_line(Float(0.05), Float(0.99)),
        "   Price bounds: $0.05\u{2013}$0.99"
    );
}

#[test]
fn cancelling_messages() {
    assert_eq!(
        cancel_line("BTC 15m", Side::Up, &CancelDecision::NoPending),
        "  BTC 15m | No pending orders to cancel for Up"
    );
    assert_eq!(
        cancel_line("BTC 15m", Side::Down, &CancelDecision::NoOpen),
        "  BTC 15m | No open Down orders to cancel"
    );
    let decision = CancelDecision::Cancel { order_ids: vec!["a".to_string(), "b".to_string()] };
    assert_eq!(
        cancel_line("BTC 15m", Side::Up, &decision),
        "  BTC 15m | Cancelled 2 Up order(s)"
    );
    assert_eq!(
        cancel_line("BTC 15m", Side::Down, &CancelDecision::Untrack { count: 5 }),
        "  BTC 15m | Cancelled 5 Down order(s)"
    );
}

#[test]
fn floating_point_holdings_are_compared_loosely() {
    let mut t = float_trader(true);
    let s = snapshot(52, 49);
    let plan = t.place_up_batch(&s, 0).unwrap();
    t.record_batch(&plan, &Vec::new());
    let report = t.process_snapshot(&s, 1).report.unwrap();
    assert_eq!(report.held.up_shares, Float(150.0));
    assert!((report.held.total_deposit.0 - 79.5).abs() < 1e-9);
    assert!(t.process_snapshot(&s, 2).report.is_none());
}

#[test]
fn cancelling_twice_is_cancelling_once() {
    let mut t = trader(true);
    let s = snapshot(52, 49);
    place(&mut t, &s, Side::Up, 1000, &[]);
    place(&mut t, &s, Side::Down, 1001, &[]);
    t.drop_open_orders(&s, Side::Up);
    t.drop_open_orders(&s, Side::Up);
    assert!(matches!(t.cancel_up_orders(&s), CancelDecision::NoOpen));
    match t.cancel_down_orders(&s) {
        CancelDecision::Untrack { count } => assert_eq!(count, 5),
        _ => panic!("five orders are open"),
    }
}

#[test]
fn a_simulation_stays_one() {
    let mut t = trader(true);
    let s = snapshot(52, 49);
    place(&mut t, &s, Side::Up, 1000, &[]);
    t.process_snapshot(&s, 1001);
    t.drop_open_orders(&s, Side::Up);
    t.reset_period();
    let plan = t.place_up_batch(&s, 1002).unwrap();
    assert!(!plan.send);
    assert_eq!(plan.count, 5);
}
