use updown_trader::amount::{Amount, Micros};
use updown_trader::decimal::DecimalValue;
use updown_trader::fills::{bought_order_ids, fill_side, position};
use updown_trader::messages::{position_line, profit_line, resolved_line, settled_line};
use updown_trader::models::{
    Fill, MarketData, MarketDetails, MarketSnapshot, MarketToken, Rewards, TokenPrice,
};
use updown_trader::orders::Side;
use updown_trader::trader::Trader;

/// Binary floating-point amounts.
#[derive(Clone, Copy, Debug, PartialEq)]
struct Float(f64);

impl Amount for Float {
    fn from_decimal(mantissa: i128, scale: u32) -> Self {
        Float(format!("{}e-{}", mantissa, scale).parse().unwrap())
    }
    fn plus(self, other: Self) -> Self {
        Float(self.0 + other.0)
    }
    fn minus(self, other: Self) -> Self {
        Float(self.0 - other.0)
    }
    fn times(self, other: Self) -> Self {
        Float(self.0 * other.0)
    }
    fn over(self, other: Self) -> Self {
        Float(self.0 / other.0)
    }
    fn least(self, other: Self) -> Self {
        Float(self.0.min(other.0))
    }
    fn greatest(self, other: Self) -> Self {
        Float(self.0.max(other.0))
    }
    fn magnitude(self) -> Self {
        Float(self.0.abs())
    }
    fn at_most(self, other: Self) -> bool {
        self.0 <= other.0
    }
    fn below(self, other: Self) -> bool {
        self.0 < other.0
    }
    fn to_fixed(self, places: u32) -> String {
        format!("{:.*}", places as usize, self.0)
    }
    fn to_plain(self) -> String {
        format!("{}", self.0)
    }
}

fn m(units: i64) -> Micros {
    Micros { units }
}

fn fill<A>(side: &str, outcome: Option<&str>, token: Option<&str>, size: A, price: A) -> Fill<A> {
    Fill {
        id: None,
        token_id: token.map(|t| t.to_string()),
        asset: None,
        token_name: None,
        side: side.to_string(),
        size,
        usdc_size: None,
        price,
        timestamp: 0,
        order_id: None,
        user: None,
        proxy_wallet: None,
        maker: None,
        taker: None,
        fee: None,
        condition_id: None,
        outcome_index: None,
        outcome: outcome.map(|o| o.to_string()),
        activity_type: None,
        transaction_hash: None,
        title: None,
        slug: None,
    }
}

fn snapshot() -> MarketSnapshot {
    let token = |name: &str| {
        Some(TokenPrice {
            token_id: name.to_string(),
            bid: None,
            ask: Some(DecimalValue { mantissa: 5, scale: 1 }),
        })
    };
    MarketSnapshot {
        market_name: "BTC 15m".to_string(),
        btc_market_15m: MarketData {
            condition_id: "0x0123456789abcdef0123".to_string(),
            market_name: "BTC 15m".to_string(),
            up_token: token("up-token"),
            down_token: token("down-token"),
        },
        btc_15m_period_timestamp: 900,
        btc_15m_time_remaining: 600,
        market_duration_secs: 900,
    }
}

fn details(closed: bool, winner: Option<&str>) -> MarketDetails {
    let zero = DecimalValue { mantissa: 0, scale: 0 };
    let text = || "".to_string();
    let token = |name: &str| MarketToken {
        outcome: text(),
        price: zero,
        token_id: name.to_string(),
        winner: winner == Some(name),
    };
    MarketDetails {
        accepting_order_timestamp: None,
        accepting_orders: false,
        active: true,
        archived: false,
        closed,
        condition_id: "0x0123456789abcdef0123".to_string(),
        description: text(),
        enable_order_book: true,
        end_date_iso: text(),
        fpmm: text(),
        game_start_time: None,
        icon: text(),
        image: text(),
        is_50_50_outcome: false,
        maker_base_fee: zero,
        market_slug: text(),
        minimum_order_size: zero,
        minimum_tick_size: zero,
        neg_risk: false,
        neg_risk_market_id: text(),
        neg_risk_request_id: text(),
        notifications_enabled: false,
        question: text(),
        question_id: text(),
        rewards: Rewards { max_spread: zero, min_size: zero, rates: None },
        seconds_delay: 0,
        tags: Vec::new(),
        taker_base_fee: zero,
        tokens: vec![token("up-token"), token("down-token")],
    }
}

fn trader(simulation: bool) -> Trader<Micros> {
    Trader::new(simulation, 5, m(30_000_000), m(50_000), m(990_000), m(-20_000))
}

fn holding_both() -> Vec<Fill<Micros>> {
    vec![
        fill("buy", Some("UP"), None, m(100_000_000), m(500_000)),
        fill("BUY", None, Some("down-token"), m(40_000_000), m(250_000)),
        fill("SELL", Some("Up"), None, m(10_000_000), m(900_000)),
    ]
}

#[test]
fn fills_make_a_position() {
    let up = Some("up-token".to_string());
    let down = Some("down-token".to_string());
    let p = position(&holding_both(), &up, &down);
    assert_eq!(p.up_shares, m(100_000_000));
    assert_eq!(p.up_cost, m(50_000_000));
    assert_eq!(p.down_shares, m(40_000_000));
    assert_eq!(p.down_cost, m(10_000_000));
}

#[test]
fn a_fill_belongs_to_one_side_at_most() {
    let up = Some("up-token".to_string());
    let down = Some("down-token".to_string());
    let side = |f: &Fill<Micros>| fill_side("BUY", f, &up, &down);
    let one = m(1);
    assert_eq!(side(&fill("BUY", Some("uP"), None, one, one)), Some(Side::Up));
    assert_eq!(side(&fill("BUY", Some("down"), Some("up-token"), one, one)), Some(Side::Down));
    assert_eq!(side(&fill("BUY", Some("draw"), Some("up-token"), one, one)), None);
    assert_eq!(side(&fill("BUY", None, Some("up-token"), one, one)), Some(Side::Up));
    assert_eq!(side(&fill("BUY", None, Some("other"), one, one)), None);
    assert_eq!(side(&fill("BUY", None, None, one, one)), None);
    assert_eq!(fill_side("SELL", &fill("SELL", Some("Up"), None, one, one), &up, &down), None);
    assert_eq!(fill_side("BUY", &fill("BUY", None, None, one, one), &None, &None), None);
}

#[test]
fn a_synced_position_is_reported_and_kept() {
    let mut t = trader(false);
    let report = t.sync_position_and_log_pnl(&snapshot(), &holding_both()).unwrap();
    assert_eq!(report.total_cost, m(60_000_000));
    assert_eq!(report.pnl_if_up_wins, m(40_000_000));
    assert_eq!(report.pnl_if_down_wins, m(-20_000_000));
    assert_eq!(
        position_line("BTC 15m", &report),
        "  BTC 15m | Position (from API): Up 100.00 @ $50.00 cost | Down 40.00 @ $10.00 cost | Total $60.00 | PnL if Up wins: $40.00 | if Down wins: $-20.00"
    );
    let ended = t.check_market_closure(1800);
    assert_eq!(ended.len(), 1);
    assert_eq!(ended[0].market_key, "0x0123456789abcdef0123:900");
    assert_eq!(ended[0].trade.up_avg_price, m(500_000));
    assert_eq!(ended[0].trade.down_avg_price, m(250_000));
    assert_eq!(ended[0].trade.up_token_id.as_deref(), Some("up-token"));
}

#[test]
fn no_fills_make_no_position() {
    let mut t = trader(false);
    assert!(t.sync_position_and_log_pnl(&snapshot(), &Vec::new()).is_none());
    assert!(t.check_market_closure(u64::MAX).is_empty());
}

#[test]
fn a_market_ends_with_its_period() {
    let mut t = trader(false);
    t.sync_position_and_log_pnl(&snapshot(), &holding_both());
    assert!(t.check_market_closure(1799).is_empty());
    assert_eq!(t.check_market_closure(1800).len(), 1);
}

#[test]
fn an_open_market_is_not_settled() {
    let mut t = trader(false);
    t.sync_position_and_log_pnl(&snapshot(), &holding_both());
    let ended = t.check_market_closure(1800);
    let settled = t.settle(&ended[0].market_key, &ended[0].trade, &details(false, Some("up-token")));
    assert!(settled.is_none());
    assert_eq!(t.check_market_closure(1800).len(), 1);
    assert_eq!(t.get_total_profit(), m(0));
}

#[test]
fn a_closed_market_pays_the_winner() {
    let mut t = trader(false);
    t.sync_position_and_log_pnl(&snapshot(), &holding_both());
    let ended = t.check_market_closure(1800);
    let trade = &ended[0].trade;
    let settled = t.settle(&ended[0].market_key, trade, &details(true, Some("up-token"))).unwrap();
    assert_eq!(settled.winner, Some(Side::Up));
    assert_eq!(settled.total_cost, m(60_000_000));
    assert_eq!(settled.payout, m(100_000_000));
    assert_eq!(settled.pnl, m(40_000_000));
    assert_eq!(settled.total_profit, m(40_000_000));
    let redeem = settled.redeem.as_ref().unwrap();
    assert_eq!(redeem.outcome, Side::Up);
    assert_eq!(redeem.token_id, "up-token");
    assert_eq!(redeem.condition_id, "0x0123456789abcdef0123");
    assert_eq!(
        resolved_line("0x0123456789abcd", trade, &settled),
        "Market closed | condition 0x0123456789abcd | Winner: Up | Up 100.00 @ 0.5000 | Down 40.00 @ 0.2500 | Cost $60.00 | Payout $100.00 | Actual PnL $40.00"
    );
    assert_eq!(
        settled_line(&settled),
        "  -> Actual PnL this market: $40.00 | Total actual PnL (all time): $40.00"
    );
    assert_eq!(t.get_total_profit(), m(40_000_000));
    assert_eq!(t.get_period_profit(), m(40_000_000));
    assert!(t.check_market_closure(1800).is_empty());
}

#[test]
fn a_market_is_settled_once_until_the_period_is_reset() {
    let mut t = trader(false);
    let condition = "0x0123456789abcdef0123";
    t.sync_position_and_log_pnl(&snapshot(), &holding_both());
    let ended = t.check_market_closure(1800);
    assert!(!t.is_closure_checked(condition));
    t.settle(&ended[0].market_key, &ended[0].trade, &details(true, Some("down-token")));
    assert!(t.is_closure_checked(condition));
    assert_eq!(t.get_total_profit(), m(-20_000_000));
    let again = t.settle(&ended[0].market_key, &ended[0].trade, &details(true, None));
    assert!(again.is_none());
    assert_eq!(t.get_total_profit(), m(-20_000_000));
    t.reset_period();
    assert!(!t.is_closure_checked(condition));
    assert_eq!(t.get_period_profit(), m(-20_000_000));
}

#[test]
fn an_unknown_winner_pays_nothing_and_redeems_nothing() {
    let mut t = trader(false);
    t.sync_position_and_log_pnl(&snapshot(), &holding_both());
    let ended = t.check_market_closure(1800);
    let settled = t.settle(&ended[0].market_key, &ended[0].trade, &details(true, None)).unwrap();
    assert_eq!(settled.winner, None);
    assert_eq!(settled.payout, m(0));
    assert_eq!(settled.pnl, m(-60_000_000));
    assert!(settled.redeem.is_none());
    assert!(resolved_line("0x", &ended[0].trade, &settled).contains("Winner: Unknown"));
}

#[test]
fn a_side_that_won_with_next_to_nothing_is_not_redeemed() {
    let mut t = trader(false);
    let fills = vec![
        fill("BUY", Some("Up"), None, m(1_000), m(500_000)),
        fill("BUY", Some("Down"), None, m(5_000_000), m(500_000)),
    ];
    t.sync_position_and_log_pnl(&snapshot(), &fills);
    let ended = t.check_market_closure(1800);
    let market = details(true, Some("up-token"));
    let settled = t.settle(&ended[0].market_key, &ended[0].trade, &market).unwrap();
    assert_eq!(settled.winner, Some(Side::Up));
    let redeem = settled.redeem.unwrap();
    assert_eq!(redeem.outcome, Side::Down);
    assert_eq!(redeem.token_id, "down-token");
}

#[test]
fn a_simulation_redeems_nothing() {
    let mut t = trader(true);
    t.sync_position_and_log_pnl(&snapshot(), &holding_both());
    let ended = t.check_market_closure(1800);
    let market = details(true, Some("up-token"));
    let settled = t.settle(&ended[0].market_key, &ended[0].trade, &market).unwrap();
    assert!(settled.redeem.is_none());
}

#[test]
fn profits_are_shown_where_there_are_any() {
    assert!(profit_line(m(0), m(0)).is_none());
    assert_eq!(
        profit_line(m(1_500_000), m(-250_000)).unwrap(),
        "Current Profit - Period: $-0.25 | Total: $1.50"
    );
    assert!(profit_line(Float(0.0), Float(-0.0)).is_none());
    assert!(profit_line(Float(0.0), Float(f64::NAN)).is_some());
}

#[test]
fn a_closed_market_pays_in_simulation() {
    let mut t = trader(true);
    let s = snapshot();
    let plan = t.place_up_batch(&s, 1000).unwrap();
    assert_eq!(plan.price, m(510_000));
    t.record_batch(&plan, &Vec::new());
    assert!(t.check_market_closure(1800).is_empty());
    t.process_snapshot(&s, 1001);
    let ended = t.check_market_closure(1800);
    assert_eq!(ended.len(), 1);
    assert_eq!(ended[0].trade.up_shares, m(150_000_000));
    assert_eq!(ended[0].trade.up_avg_price, m(510_000));
    let market = details(true, Some("up-token"));
    let settled = t.settle(&ended[0].market_key, &ended[0].trade, &market).unwrap();
    assert_eq!(settled.total_cost, m(76_500_000));
    assert_eq!(settled.pnl, m(73_500_000));
    assert!(settled.redeem.is_none());
    assert_eq!(t.get_total_profit(), m(73_500_000));
    assert_eq!(t.get_period_profit(), m(73_500_000));
}

#[test]
fn a_simulation_loses_what_it_paid_when_the_other_side_wins() {
    let mut t = trader(true);
    let s = snapshot();
    let plan = t.place_up_batch(&s, 1000).unwrap();
    t.record_batch(&plan, &Vec::new());
    t.process_snapshot(&s, 1001);
    let ended = t.check_market_closure(1800);
    let market = details(true, Some("down-token"));
    let settled = t.settle(&ended[0].market_key, &ended[0].trade, &market).unwrap();
    assert_eq!(settled.pnl, m(-76_500_000));
}

#[test]
fn fills_match_their_orders_in_production() {
    let mut t = trader(false);
    let s = snapshot();
    let plan = t.place_up_batch(&s, 1000).unwrap();
    t.record_batch(&plan, &vec!["a".to_string(), "b".to_string(), "c".to_string()]);
    let with_id = |side: &str, id: &str| {
        let mut f = fill(side, Some("Up"), None, m(30_000_000), m(510_000));
        f.order_id = Some(id.to_string());
        f
    };
    let fills = vec![with_id("Buy", "a"), with_id("SELL", "b"), with_id("buy", "x")];
    assert_eq!(bought_order_ids(&fills), vec!["a".to_string(), "x".to_string()]);
    t.sync_position_and_log_pnl(&s, &fills);
    let report = t.process_snapshot(&s, 1001).report.unwrap();
    assert_eq!(report.held.up_shares, m(30_000_000));
    assert_eq!(report.held.unmatched, 4);
    assert_eq!(t.get_matched_bought_prices(&plan.market_key).0, vec![m(510_000)]);
}

#[test]
fn floating_point_positions() {
    let mut t: Trader<Float> = Trader::new(false, 5, Float(30.0), Float(0.05), Float(0.99), Float(-0.02));
    let fills = vec![fill("BUY", Some("Up"), None, Float(10.0), Float(0.4))];
    let report = t.sync_position_and_log_pnl(&snapshot(), &fills).unwrap();
    assert_eq!(report.total_cost, Float(4.0));
    assert_eq!(report.pnl_if_up_wins, Float(6.0));
    let ended = t.check_market_closure(1800);
    assert_eq!(ended[0].trade.up_avg_price, Float(0.4));
    assert_eq!(ended[0].trade.down_avg_price, Float(0.0));
}
