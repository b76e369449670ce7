use updown_trader::decimal::DecimalValue;
use updown_trader::models::{
    outcome_prices_from, Fill, GammaMarketBySlug, Market, PriceOverflow, Token, TokenPrice,
};

fn price(mantissa: i128, scale: u32) -> DecimalValue {
    DecimalValue { mantissa, scale }
}

fn quotes(bid: Option<DecimalValue>, ask: Option<DecimalValue>) -> TokenPrice {
    TokenPrice { token_id: "t".to_string(), bid, ask }
}

fn by_slug(prices: &str) -> GammaMarketBySlug {
    GammaMarketBySlug {
        condition_id: "0x1".to_string(),
        slug: "s".to_string(),
        active: true,
        closed: false,
        outcome_prices: prices.to_string(),
    }
}

fn number(text: &str) -> Option<f64> {
    text.parse::<f64>().ok()
}

fn fill() -> Fill<u8> {
    Fill {
        id: None,
        token_id: None,
        asset: None,
        token_name: None,
        side: "BUY".to_string(),
        size: 1,
        usdc_size: None,
        price: 1,
        timestamp: 0,
        order_id: None,
        user: None,
        proxy_wallet: None,
        maker: None,
        taker: None,
        fee: None,
        condition_id: None,
        outcome_index: None,
        outcome: None,
        activity_type: None,
        transaction_hash: None,
        title: None,
        slug: None,
    }
}

#[test]
fn the_mid_price_lies_halfway() {
    assert_eq!(quotes(Some(price(52, 2)), Some(price(54, 2))).mid_price(), Some(price(53, 2)));
    assert_eq!(quotes(Some(price(52, 2)), Some(price(53, 2))).mid_price(), Some(price(5250, 4)));
    assert_eq!(quotes(Some(price(5, 1)), Some(price(54, 2))).mid_price(), Some(price(52, 2)));
    assert_eq!(quotes(Some(price(53, 2)), Some(price(53, 2))).mid_price(), Some(price(53, 2)));
    let mid = quotes(Some(price(5, 1)), Some(price(51, 2))).mid_price().unwrap();
    assert_eq!(mid.mantissa * 1000, 505 * 10i128.pow(mid.scale));
    assert_eq!(quotes(Some(price(51, 2)), Some(price(5, 1))).mid_price(), Some(mid));
    assert_eq!(quotes(Some(price(0, 5)), Some(price(54, 2))).mid_price(), Some(price(27, 2)));
    assert_eq!(quotes(Some(price(-53, 2)), Some(price(53, 2))).mid_price().unwrap().mantissa, 0);
    let tiny = price(2, 28);
    let mid = quotes(Some(price(7, 0)), Some(tiny)).mid_price().unwrap();
    assert_eq!(mid, price(35000000000000000000000000001, 28));
    let mid = quotes(Some(price(5_000_000_000_000_000_000_000, 0)), Some(price(-3, 1))).mid_price();
    assert_eq!(mid.unwrap().mantissa * 100, 249999999999999999999985 * 10i128.pow(mid.unwrap().scale));
}

#[test]
fn one_quote_is_its_own_mid_price() {
    assert_eq!(quotes(Some(price(52, 2)), None).mid_price(), Some(price(52, 2)));
    assert_eq!(quotes(None, Some(price(53, 2))).mid_price(), Some(price(53, 2)));
    assert_eq!(quotes(None, None).mid_price(), None);
}

#[test]
fn quotes_that_are_too_large_have_no_mid_price() {
    let most = price(79228162514264337593543950335, 0);
    assert_eq!(quotes(Some(most), Some(most)).checked_mid_price(), Err(PriceOverflow));
    assert_eq!(quotes(Some(most), None).checked_mid_price(), Ok(Some(most)));
    assert_eq!(
        quotes(Some(price(52, 2)), Some(price(54, 2))).checked_mid_price(),
        Ok(Some(price(53, 2)))
    );
}

#[test]
fn a_missing_quote_counts_as_zero() {
    assert_eq!(quotes(None, None).ask_price(), price(0, 0));
    assert_eq!(quotes(None, None).bid_price(), price(0, 0));
    assert_eq!(quotes(Some(price(1, 2)), Some(price(2, 2))).ask_price(), price(2, 2));
    assert_eq!(quotes(Some(price(1, 2)), Some(price(2, 2))).bid_price(), price(1, 2));
}

#[test]
fn outcome_prices_are_two_number_strings() {
    let prices = by_slug("[\"0.595\", \"0.405\"]").parse_outcome_prices(number).unwrap();
    assert_eq!((prices.up, prices.down), (0.595, 0.405));
    let prices = by_slug(" [\"0.545\",\"0.455\",\"x\"]\n").parse_outcome_prices(number).unwrap();
    assert_eq!((prices.up, prices.down), (0.545, 0.455));
}

#[test]
fn other_texts_hold_no_outcome_prices() {
    for text in ["", "[]", "[\"0.5\"]", "[0.5, 0.5]", "[\"a\", \"0.5\"]", "[\"0.5\", \"\"]", "{}"] {
        assert!(by_slug(text).parse_outcome_prices(number).is_none());
    }
}

#[test]
fn outcome_prices_come_from_the_first_two_items() {
    let items = |texts: &[&str]| Some(texts.iter().map(|t| t.to_string()).collect::<Vec<_>>());
    let prices = outcome_prices_from(items(&["1", "0"]), number).unwrap();
    assert_eq!((prices.up, prices.down), (1.0, 0.0));
    assert!(outcome_prices_from(items(&["1"]), number).is_none());
    assert!(outcome_prices_from(None, number).is_none());
}

#[test]
fn tokens_are_found_by_outcome_or_place() {
    let token = |id: &str, outcome: &str| Token {
        token_id: id.to_string(),
        outcome: outcome.to_string(),
        price: None,
    };
    let mut market = Market {
        condition_id: "0x1".to_string(),
        market_id: None,
        question: "".to_string(),
        slug: "".to_string(),
        resolution_source: None,
        end_date_iso: None,
        end_date_iso_alt: None,
        active: true,
        closed: false,
        tokens: None,
        clob_token_ids: None,
        outcomes: None,
    };
    let ids = |market: &Market| {
        let (up, down) = market.token_ids();
        (up.unwrap_or_default(), down.unwrap_or_default())
    };
    assert_eq!(ids(&market), ("".to_string(), "".to_string()));
    market.clob_token_ids = Some("[\"a\", \"b\"]".to_string());
    assert_eq!(ids(&market), ("a".to_string(), "b".to_string()));
    market.clob_token_ids = Some("[\"a\"]".to_string());
    assert_eq!(ids(&market), ("a".to_string(), "".to_string()));
    market.clob_token_ids = Some("none".to_string());
    assert_eq!(ids(&market), ("".to_string(), "".to_string()));
    market.tokens = Some(vec![token("x", "DOWN"), token("y", "up"), token("z", "Up")]);
    assert_eq!(ids(&market), ("y".to_string(), "x".to_string()));
}

#[test]
fn the_token_of_a_fill_is_looked_up_in_two_places() {
    let mut f = fill();
    assert_eq!(f.get_token_id(), None);
    f.asset = Some("asset".to_string());
    assert_eq!(f.get_token_id().map(|s| s.as_str()), Some("asset"));
    f.token_id = Some("token".to_string());
    assert_eq!(f.get_token_id().map(|s| s.as_str()), Some("token"));
}

#[test]
fn the_user_of_a_fill_is_looked_up_in_four_places() {
    let mut f = fill();
    assert_eq!(f.get_user_address(), None);
    f.taker = Some("taker".to_string());
    assert_eq!(f.get_user_address().map(|s| s.as_str()), Some("taker"));
    f.maker = Some("maker".to_string());
    assert_eq!(f.get_user_address().map(|s| s.as_str()), Some("maker"));
    f.proxy_wallet = Some("proxy".to_string());
    assert_eq!(f.get_user_address().map(|s| s.as_str()), Some("proxy"));
    f.user = Some("user".to_string());
    assert_eq!(f.get_user_address().map(|s| s.as_str()), Some("user"));
}
