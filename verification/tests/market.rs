use updown_trader::discovery::{
    known_asset, round_to_period, Discovery, DiscoveryError, DiscoveryStep,
};
use updown_trader::messages::market_name;
use updown_trader::models::Market;
use updown_trader::period::{
    period_length, renewal_minutes, secs_to_next_period, timeframe_length, PeriodWatch,
};
use updown_trader::slug::{hourly_slug, slug_15m, slug_1h_human_readable};

fn market(id: &str, active: bool, closed: bool) -> Market {
    Market {
        condition_id: id.to_string(),
        market_id: None,
        question: "".to_string(),
        slug: "a-slug".to_string(),
        resolution_source: None,
        end_date_iso: None,
        end_date_iso_alt: None,
        active,
        closed,
        tokens: None,
        clob_token_ids: None,
        outcomes: None,
    }
}

fn search(minutes: u64, now: u64) -> Discovery {
    match Discovery::discover_market_for_asset_timeframe("BTC", minutes, now) {
        Ok(search) => search,
        Err(_) => panic!("BTC is supported"),
    }
}

#[test]
fn hourly_slugs_are_human_readable() {
    // 2026-02-03 04:00 UTC is 11 pm of February 2 in New York.
    assert_eq!(slug_1h_human_readable(1770091200, "btc"), "bitcoin-up-or-down-february-2-11pm-et");
    // 2026-07-01 16:00 UTC is noon in New York, in summer time.
    assert_eq!(slug_1h_human_readable(1782921600, "eth"), "ethereum-up-or-down-july-1-12pm-et");
    // 2026-01-01 05:00 UTC is midnight in New York.
    assert_eq!(slug_1h_human_readable(1767243600, "sol"), "sol-up-or-down-january-1-12am-et");
}

#[test]
fn hourly_slugs_name_month_day_and_hour() {
    let months = [
        "january", "february", "march", "april", "may", "june", "july", "august", "september",
        "october", "november", "december",
    ];
    for (i, month) in months.iter().enumerate() {
        assert_eq!(
            hourly_slug(i as u32 + 1, 31, 13, "xrp"),
            format!("xrp-up-or-down-{}-31-1pm-et", month)
        );
    }
    assert_eq!(hourly_slug(13, 5, 0, "btc"), "bitcoin-up-or-down-january-5-12am-et");
    assert_eq!(hourly_slug(3, 5, 1, "btc"), "bitcoin-up-or-down-march-5-1am-et");
    assert_eq!(hourly_slug(3, 5, 11, "btc"), "bitcoin-up-or-down-march-5-11am-et");
    assert_eq!(hourly_slug(3, 5, 12, "btc"), "bitcoin-up-or-down-march-5-12pm-et");
    assert_eq!(hourly_slug(3, 5, 23, "btc"), "bitcoin-up-or-down-march-5-11pm-et");
}

#[test]
fn slugs_of_different_hours_differ() {
    let mut slugs: Vec<String> = (0..24).map(|hour| hourly_slug(2, 2, hour, "btc")).collect();
    slugs.sort();
    slugs.dedup();
    assert_eq!(slugs.len(), 24);
}

#[test]
fn quarter_hour_slugs_hold_the_start() {
    assert_eq!(slug_15m(1770249600, "btc"), "btc-updown-15m-1770249600");
    assert_ne!(slug_15m(1770249600, "btc"), slug_15m(1770250500, "btc"));
}

#[test]
fn periods_start_at_multiples_of_their_length() {
    assert_eq!(round_to_period(1770250499, 900), 1770249600);
    assert_eq!(round_to_period(1770249600, 900), 1770249600);
    assert_eq!(round_to_period(899, 900), 0);
    assert_eq!(round_to_period(u64::MAX, 3600), u64::MAX - u64::MAX % 3600);
}

#[test]
fn four_assets_are_supported() {
    assert!(known_asset("btc") && known_asset("eth") && known_asset("sol") && known_asset("xrp"));
    assert!(!known_asset("doge") && !known_asset("BTC") && !known_asset(""));
    match Discovery::discover_market_for_asset_timeframe("Doge", 15, 1770250000) {
        Err(error) => assert_eq!(error, DiscoveryError::UnsupportedAsset),
        Ok(_) => panic!("there are no such markets"),
    }
    match Discovery::discover_market_for_asset_timeframe("Eth", 15, 1770250000) {
        Ok(search) => assert_eq!(search.slug_prefix, "eth"),
        Err(_) => panic!("ETH is supported"),
    }
}

#[test]
fn only_two_durations_are_supported() {
    match Discovery::discover_market_for_asset_timeframe("btc", 30, 1770250000) {
        Err(error) => assert_eq!(error, DiscoveryError::UnsupportedDuration { minutes: 30 }),
        Ok(_) => panic!("there are no such markets"),
    }
}

#[test]
fn the_current_period_is_tried_first() {
    let s = search(15, 1770250000);
    assert_eq!(s.slug(), "btc-updown-15m-1770249600");
    match s.step(Some(market("0x1", true, false)), &Vec::new()) {
        DiscoveryStep::Found(found) => assert_eq!(found.condition_id, "0x1"),
        _ => panic!("the market is open"),
    }
}

#[test]
fn three_earlier_periods_are_tried_before_giving_up() {
    let mut s = search(15, 1770250000);
    let mut tried = Vec::new();
    let error = loop {
        tried.push(s.slug());
        let reply = if tried.len() == 2 { Some(market("0x1", true, true)) } else { None };
        match s.step(reply, &Vec::new()) {
            DiscoveryStep::TryNext(next) => s = next,
            DiscoveryStep::Failed(error) => break error,
            DiscoveryStep::Found(_) => panic!("there is no open market"),
        }
    };
    assert_eq!(error, DiscoveryError::NotFound);
    assert_eq!(
        tried,
        vec![
            "btc-updown-15m-1770249600".to_string(),
            "btc-updown-15m-1770248700".to_string(),
            "btc-updown-15m-1770247800".to_string(),
            "btc-updown-15m-1770246900".to_string(),
        ]
    );
}

#[test]
fn hourly_searches_go_back_by_the_hour() {
    let s = search(60, 1770091234);
    assert_eq!(s.slug(), "bitcoin-up-or-down-february-2-11pm-et");
    match s.step(None, &Vec::new()) {
        DiscoveryStep::TryNext(next) => {
            assert_eq!(next.slug(), "bitcoin-up-or-down-february-2-10pm-et")
        },
        _ => panic!("three periods are left"),
    }
}

#[test]
fn closed_inactive_and_seen_markets_are_passed_over() {
    let seen = vec!["0x1".to_string()];
    for reply in [
        market("0x1", true, false),
        market("0x2", false, false),
        market("0x2", true, true),
    ] {
        match search(15, 1770250000).step(Some(reply), &seen) {
            DiscoveryStep::TryNext(next) => assert_eq!(next.offset, 1),
            _ => panic!("the market cannot be used"),
        }
    }
    match search(15, 1770250000).step(Some(market("0x2", true, false)), &seen) {
        DiscoveryStep::Found(found) => assert_eq!(found.condition_id, "0x2"),
        _ => panic!("the market is open"),
    }
}

#[test]
fn timeframes_have_lengths() {
    assert_eq!(timeframe_length("1h"), (60, 3600));
    assert_eq!(timeframe_length(" 1H\t"), (60, 3600));
    assert_eq!(timeframe_length("15m"), (15, 900));
    assert_eq!(timeframe_length("4h"), (15, 900));
    assert_eq!(timeframe_length("\u{3000}1h\u{85}"), (60, 3600));
    assert_eq!(period_length("1h"), (60, 3600));
    assert_eq!(period_length("1H"), (15, 900));
    assert_eq!(renewal_minutes(" 1H "), 60);
    assert_eq!(renewal_minutes("15m"), 15);
}

#[test]
fn waiting_for_the_next_period() {
    assert_eq!(secs_to_next_period(900, 900, 1000), 800);
    assert_eq!(secs_to_next_period(900, 900, 1800), 0);
    assert_eq!(secs_to_next_period(900, 900, 5000), 0);
}

#[test]
fn each_period_is_reported_once() {
    let mut watch = PeriodWatch::new();
    assert_eq!(watch.wake(1801, 900), Some(1800));
    assert_eq!(watch.wake(2699, 900), None);
    assert_eq!(watch.wake(2700, 900), Some(2700));
    assert_eq!(watch.wake(1801, 900), Some(1800));
}

#[test]
fn market_names_are_in_upper_case() {
    assert_eq!(market_name("btc", "15m"), "BTC 15m");
    assert_eq!(market_name("stra\u{df}e", "1h"), "STRASSE 1h");
}
