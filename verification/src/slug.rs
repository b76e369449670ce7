//! The names under which the exchange lists its Up/Down markets.

use crate::text;
use crate::text::{decimal_text, same_text};
use chrono::{Datelike, TimeZone, Timelike};
use vstd::prelude::*;
use vstd::string::*;

verus! {

/// First Unix second of the calendar: the start of the year -262143.
pub const FIRST_SECOND: i64 = -8_334_601_228_800;

/// Last Unix second of the calendar: the end of the year 262142.
pub const LAST_SECOND: i64 = 8_210_266_876_799;

/// Month (from 1), day of the month (from 1) and hour (from 0) that `chrono` and `chrono_tz`
/// give for a Unix time in the time zone `America/New_York`.
pub uninterp spec fn new_york_clock(unix_secs: int) -> (int, int, int);

/// Calls `chrono::TimeZone::timestamp_opt` on `Utc`, `DateTime::with_timezone` with
/// `chrono_tz::America::New_York`, and reads `month`, `day` and `hour`. They depend on the
/// time alone; the calendar reaches from `FIRST_SECOND` to `LAST_SECOND`.
#[verifier::external_body]
pub(crate) fn new_york_time(unix_secs: i64) -> (clock: (u32, u32, u32))
    requires
        FIRST_SECOND <= unix_secs <= LAST_SECOND,
    ensures
        (clock.0 as int, clock.1 as int, clock.2 as int) == new_york_clock(unix_secs as int),
        1 <= clock.0 <= 12,
        1 <= clock.1 <= 31,
        clock.2 <= 23,
{
    let utc = chrono::Utc.timestamp_opt(unix_secs, 0).single().unwrap();
    let local = utc.with_timezone(&chrono_tz::America::New_York);
    (local.month(), local.day(), local.hour())
}

/// The English name of a month, in lower case.
pub open spec fn month_name_of(month: int) -> Seq<char> {
    if month == 2 {
        "february"@
    } else if month == 3 {
        "march"@
    } else if month == 4 {
        "april"@
    } else if month == 5 {
        "may"@
    } else if month == 6 {
        "june"@
    } else if month == 7 {
        "july"@
    } else if month == 8 {
        "august"@
    } else if month == 9 {
        "september"@
    } else if month == 10 {
        "october"@
    } else if month == 11 {
        "november"@
    } else if month == 12 {
        "december"@
    } else {
        "january"@
    }
}

fn month_name(month: u32) -> (name: &'static str)
    ensures
        name@ == month_name_of(month as int),
{
    match month {
        2 => "february",
        3 => "march",
        4 => "april",
        5 => "may",
        6 => "june",
        7 => "july",
        8 => "august",
        9 => "september",
        10 => "october",
        11 => "november",
        12 => "december",
        _ => "january",
    }
}

/// The hour on a 12-hour clock face.
pub open spec fn hour_on_face(hour: int) -> int {
    if hour == 0 {
        12
    } else if hour <= 12 {
        hour
    } else {
        hour - 12
    }
}

/// "am" before noon, "pm" from noon on.
pub open spec fn half_of_day(hour: int) -> Seq<char> {
    if hour < 12 {
        "am"@
    } else {
        "pm"@
    }
}

/// The name of an asset in the slug of an hourly market.
pub open spec fn asset_name_of(slug_prefix: Seq<char>) -> Seq<char> {
    if slug_prefix == "btc"@ {
        "bitcoin"@
    } else if slug_prefix == "eth"@ {
        "ethereum"@
    } else {
        slug_prefix
    }
}

/// The slug of an hourly market that starts at the given month, day and hour.
pub open spec fn hourly_slug_of(month: int, day: nat, hour: int, slug_prefix: Seq<char>) -> Seq<
    char,
> {
    asset_name_of(slug_prefix) + "-up-or-down-"@ + month_name_of(month) + "-"@
        + text::decimal_digits(day) + "-"@ + text::decimal_digits(hour_on_face(hour) as nat)
        + half_of_day(hour) + "-et"@
}

/// The slug of an hourly market that starts at the given month, day and hour, e.g.
/// bitcoin-up-or-down-february-2-11pm-et.
pub fn hourly_slug(month: u32, day: u32, hour: u32, slug_prefix: &str) -> (slug: String)
    ensures
        slug@ == hourly_slug_of(month as int, day as nat, hour as int, slug_prefix@),
{
    let mut slug: String = if same_text(slug_prefix, "btc") {
        "bitcoin".to_owned()
    } else if same_text(slug_prefix, "eth") {
        "ethereum".to_owned()
    } else {
        slug_prefix.to_owned()
    };
    let face: u32 = if hour == 0 {
        12
    } else if hour <= 12 {
        hour
    } else {
        hour - 12
    };
    slug.append("-up-or-down-");
    slug.append(month_name(month));
    slug.append("-");
    slug.append(decimal_text(day as u128).as_str());
    slug.append("-");
    slug.append(decimal_text(face as u128).as_str());
    slug.append(
        if hour < 12 {
            "am"
        } else {
            "pm"
        },
    );
    slug.append("-et");
    slug
}

/// The calendar holds this Unix time, read as a signed number.
pub open spec fn in_calendar(unix_secs: u64) -> bool {
    FIRST_SECOND <= (unix_secs as i64) <= LAST_SECOND
}

/// The slug of the hourly market that starts at a Unix time.
pub open spec fn slug_1h_of(period_start_unix: u64, slug_prefix: Seq<char>) -> Seq<char> {
    let (month, day, hour) = new_york_clock((period_start_unix as i64) as int);
    hourly_slug_of(month, day as nat, hour, slug_prefix)
}

/// The slug of the hourly market that starts at a Unix time, e.g.
/// bitcoin-up-or-down-february-2-11pm-et.
pub fn slug_1h_human_readable(period_start_unix: u64, slug_prefix: &str) -> (slug: String)
    requires
        in_calendar(period_start_unix),
    ensures
        slug@ == slug_1h_of(period_start_unix, slug_prefix@),
{
    let (month, day, hour) = new_york_time(
        #[verifier::truncate]
        (period_start_unix as i64),
    );
    hourly_slug(month, day, hour, slug_prefix)
}

/// The slug of the 15-minute market that starts at a Unix time.
pub open spec fn slug_15m_of(period_start_unix: u64, slug_prefix: Seq<char>) -> Seq<char> {
    slug_prefix + "-updown-15m-"@ + text::decimal_digits(period_start_unix as nat)
}

/// The slug of the 15-minute market that starts at a Unix time.
pub fn slug_15m(period_start_unix: u64, slug_prefix: &str) -> (slug: String)
    ensures
        slug@ == slug_15m_of(period_start_unix, slug_prefix@),
{
    let mut slug: String = slug_prefix.to_owned();
    slug.append("-updown-15m-");
    slug.append(decimal_text(period_start_unix as u128).as_str());
    slug
}

/// The 15-minute markets of one asset all have different slugs.
pub proof fn slugs_15m_are_distinct(first: u64, second: u64, slug_prefix: Seq<char>)
    requires
        slug_15m_of(first, slug_prefix) == slug_15m_of(second, slug_prefix),
    ensures
        first == second,
{
    let lead = slug_prefix + "-updown-15m-"@;
    let one = slug_15m_of(first, slug_prefix);
    assert(text::decimal_digits(first as nat) =~= one.skip(lead.len() as int));
    assert(text::decimal_digits(second as nat) =~= one.skip(lead.len() as int));
    crate::market_key::lemma_digits_injective(first as nat, second as nat);
}

/// The 24 hours of a day read differently on the clock face: no two share both the number
/// and the half of the day.
pub proof fn hours_read_differently(first: int, second: int)
    requires
        0 <= first < 24,
        0 <= second < 24,
        hour_on_face(first) == hour_on_face(second),
        half_of_day(first) == half_of_day(second),
    ensures
        first == second,
        1 <= hour_on_face(first) <= 12,
{
    reveal_strlit("am");
    reveal_strlit("pm");
    assert("am"@[0] != "pm"@[0]);
}

proof fn lemma_months(first: int, second: int)
    requires
        1 <= first <= 12,
        1 <= second <= 12,
    ensures
        month_name_of(first) == month_name_of(second) ==> first == second,
        !month_name_of(first).contains('-'),
{
    reveal_strlit("january");
    reveal_strlit("february");
    reveal_strlit("march");
    reveal_strlit("april");
    reveal_strlit("may");
    reveal_strlit("june");
    reveal_strlit("july");
    reveal_strlit("august");
    reveal_strlit("september");
    reveal_strlit("october");
    reveal_strlit("november");
    reveal_strlit("december");
    let (left, right) = (month_name_of(first), month_name_of(second));
    if left == right {
        assert(left[0] == right[0] && left[1] == right[1] && left[2] == right[2]);
    }
}

/// Where two texts go on behind their first dash, they agree before and behind it.
proof fn lemma_split_at_dash(
    first: Seq<char>,
    first_rest: Seq<char>,
    second: Seq<char>,
    second_rest: Seq<char>,
)
    requires
        !first.contains('-'),
        !second.contains('-'),
        first + "-"@ + first_rest == second + "-"@ + second_rest,
    ensures
        first == second,
        first_rest == second_rest,
{
    reveal_strlit("-");
    let whole = first + "-"@ + first_rest;
    assert(whole[first.len() as int] == '-');
    assert((second + "-"@ + second_rest)[second.len() as int] == '-');
    if first.len() < second.len() {
        assert(second[first.len() as int] == '-');
    } else if second.len() < first.len() {
        assert(first[second.len() as int] == '-');
    }
    assert(first =~= whole.take(first.len() as int));
    assert(second =~= whole.take(first.len() as int));
    assert(first_rest =~= whole.skip(first.len() as int + 1));
    assert(second_rest =~= whole.skip(first.len() as int + 1));
}

/// The hourly markets of one asset have different slugs, as far as month, day or hour differ.
pub proof fn hourly_slugs_are_distinct(
    first: (int, nat, int),
    second: (int, nat, int),
    slug_prefix: Seq<char>,
)
    requires
        1 <= first.0 <= 12,
        1 <= second.0 <= 12,
        0 <= first.2 < 24,
        0 <= second.2 < 24,
        hourly_slug_of(first.0, first.1, first.2, slug_prefix) == hourly_slug_of(
            second.0,
            second.1,
            second.2,
            slug_prefix,
        ),
    ensures
        first == second,
{
    let lead = asset_name_of(slug_prefix) + "-up-or-down-"@;
    let (days, other_days) = (text::decimal_digits(first.1), text::decimal_digits(second.1));
    let face = text::decimal_digits(hour_on_face(first.2) as nat);
    let other_face = text::decimal_digits(hour_on_face(second.2) as nat);
    let clock = face + half_of_day(first.2) + "-et"@;
    let other_clock = other_face + half_of_day(second.2) + "-et"@;
    let from_day = days + "-"@ + clock;
    let other_from_day = other_days + "-"@ + other_clock;
    let from_month = month_name_of(first.0) + "-"@ + from_day;
    let other_from_month = month_name_of(second.0) + "-"@ + other_from_day;
    let slug = hourly_slug_of(first.0, first.1, first.2, slug_prefix);
    let other_slug = hourly_slug_of(second.0, second.1, second.2, slug_prefix);
    assert(slug =~= lead + from_month);
    assert(other_slug =~= lead + other_from_month);
    assert(from_month =~= slug.skip(lead.len() as int));
    assert(other_from_month =~= slug.skip(lead.len() as int));
    lemma_months(first.0, second.0);
    lemma_months(second.0, first.0);
    lemma_split_at_dash(
        month_name_of(first.0),
        from_day,
        month_name_of(second.0),
        other_from_day,
    );
    crate::market_key::lemma_digit_chars(first.1);
    crate::market_key::lemma_digit_chars(second.1);
    lemma_split_at_dash(days, clock, other_days, other_clock);
    crate::market_key::lemma_digits_injective(first.1, second.1);
    crate::market_key::lemma_digit_chars(hour_on_face(first.2) as nat);
    crate::market_key::lemma_digit_chars(hour_on_face(second.2) as nat);
    reveal_strlit("am");
    reveal_strlit("pm");
    let half = half_of_day(first.2);
    let other_half = half_of_day(second.2);
    assert(clock[face.len() as int] == half[0]);
    assert(other_clock[other_face.len() as int] == other_half[0]);
    if face.len() < other_face.len() {
        assert(clock[face.len() as int] == other_face[face.len() as int]);
    } else if other_face.len() < face.len() {
        assert(clock[other_face.len() as int] == face[other_face.len() as int]);
    }
    assert(face =~= clock.take(face.len() as int));
    assert(other_face =~= clock.take(face.len() as int));
    crate::market_key::lemma_digits_injective(
        hour_on_face(first.2) as nat,
        hour_on_face(second.2) as nat,
    );
    hours_read_differently(first.2, second.2);
}

/// The slug of a 15-minute market begins with the prefix of its asset and "-updown-15m-", and
/// what follows reads as the start of its period.
pub proof fn slugs_15m_name_asset_and_start(start: u64, slug_prefix: Seq<char>)
    ensures
        ({
            let slug = slug_15m_of(start, slug_prefix);
            let lead = slug_prefix + "-updown-15m-"@;
            &&& lead.is_prefix_of(slug)
            &&& text::number_of(slug.skip(lead.len() as int)) == start
        }),
{
    let slug = slug_15m_of(start, slug_prefix);
    let lead = slug_prefix + "-updown-15m-"@;
    assert(lead =~= slug.subrange(0, lead.len() as int));
    assert(slug.skip(lead.len() as int) =~= text::decimal_digits(start as nat));
    text::decimal_digits_read_back(start as nat);
}

/// The slugs of two 15-minute markets are the same only where asset and period are the same.
pub proof fn slugs_15m_tell_assets_apart(
    first: u64,
    first_prefix: Seq<char>,
    second: u64,
    second_prefix: Seq<char>,
)
    requires
        slug_15m_of(first, first_prefix) == slug_15m_of(second, second_prefix),
    ensures
        first == second,
        first_prefix == second_prefix,
{
    reveal_strlit("-updown-15m-");
    let slug = slug_15m_of(first, first_prefix);
    let other = slug_15m_of(second, second_prefix);
    let (digits, other_digits) = (
        text::decimal_digits(first as nat),
        text::decimal_digits(second as nat),
    );
    text::decimal_digits_read_back(first as nat);
    text::decimal_digits_read_back(second as nat);
    let (at, other_at) = (slug.len() - digits.len(), other.len() - other_digits.len());
    assert(slug[at - 1] == '-');
    assert(other[other_at - 1] == '-');
    if digits.len() < other_digits.len() {
        assert(other[at - 1] == other_digits[at - 1 - other_at]);
    } else if other_digits.len() < digits.len() {
        assert(slug[other_at - 1] == digits[other_at - 1 - at]);
    }
    assert(digits =~= slug.skip(at));
    assert(other_digits =~= slug.skip(at));
    assert(first_prefix =~= slug.take(at - 12));
    assert(second_prefix =~= slug.take(at - 12));
}

/// The slug of an hourly market begins with the name of its asset, "bitcoin" and "ethereum" in
/// full, and "-up-or-down-".
pub proof fn hourly_slugs_name_their_asset(month: int, day: nat, hour: int, slug_prefix: Seq<char>)
    ensures
        ({
            let slug = hourly_slug_of(month, day, hour, slug_prefix);
            &&& slug_prefix == "btc"@ ==> ("bitcoin"@ + "-up-or-down-"@).is_prefix_of(slug)
            &&& slug_prefix == "eth"@ ==> ("ethereum"@ + "-up-or-down-"@).is_prefix_of(slug)
            &&& slug_prefix != "btc"@ && slug_prefix != "eth"@ ==> (slug_prefix
                + "-up-or-down-"@).is_prefix_of(slug)
            &&& slug.len() >= 3 && slug.skip(slug.len() - 3) == "-et"@
        }),
{
    reveal_strlit("btc");
    reveal_strlit("eth");
    reveal_strlit("-et");
    assert("btc"@[0] != "eth"@[0]);
    let slug = hourly_slug_of(month, day, hour, slug_prefix);
    let lead = asset_name_of(slug_prefix) + "-up-or-down-"@;
    assert(lead =~= slug.subrange(0, lead.len() as int));
    assert(slug.skip(slug.len() - 3) =~= "-et"@);
}

/// `slug_prefix` is that of one of the supported assets.
pub open spec fn is_supported(slug_prefix: Seq<char>) -> bool {
    slug_prefix == "btc"@ || slug_prefix == "eth"@ || slug_prefix == "sol"@ || slug_prefix
        == "xrp"@
}

proof fn lemma_asset_names(first: Seq<char>, second: Seq<char>)
    requires
        is_supported(first),
        is_supported(second),
    ensures
        !asset_name_of(first).contains('-'),
        asset_name_of(first) == asset_name_of(second) ==> first == second,
{
    reveal_strlit("btc");
    reveal_strlit("eth");
    reveal_strlit("sol");
    reveal_strlit("xrp");
    reveal_strlit("bitcoin");
    reveal_strlit("ethereum");
    let (left, right) = (asset_name_of(first), asset_name_of(second));
    assert("btc"@[0] == 'b' && "eth"@[0] == 'e' && "sol"@[0] == 's' && "xrp"@[0] == 'x');
    if left == right {
        assert(left[0] == right[0]);
    }
}

/// The slugs of hourly markets of two supported assets are the same only where the asset, the
/// month, the day and the hour are the same.
pub proof fn hourly_slugs_tell_assets_apart(
    first: (int, nat, int),
    first_prefix: Seq<char>,
    second: (int, nat, int),
    second_prefix: Seq<char>,
)
    requires
        is_supported(first_prefix),
        is_supported(second_prefix),
        1 <= first.0 <= 12,
        1 <= second.0 <= 12,
        0 <= first.2 < 24,
        0 <= second.2 < 24,
        hourly_slug_of(first.0, first.1, first.2, first_prefix) == hourly_slug_of(
            second.0,
            second.1,
            second.2,
            second_prefix,
        ),
    ensures
        first_prefix == second_prefix,
        first == second,
{
    reveal_strlit("-up-or-down-");
    reveal_strlit("-");
    let slug = hourly_slug_of(first.0, first.1, first.2, first_prefix);
    let other = hourly_slug_of(second.0, second.1, second.2, second_prefix);
    let (name, other_name) = (asset_name_of(first_prefix), asset_name_of(second_prefix));
    let rest = slug.skip(name.len() as int + 1);
    let other_rest = other.skip(other_name.len() as int + 1);
    lemma_asset_names(first_prefix, second_prefix);
    lemma_asset_names(second_prefix, first_prefix);
    assert(slug =~= name + "-"@ + rest);
    assert(other =~= other_name + "-"@ + other_rest);
    lemma_split_at_dash(name, rest, other_name, other_rest);
    hourly_slugs_are_distinct(first, second, first_prefix);
}

/// The clock face shows the hour on a dial of twelve; the half of the day is "am" before noon
/// and "pm" from noon on.
pub proof fn the_clock_face_shows_the_hour(hour: int)
    requires
        0 <= hour < 24,
    ensures
        1 <= hour_on_face(hour) <= 12,
        hour_on_face(hour) % 12 == hour % 12,
        half_of_day(hour) == "am"@ <==> hour < 12,
        half_of_day(hour) == "pm"@ <==> hour >= 12,
{
    reveal_strlit("am");
    reveal_strlit("pm");
    assert("am"@[0] != "pm"@[0]);
}

/// The months have their English names, in the order of the year.
pub proof fn months_have_their_names(month: int)
    requires
        1 <= month <= 12,
    ensures
        month_name_of(month) == seq![
            "january"@,
            "february"@,
            "march"@,
            "april"@,
            "may"@,
            "june"@,
            "july"@,
            "august"@,
            "september"@,
            "october"@,
            "november"@,
            "december"@,
        ][month - 1],
{
}

} // verus!
