//! Timeframes, and the change from one trading period to the next.

use crate::discovery;
use crate::discovery::round_to_period;
use crate::text;
use crate::text::{lowercase, same_ignoring_ascii_case, same_text, trimmed};
use vstd::prelude::*;

verus! {

/// Minutes and seconds of a market of one hour, or of 15 minutes.
pub open spec fn length_of(hourly: bool) -> (u64, u64) {
    if hourly {
        (60, 3600)
    } else {
        (15, 900)
    }
}

/// Minutes and seconds of the markets of a timeframe that is written in lower case and
/// without white space around it: "1h" stands for an hour, anything else for 15 minutes.
pub fn period_length(lower: &str) -> (length: (u64, u64))
    ensures
        length == length_of(lower@ == "1h"@),
{
    if same_text(lower, "1h") {
        (60, 3600)
    } else {
        (15, 900)
    }
}

/// Minutes and seconds of the markets of a configured timeframe.
pub fn timeframe_length(timeframe: &str) -> (length: (u64, u64))
    ensures
        length == length_of(text::unicode_lowercase(text::trimmed_of(timeframe@)) == "1h"@),
        vstd::utf8::is_ascii_chars(text::trimmed_of(timeframe@)) ==> length == length_of(
            text::ascii_lowered(text::trimmed_of(timeframe@)) == "1h"@,
        ),
{
    period_length(lowercase(trimmed(timeframe)).as_str())
}

/// Minutes of the market that is looked for when a period is over.
pub fn renewal_minutes(timeframe: &str) -> (minutes: u64)
    ensures
        minutes == if text::ascii_lowered(text::trimmed_of(timeframe@)) == text::ascii_lowered(
            "1h"@,
        ) {
            60u64
        } else {
            15u64
        },
{
    if same_ignoring_ascii_case(trimmed(timeframe), "1h") {
        60
    } else {
        15
    }
}

/// How long to wait for the period after the one that starts at `market_timestamp`: not at
/// all where it has begun.
pub fn secs_to_next_period(market_timestamp: u64, period_secs: u64, now: u64) -> (secs: u64)
    requires
        market_timestamp + period_secs <= u64::MAX,
    ensures
        secs == if market_timestamp + period_secs > now {
            market_timestamp + period_secs - now
        } else {
            0
        },
{
    let next: u64 = market_timestamp + period_secs;
    if next > now {
        next - now
    } else {
        0
    }
}

/// Remembers which period has been dealt with.
#[derive(Clone, Copy, Debug)]
pub struct PeriodWatch {
    pub last_processed: Option<u64>,
}

impl PeriodWatch {
    /// The start of the period that `now` lies in, if it has not been dealt with.
    pub open spec fn due(self, now: u64, period_secs: u64) -> Option<u64> {
        let start = discovery::period_start(now, period_secs);
        if self.last_processed == Some(start) {
            None
        } else {
            Some(start)
        }
    }

    /// No period has been dealt with.
    pub fn new() -> (watch: PeriodWatch)
        ensures
            watch.last_processed is None,
    {
        PeriodWatch { last_processed: None }
    }

    /// The start of the period that `now` lies in, if it has not been dealt with; it counts
    /// as dealt with from here on.
    pub fn wake(&mut self, now: u64, period_secs: u64) -> (period: Option<u64>)
        requires
            period_secs > 0,
        ensures
            final(self).last_processed == Some(discovery::period_start(now, period_secs)),
            period == old(self).due(now, period_secs),
    {
        let current: u64 = round_to_period(now, period_secs);
        if let Some(last) = self.last_processed {
            if last == current {
                return None;
            }
        }
        self.last_processed = Some(current);
        Some(current)
    }
}

/// However often it is woken within one period, a watch reports the period once; in another
/// period it reports again.
pub proof fn periods_are_reported_once(watch: PeriodWatch, now: u64, later: u64, period_secs: u64)
    requires
        period_secs > 0,
    ensures
        ({
            let start = discovery::period_start(now, period_secs);
            let after = PeriodWatch { last_processed: Some(start) };
            after.due(later, period_secs) is None <==> start <= later < start + period_secs
        }),
{
    discovery::periods_hold_their_times(now, later, period_secs);
}

/// The minutes and the seconds of a timeframe are one length, an hour or a quarter of it.
pub proof fn minutes_and_seconds_agree(hourly: bool)
    ensures
        length_of(hourly).1 == 60 * length_of(hourly).0,
        length_of(hourly).0 == if hourly {
            60u64
        } else {
            15u64
        },
        length_of(hourly).1 == discovery::period_secs_of(hourly),
{
}

} // verus!
