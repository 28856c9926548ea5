//! The calendar model of the evaluation instant, and the window arithmetic
//! for calendar-aligned ("this ...") usage conditions.
//!
//! A [`LocalTime`] carries, as plain numbers, exactly what the evaluator
//! reads of the local calendar: the epoch timestamp and the position of the
//! instant within its minute, hour, day, month and year. The current instant
//! is obtained from the system clock through one trusted call; everything
//! computed from it is verified.
use vstd::prelude::*;
use chrono::Datelike;
use chrono::Timelike;
use crate::expressions::parser::ConditionWeekday;
use crate::expressions::parser::TimeUnit;

verus! {

/// An instant, situated in the local calendar.
#[derive(Clone, Copy, Debug, PartialEq, Eq, Structural)]
pub struct LocalTime {
    /// Seconds since the Unix epoch.
    pub timestamp: u64,
    /// Seconds into the current minute (`0..=59`).
    pub second: u64,
    /// Minutes into the current hour (`0..=59`).
    pub minute: u64,
    /// Hours into the current day (`0..=23`).
    pub hour: u64,
    /// Day of the month (`1..=31`).
    pub day: u64,
    /// Day of the year (`1..=366`).
    pub ordinal: u64,
    /// Day of the week.
    pub weekday: ConditionWeekday,
}

impl LocalTime {
    /// Seconds since the start of the current day.
    pub open spec fn spec_day_offset(self) -> int {
        3600 * self.hour + 60 * self.minute + self.second
    }

    /// Seconds since the start of the current month.
    pub open spec fn spec_month_offset(self) -> int {
        86400 * (self.day - 1) + self.spec_day_offset()
    }

    /// Seconds since the start of the current year.
    pub open spec fn spec_year_offset(self) -> int {
        86400 * (self.ordinal - 1) + self.spec_day_offset()
    }

    /// Field ranges of the calendar, and a timestamp late enough that the
    /// start of every containing period is itself representable.
    pub open spec fn wf(self) -> bool {
        &&& self.second < 60
        &&& self.minute < 60
        &&& self.hour < 24
        &&& 1 <= self.day <= 31
        &&& 1 <= self.ordinal <= 366
        &&& self.day <= self.ordinal
        &&& self.spec_year_offset() <= self.timestamp
    }
}

/// The timestamp of the start of the calendar period of `unit` that
/// contains `t`: all calendar fields below `unit` are zeroed.
///
/// `Week` is truncated exactly like `Day`, to the start of the current day
/// and not of the current week; the engine has always behaved so, and the
/// behaviour is kept deliberately.
pub open spec fn spec_window_start(t: LocalTime, unit: TimeUnit) -> int {
    match unit {
        TimeUnit::Second => t.timestamp as int,
        TimeUnit::Minute => t.timestamp - t.second,
        TimeUnit::Hour => t.timestamp - 60 * t.minute - t.second,
        TimeUnit::Day => t.timestamp - t.spec_day_offset(),
        TimeUnit::Week => t.timestamp - t.spec_day_offset(),
        TimeUnit::Month => t.timestamp - t.spec_month_offset(),
        TimeUnit::Year => t.timestamp - t.spec_year_offset(),
    }
}

/// The lower bound of a sliding window of length `window` ending at
/// `now_ts`, clamped to the epoch rather than underflowing.
pub open spec fn spec_sliding_start(now_ts: u64, window: u64) -> int {
    if window > now_ts {
        0
    } else {
        now_ts - window
    }
}

/// Start of the calendar period of `unit` containing `t`.
pub fn window_start(t: &LocalTime, unit: TimeUnit) -> (start: u64)
    requires
        t.wf(),
    ensures
        start as int == spec_window_start(*t, unit),
{
    match unit {
        TimeUnit::Second => t.timestamp,
        TimeUnit::Minute => t.timestamp - t.second,
        TimeUnit::Hour => t.timestamp - (60 * t.minute + t.second),
        TimeUnit::Day => t.timestamp - (3600 * t.hour + 60 * t.minute + t.second),
        TimeUnit::Week => t.timestamp - (3600 * t.hour + 60 * t.minute + t.second),
        TimeUnit::Month => t.timestamp - (86400 * (t.day - 1) + 3600 * t.hour + 60 * t.minute
            + t.second),
        TimeUnit::Year => t.timestamp - (86400 * (t.ordinal - 1) + 3600 * t.hour + 60 * t.minute
            + t.second),
    }
}

/// Lower bound of the sliding window of length `window` ending at `now_ts`,
/// saturating at the epoch.
pub fn sliding_window_start(now_ts: u64, window: u64) -> (start: u64)
    ensures
        start as int == spec_sliding_start(now_ts, window),
{
    if window > now_ts {
        0
    } else {
        now_ts - window
    }
}

pub open spec fn spec_weekday_of_num(n: u32) -> ConditionWeekday {
    if n == 0 {
        ConditionWeekday::Mon
    } else if n == 1 {
        ConditionWeekday::Tue
    } else if n == 2 {
        ConditionWeekday::Wed
    } else if n == 3 {
        ConditionWeekday::Thu
    } else if n == 4 {
        ConditionWeekday::Fri
    } else if n == 5 {
        ConditionWeekday::Sat
    } else {
        ConditionWeekday::Sun
    }
}

/// Whether the raw clock readings describe a representable instant: the
/// fields lie in their calendar ranges and the timestamp is late enough
/// that the starts of the containing periods do not precede the epoch.
pub open spec fn spec_parts_valid(
    ts: i64,
    second: u32,
    minute: u32,
    hour: u32,
    day: u32,
    ordinal: u32,
    weekday_num: u32,
) -> bool {
    &&& 0 <= ts
    &&& second < 60
    &&& minute < 60
    &&& hour < 24
    &&& 1 <= day <= 31
    &&& 1 <= ordinal <= 366
    &&& day <= ordinal
    &&& weekday_num < 7
    &&& 86400 * (ordinal - 1) + 3600 * hour + 60 * minute + second <= ts
}

/// Build a well-formed [`LocalTime`] from raw clock readings, rejecting
/// readings outside the representable calendar.
pub fn local_time_from_parts(
    ts: i64,
    second: u32,
    minute: u32,
    hour: u32,
    day: u32,
    ordinal: u32,
    weekday_num: u32,
) -> (r: Option<LocalTime>)
    ensures
        (r is Some) == spec_parts_valid(ts, second, minute, hour, day, ordinal, weekday_num),
        r matches Some(t) ==> t.wf() && t.timestamp == ts && t.second == second && t.minute
            == minute && t.hour == hour && t.day == day && t.ordinal == ordinal && t.weekday
            == spec_weekday_of_num(weekday_num),
{
    if ts < 0 || second >= 60 || minute >= 60 || hour >= 24 {
        return None;
    }
    if day < 1 || day > 31 || ordinal < 1 || ordinal > 366 || day > ordinal || weekday_num >= 7 {
        return None;
    }
    let offset: u64 = 86400 * (ordinal as u64 - 1) + 3600 * hour as u64 + 60 * minute as u64
        + second as u64;
    if offset > ts as u64 {
        return None;
    }
    let weekday = if weekday_num == 0 {
        ConditionWeekday::Mon
    } else if weekday_num == 1 {
        ConditionWeekday::Tue
    } else if weekday_num == 2 {
        ConditionWeekday::Wed
    } else if weekday_num == 3 {
        ConditionWeekday::Thu
    } else if weekday_num == 4 {
        ConditionWeekday::Fri
    } else if weekday_num == 5 {
        ConditionWeekday::Sat
    } else {
        ConditionWeekday::Sun
    };
    Some(
        LocalTime {
            timestamp: ts as u64,
            second: second as u64,
            minute: minute as u64,
            hour: hour as u64,
            day: day as u64,
            ordinal: ordinal as u64,
            weekday,
        },
    )
}

/// Relies on std's `SystemTime`: `now`, read against `UNIX_EPOCH` with
/// `duration_since` and turned into whole seconds with
/// `Duration::as_secs`. Yields nothing when the system clock stands
/// before the epoch; nothing can be promised of the reading itself.
#[verifier::external_body]
fn epoch_seconds_now() -> Option<u64> {
    match std::time::SystemTime::now().duration_since(std::time::UNIX_EPOCH) {
        Ok(d) => Some(d.as_secs()),
        Err(_) => None,
    }
}

/// Relies on chrono to situate an epoch second in the local calendar:
/// `TimeZone::timestamp_opt` on `Local`, which answers nothing for a
/// timestamp it cannot place, and on its result the `Timelike` accessors
/// `second` (0..=59), `minute` (0..=59), `hour` (0..=23), the `Datelike`
/// accessors `day` (1..=31) and `ordinal` (1..=366), and
/// `Weekday::num_days_from_monday` (0..=6). The contract repeats only the
/// ranges chrono documents for these accessors.
#[verifier::external_body]
fn local_fields_of(ts: i64) -> (r: Option<(u32, u32, u32, u32, u32, u32)>)
    ensures
        r matches Some(p) ==> p.0 < 60 && p.1 < 60 && p.2 < 24 && 1 <= p.3 <= 31 && 1 <= p.4
            <= 366 && p.5 < 7,
{
    match chrono::TimeZone::timestamp_opt(&chrono::Local, ts, 0) {
        chrono::LocalResult::Single(t) => Some(
            (
                t.second(),
                t.minute(),
                t.hour(),
                t.day(),
                t.ordinal(),
                t.weekday().num_days_from_monday(),
            ),
        ),
        _ => None,
    }
}

/// The current instant of the local calendar, if there is one to
/// represent: nothing when the system clock stands before the epoch, when
/// the calendar cannot place the instant, or when the starts of its
/// containing calendar periods would precede the epoch.
pub fn local_time_now() -> (r: Option<LocalTime>)
    ensures
        r matches Some(t) ==> t.wf(),
{
    let secs = match epoch_seconds_now() {
        None => {
            return None;
        }
        Some(secs) => secs,
    };
    if secs > i64::MAX as u64 {
        return None;
    }
    match local_fields_of(secs as i64) {
        None => None,
        Some((second, minute, hour, day, ordinal, weekday_num)) => local_time_from_parts(
            secs as i64,
            second,
            minute,
            hour,
            day,
            ordinal,
            weekday_num,
        ),
    }
}

} // verus!
