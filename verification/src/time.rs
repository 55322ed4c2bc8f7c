use vstd::prelude::*;
use vstd::string::StringExecFns;
use chrono::{Datelike, Local, TimeZone};

verus! {

/// A point in time: seconds since the Unix epoch and the nanoseconds into that second.
#[derive(Clone, Copy, Debug, PartialEq, Eq, Structural)]
pub struct Timestamp {
    pub seconds: i64,
    pub nanos: u32,
}

impl Timestamp {
    /// Whether this point in time lies before `other`.
    pub open spec fn before(self, other: Timestamp) -> bool {
        self.seconds < other.seconds || (self.seconds == other.seconds && self.nanos < other.nanos)
    }

    /// Tells whether this point in time lies before `other`.
    pub fn is_before(&self, other: &Timestamp) -> (earlier: bool)
        ensures
            earlier == self.before(*other),
    {
        self.seconds < other.seconds || (self.seconds == other.seconds && self.nanos < other.nanos)
    }
}

/// What the local calendar and clock show at a point in time.
#[derive(Clone, Debug, PartialEq, Eq)]
pub struct LocalReading {
    /// The day, counted from the first day of the year 1.
    pub day_number: i32,
    pub year: i32,
    /// Hour and minute, as in `09:05`.
    pub clock: String,
    /// The short name of the day of the week.
    pub weekday: String,
    /// Month and day, as in `03-28`.
    pub month_day: String,
    /// Year, month and day, as in `2024-03-28`.
    pub date: String,
}

/// `Local::now`: the time on this machine's clock.
#[verifier::external_body]
pub(crate) fn current_time() -> Timestamp {
    let now = Local::now();
    Timestamp { seconds: now.timestamp(), nanos: now.timestamp_subsec_nanos() }
}

/// `TimeZone::timestamp_opt` on `Local`, read through `Datelike` and
/// `DateTime::format`: what the calendar of this machine's time zone shows at a point
/// in time, or nothing where the point lies outside the calendar.
#[verifier::external_body]
pub(crate) fn local_reading(at: &Timestamp) -> Option<LocalReading> {
    Local.timestamp_opt(at.seconds, at.nanos).single().map(
        |local|
            LocalReading {
                day_number: local.num_days_from_ce(),
                year: local.year(),
                clock: local.format("%H:%M").to_string(),
                weekday: local.format("%a").to_string(),
                month_day: local.format("%m-%d").to_string(),
                date: local.format("%Y-%m-%d").to_string(),
            },
    )
}

/// The whole seconds from one point in time to another; a part of a second does not
/// count, and the number is negative where `to` lies before `from`.
pub open spec fn elapsed_seconds(from: Timestamp, to: Timestamp) -> int {
    let nanos = (to.seconds - from.seconds) * 1_000_000_000 + (to.nanos - from.nanos);
    if nanos >= 0 {
        nanos / 1_000_000_000
    } else {
        -((-nanos) / 1_000_000_000)
    }
}

/// Returns the whole seconds from one point in time to another.
pub fn seconds_between(from: &Timestamp, to: &Timestamp) -> (elapsed: i128)
    ensures
        elapsed == elapsed_seconds(*from, *to),
{
    let seconds: i128 = to.seconds as i128 - from.seconds as i128;
    let nanos: i128 = seconds * 1_000_000_000 + (to.nanos as i128 - from.nanos as i128);
    if nanos >= 0 {
        nanos / 1_000_000_000
    } else {
        -((-nanos) / 1_000_000_000)
    }
}

/// The ways of writing a point in time relative to now.
#[derive(Clone, Copy, Debug, PartialEq, Eq, Structural)]
pub enum DateStyle {
    JustNow,
    MinutesAgo(u8),
    Today,
    Yesterday,
    WeekDay,
    ThisYear,
    Earlier,
}

/// The way of writing a point in time that lies `elapsed` whole seconds back and
/// `days` calendar days before today: under a minute "just now", under an hour the
/// minutes, under a day and on the same date the time of day, one date back
/// "yesterday", under a week the day of the week, in the same year month and day,
/// else the full date.
pub open spec fn date_style(elapsed: int, days: int, same_year: bool) -> DateStyle {
    if elapsed < 60 {
        DateStyle::JustNow
    } else if elapsed / 60 < 60 {
        DateStyle::MinutesAgo((elapsed / 60) as u8)
    } else if elapsed / 3600 < 24 && days == 0 {
        DateStyle::Today
    } else if days == 1 {
        DateStyle::Yesterday
    } else if days < 7 {
        DateStyle::WeekDay
    } else if same_year {
        DateStyle::ThisYear
    } else {
        DateStyle::Earlier
    }
}

/// Chooses the way of writing a point in time.
pub fn choose_date_style(elapsed: i128, days: i64, same_year: bool) -> (style: DateStyle)
    ensures
        style == date_style(elapsed as int, days as int, same_year),
{
    if elapsed < 60 {
        DateStyle::JustNow
    } else if elapsed / 60 < 60 {
        let minutes: i128 = elapsed / 60;
        DateStyle::MinutesAgo(minutes as u8)
    } else if elapsed / 3600 < 24 && days == 0 {
        DateStyle::Today
    } else if days == 1 {
        DateStyle::Yesterday
    } else if days < 7 {
        DateStyle::WeekDay
    } else if same_year {
        DateStyle::ThisYear
    } else {
        DateStyle::Earlier
    }
}

/// The character of a decimal digit.
pub open spec fn digit(d: int) -> char {
    if d == 0 {
        '0'
    } else if d == 1 {
        '1'
    } else if d == 2 {
        '2'
    } else if d == 3 {
        '3'
    } else if d == 4 {
        '4'
    } else if d == 5 {
        '5'
    } else if d == 6 {
        '6'
    } else if d == 7 {
        '7'
    } else if d == 8 {
        '8'
    } else {
        '9'
    }
}

/// A number in decimal digits, without leading zeros.
pub open spec fn decimal(n: nat) -> Seq<char>
    decreases n,
{
    if n < 10 {
        seq![digit(n as int)]
    } else {
        decimal(n / 10).push(digit((n % 10) as int))
    }
}

/// Returns the character of a decimal digit.
fn digit_char(d: u8) -> (c: char)
    requires
        d < 10,
    ensures
        c == digit(d as int),
{
    if d == 0 {
        '0'
    } else if d == 1 {
        '1'
    } else if d == 2 {
        '2'
    } else if d == 3 {
        '3'
    } else if d == 4 {
        '4'
    } else if d == 5 {
        '5'
    } else if d == 6 {
        '6'
    } else if d == 7 {
        '7'
    } else if d == 8 {
        '8'
    } else {
        '9'
    }
}

/// Writes a number in decimal digits.
pub fn decimal_text(n: usize) -> (text: String)
    ensures
        text@ == decimal(n as nat),
    decreases n,
{
    if n < 10 {
        let mut text = String::new();
        text.push(digit_char(n as u8));
        text
    } else {
        let mut text = decimal_text(n / 10);
        text.push(digit_char((n % 10) as u8));
        text
    }
}

/// A point in time written in the given way; the pieces come from the local calendar.
pub open spec fn date_text(
    style: DateStyle,
    clock: Seq<char>,
    weekday: Seq<char>,
    month_day: Seq<char>,
    date: Seq<char>,
) -> Seq<char> {
    match style {
        DateStyle::JustNow => "刚刚"@,
        DateStyle::MinutesAgo(minutes) => decimal(minutes as nat) + "分钟前"@,
        DateStyle::Today => "今天 "@ + clock,
        DateStyle::Yesterday => "昨天 "@ + clock,
        DateStyle::WeekDay => weekday + " "@ + clock,
        DateStyle::ThisYear => month_day + " "@ + clock,
        DateStyle::Earlier => date + " "@ + clock,
    }
}

/// Writes a point in time in the given way.
pub fn describe_date(
    style: DateStyle,
    clock: &str,
    weekday: &str,
    month_day: &str,
    date: &str,
) -> (text: String)
    ensures
        text@ == date_text(style, clock@, weekday@, month_day@, date@),
{
    match style {
        DateStyle::JustNow => "刚刚".to_owned(),
        DateStyle::MinutesAgo(minutes) => {
            let mut text = decimal_text(minutes as usize);
            text.append("分钟前");
            text
        },
        DateStyle::Today => {
            let mut text = "今天 ".to_owned();
            text.append(clock);
            text
        },
        DateStyle::Yesterday => {
            let mut text = "昨天 ".to_owned();
            text.append(clock);
            text
        },
        DateStyle::WeekDay => {
            let mut text = weekday.to_owned();
            text.append(" ");
            text.append(clock);
            text
        },
        DateStyle::ThisYear => {
            let mut text = month_day.to_owned();
            text.append(" ");
            text.append(clock);
            text
        },
        DateStyle::Earlier => {
            let mut text = date.to_owned();
            text.append(" ");
            text.append(clock);
            text
        },
    }
}

/// The text for a point in time that lies `elapsed` whole seconds back, given what the
/// local calendar shows then and now.
pub open spec fn calendar_text(elapsed: int, then: LocalReading, today: LocalReading) -> Seq<char> {
    date_text(
        date_style(elapsed, today.day_number - then.day_number, then.year == today.year),
        then.clock@,
        then.weekday@,
        then.month_day@,
        then.date@,
    )
}

/// Writes a point in time relative to now from what the local calendar shows at
/// both.
pub fn format_with_calendar(elapsed: i128, then: &LocalReading, today: &LocalReading) -> (text:
    String)
    ensures
        text@ == calendar_text(elapsed as int, *then, *today),
{
    let days: i64 = today.day_number as i64 - then.day_number as i64;
    let style = choose_date_style(elapsed, days, then.year == today.year);
    describe_date(
        style,
        then.clock.as_str(),
        then.weekday.as_str(),
        then.month_day.as_str(),
        then.date.as_str(),
    )
}

/// Whether `text` is a way of writing the point in time `dt` as seen from `now`:
/// under a minute back "just now", under an hour the minutes, and from an hour on
/// either a text made of what a calendar shows at the two points, or nothing.
pub open spec fn is_date_text(dt: Timestamp, now: Timestamp, text: Seq<char>) -> bool {
    let elapsed = elapsed_seconds(dt, now);
    if elapsed < 60 {
        text == "刚刚"@
    } else if elapsed < 3600 {
        text == decimal((elapsed / 60) as nat) + "分钟前"@
    } else {
        text.len() == 0 || exists|then: LocalReading, today: LocalReading|
            text == #[trigger] calendar_text(elapsed, then, today)
    }
}

/// Writes the point in time `dt` as seen from `now`. Under an hour back the text
/// needs no calendar. From an hour on it is made of what this machine's calendar
/// shows; where the calendar cannot show one of the two points, the text is empty.
pub fn format_date_time_at(dt: &Timestamp, now: &Timestamp) -> (text: String)
    ensures
        is_date_text(*dt, *now, text@),
{
    let elapsed = seconds_between(dt, now);
    if elapsed < 3600 {
        let style = choose_date_style(elapsed, 0, true);
        return describe_date(style, "", "", "", "");
    }
    match local_reading(dt) {
        Some(then) => match local_reading(now) {
            Some(today) => format_with_calendar(elapsed, &then, &today),
            None => String::new(),
        },
        None => String::new(),
    }
}

} // verus!
