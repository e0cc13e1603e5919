//! Durations in words: a count of microseconds as years, months and days, or
//! as whatever smaller units it takes.

use vstd::prelude::*;
use crate::enums::{DurationFlagSet, GduFormatDurationFlags};
use crate::text::{
    arg_replace, args_replaced, chars_of, replace_all, replaced_all, string_of,
};

verus! {

/// Microseconds in a year of 365.25 days.
pub const USEC_PER_YEAR: u64 = 31_557_600_000_000;

/// Microseconds in a month, the twelfth of a year.
pub const USEC_PER_MONTH: u64 = 2_629_800_000_000;

/// Microseconds in a day.
pub const USEC_PER_DAY: u64 = 86_400_000_000;

/// Microseconds in an hour.
pub const USEC_PER_HOUR: u64 = 3_600_000_000;

/// Microseconds in a minute.
pub const USEC_PER_MINUTE: u64 = 60_000_000;

/// Microseconds in a second.
pub const USEC_PER_SEC: u64 = 1_000_000;

/// Microseconds in a millisecond.
pub const USEC_PER_MSEC: u64 = 1_000;

/// A duration, in units.
#[derive(Debug, Clone, Copy, PartialEq, Eq, Structural)]
pub struct DurationParts {
    pub years: u32,
    pub months: u32,
    pub days: u32,
    pub hours: u32,
    pub minutes: u32,
    pub seconds: u32,
    pub milliseconds: u32,
}

impl DurationParts {
    /// The microseconds that the units add up to.
    pub open spec fn total(self) -> int {
        self.years * USEC_PER_YEAR + self.months * USEC_PER_MONTH + self.days * USEC_PER_DAY
            + self.hours * USEC_PER_HOUR + self.minutes * USEC_PER_MINUTE + self.seconds
            * USEC_PER_SEC + self.milliseconds * USEC_PER_MSEC
    }

    /// No unit holds as much as the next larger one.
    pub open spec fn normal(self) -> bool {
        &&& self.months < 12
        &&& self.days <= 30
        &&& self.hours < 24
        &&& self.minutes < 60
        &&& self.seconds < 60
        &&& self.milliseconds < 1000
    }
}

/// The units of a duration: as many whole years as it holds, then as many
/// months as the rest holds, and so on down to milliseconds.
pub open spec fn spec_duration_parts(usec: u64) -> DurationParts {
    let in_year = usec % USEC_PER_YEAR;
    let in_month = in_year % USEC_PER_MONTH;
    let in_day = in_month % USEC_PER_DAY;
    let in_hour = in_day % USEC_PER_HOUR;
    let in_minute = in_hour % USEC_PER_MINUTE;
    let in_second = in_minute % USEC_PER_SEC;
    DurationParts {
        years: (usec / USEC_PER_YEAR) as u32,
        months: (in_year / USEC_PER_MONTH) as u32,
        days: (in_month / USEC_PER_DAY) as u32,
        hours: (in_day / USEC_PER_HOUR) as u32,
        minutes: (in_hour / USEC_PER_MINUTE) as u32,
        seconds: (in_minute / USEC_PER_SEC) as u32,
        milliseconds: (in_second / USEC_PER_MSEC) as u32,
    }
}

/// Splits a duration into units. The units add up to the duration but for
/// what is less than a millisecond, and no unit holds as much as the next
/// larger one.
pub fn duration_parts(usec: u64) -> (parts: DurationParts)
    ensures
        parts == spec_duration_parts(usec),
        parts.normal(),
        parts.total() <= usec < parts.total() + USEC_PER_MSEC,
{
    let years = usec / USEC_PER_YEAR;
    let in_year = usec % USEC_PER_YEAR;
    let months = in_year / USEC_PER_MONTH;
    let in_month = in_year % USEC_PER_MONTH;
    let days = in_month / USEC_PER_DAY;
    let in_day = in_month % USEC_PER_DAY;
    let hours = in_day / USEC_PER_HOUR;
    let in_hour = in_day % USEC_PER_HOUR;
    let minutes = in_hour / USEC_PER_MINUTE;
    let in_minute = in_hour % USEC_PER_MINUTE;
    let seconds = in_minute / USEC_PER_SEC;
    let in_second = in_minute % USEC_PER_SEC;
    let milliseconds = in_second / USEC_PER_MSEC;
    DurationParts {
        years: years as u32,
        months: months as u32,
        days: days as u32,
        hours: hours as u32,
        minutes: minutes as u32,
        seconds: seconds as u32,
        milliseconds: milliseconds as u32,
    }
}

/// How a duration is worded: which units are named.
#[derive(Debug, Clone, Copy, PartialEq, Eq, Structural)]
pub enum DurationText {
    YearsMonthsDays { years: u32, months: u32, days: u32 },
    MonthsDays { months: u32, days: u32 },
    DaysHours { days: u32, hours: u32 },
    HoursMinutes { hours: u32, minutes: u32 },
    MinutesSeconds { minutes: u32, seconds: u32 },
    Minutes { minutes: u32 },
    LessThanAMinute,
    Seconds { seconds: u32 },
    Milliseconds { milliseconds: u32 },
}

/// The wording of a duration: the largest unit that is not 0 and the one
/// below it; years are followed by months and days. Without seconds, minutes
/// stand alone and what is shorter is less than a minute. What is below a
/// second is 0 seconds, or with sub-second precision its milliseconds.
pub open spec fn spec_duration_text(parts: DurationParts, flags: DurationFlagSet)
    -> DurationText {
    let no_seconds = flags.spec_contains(GduFormatDurationFlags::NoSeconds);
    let sub_second = flags.spec_contains(GduFormatDurationFlags::SubSecondPrecision);
    if parts.years > 0 {
        DurationText::YearsMonthsDays {
            years: parts.years,
            months: parts.months,
            days: parts.days,
        }
    } else if parts.months > 0 {
        DurationText::MonthsDays { months: parts.months, days: parts.days }
    } else if parts.days > 0 {
        DurationText::DaysHours { days: parts.days, hours: parts.hours }
    } else if parts.hours > 0 {
        DurationText::HoursMinutes { hours: parts.hours, minutes: parts.minutes }
    } else if parts.minutes > 0 {
        if no_seconds {
            DurationText::Minutes { minutes: parts.minutes }
        } else {
            DurationText::MinutesSeconds { minutes: parts.minutes, seconds: parts.seconds }
        }
    } else if parts.seconds > 0 || !sub_second || no_seconds {
        if no_seconds {
            DurationText::LessThanAMinute
        } else {
            DurationText::Seconds { seconds: parts.seconds }
        }
    } else {
        DurationText::Milliseconds { milliseconds: parts.milliseconds }
    }
}

/// Picks the wording of a duration; see [`spec_duration_text`].
pub fn duration_text(parts: DurationParts, flags: DurationFlagSet) -> (text: DurationText)
    ensures
        text == spec_duration_text(parts, flags),
{
    let no_seconds = flags.contains(GduFormatDurationFlags::NoSeconds);
    let sub_second = flags.contains(GduFormatDurationFlags::SubSecondPrecision);
    if parts.years > 0 {
        DurationText::YearsMonthsDays {
            years: parts.years,
            months: parts.months,
            days: parts.days,
        }
    } else if parts.months > 0 {
        DurationText::MonthsDays { months: parts.months, days: parts.days }
    } else if parts.days > 0 {
        DurationText::DaysHours { days: parts.days, hours: parts.hours }
    } else if parts.hours > 0 {
        DurationText::HoursMinutes { hours: parts.hours, minutes: parts.minutes }
    } else if parts.minutes > 0 {
        if no_seconds {
            DurationText::Minutes { minutes: parts.minutes }
        } else {
            DurationText::MinutesSeconds { minutes: parts.minutes, seconds: parts.seconds }
        }
    } else if parts.seconds > 0 || !sub_second || no_seconds {
        if no_seconds {
            DurationText::LessThanAMinute
        } else {
            DurationText::Seconds { seconds: parts.seconds }
        }
    } else {
        DurationText::Milliseconds { milliseconds: parts.milliseconds }
    }
}

/// The character of a digit.
pub open spec fn digit(d: nat) -> char {
    if d == 0 {
        '0'
    } else if d == 1 {
        '1'
    } else if d == 2 {
        '2'
    } else if d == 3 {
        '3'
    } else if d == 4 {
        '4'
    } else if d == 5 {
        '5'
    } else if d == 6 {
        '6'
    } else if d == 7 {
        '7'
    } else if d == 8 {
        '8'
    } else {
        '9'
    }
}

/// A number in decimal digits.
pub open spec fn decimal(n: nat) -> Seq<char>
    decreases n,
{
    if n < 10 {
        seq![digit(n)]
    } else {
        decimal(n / 10).push(digit(n % 10))
    }
}

/// Puts the decimal digits of `n` at the end of `out`.
fn push_decimal(n: u32, out: &mut Vec<char>)
    ensures
        final(out)@ == old(out)@ + decimal(n as nat),
    decreases n,
{
    if n >= 10 {
        push_decimal(n / 10, out);
    }
    let d = n % 10;
    let c = if d == 0 {
        '0'
    } else if d == 1 {
        '1'
    } else if d == 2 {
        '2'
    } else if d == 3 {
        '3'
    } else if d == 4 {
        '4'
    } else if d == 5 {
        '5'
    } else if d == 6 {
        '6'
    } else if d == 7 {
        '7'
    } else if d == 8 {
        '8'
    } else {
        '9'
    };
    out.push(c);
    proof {
        if n >= 10 {
            assert(old(out)@ + decimal((n / 10) as nat).push(c) == (old(out)@ + decimal(
                (n / 10) as nat,
            )).push(c));
        } else {
            assert(old(out)@ + seq![c] == old(out)@.push(c));
        }
    }
}

/// A count of a unit in words: `singular` for one, `plural` else, with
/// the number for each `%d`.
pub open spec fn counted(value: u32, singular: Seq<char>, plural: Seq<char>) -> Seq<char> {
    replaced_all(
        if value == 1 {
            singular
        } else {
            plural
        },
        "%d"@,
        decimal(value as nat),
    )
}

/// A count of a unit in words.
fn count(value: u32, singular: &str, plural: &str) -> (words: String)
    ensures
        words@ == counted(value, singular@, plural@),
{
    let form = if value == 1 {
        chars_of(singular)
    } else {
        chars_of(plural)
    };
    let mut number: Vec<char> = Vec::new();
    push_decimal(value, &mut number);
    assert(number@ == decimal(value as nat));
    string_of(&replace_all(&form, &chars_of("%d"), &number))
}

/// The English of a wording.
pub open spec fn spec_english(text: DurationText) -> Seq<char> {
    match text {
        DurationText::YearsMonthsDays { years, months, days } => args_replaced(
            "%s, %s and %s"@,
            seq![
                counted(years, "%d year"@, "%d years"@),
                counted(months, "%d month"@, "%d months"@),
                counted(days, "%d day"@, "%d days"@),
            ],
        ),
        DurationText::MonthsDays { months, days } => args_replaced(
            "%s and %s"@,
            seq![
                counted(months, "%d month"@, "%d months"@),
                counted(days, "%d day"@, "%d days"@),
            ],
        ),
        DurationText::DaysHours { days, hours } => args_replaced(
            "%s and %s"@,
            seq![counted(days, "%d day"@, "%d days"@), counted(hours, "%d hour"@, "%d hours"@)],
        ),
        DurationText::HoursMinutes { hours, minutes } => args_replaced(
            "%s and %s"@,
            seq![
                counted(hours, "%d hour"@, "%d hours"@),
                counted(minutes, "%d minute"@, "%d minutes"@),
            ],
        ),
        DurationText::MinutesSeconds { minutes, seconds } => args_replaced(
            "%s and %s"@,
            seq![
                counted(minutes, "%d minute"@, "%d minutes"@),
                counted(seconds, "%d second"@, "%d seconds"@),
            ],
        ),
        DurationText::Minutes { minutes } => counted(minutes, "%d minute"@, "%d minutes"@),
        DurationText::LessThanAMinute => "Less than a minute"@,
        DurationText::Seconds { seconds } => args_replaced(
            "%s"@,
            seq![counted(seconds, "%d second"@, "%d seconds"@)],
        ),
        DurationText::Milliseconds { milliseconds } => args_replaced(
            "%s"@,
            seq![counted(milliseconds, "%d milli-second"@, "%d milli-seconds"@)],
        ),
    }
}

/// The template filled with two counts.
fn pair(first: String, second: String) -> (words: String)
    ensures
        words@ == args_replaced("%s and %s"@, seq![first@, second@]),
{
    let args = [first.as_str(), second.as_str()];
    assert(crate::text::texts(args@) == seq![first@, second@]);
    arg_replace("%s and %s".to_owned(), &args)
}

/// The template filled with one count.
fn single(only: String) -> (words: String)
    ensures
        words@ == args_replaced("%s"@, seq![only@]),
{
    let args = [only.as_str()];
    assert(crate::text::texts(args@) == seq![only@]);
    arg_replace("%s".to_owned(), &args)
}

impl DurationText {
    /// The wording in English, as it reads where nothing is translated.
    pub fn english(self) -> (words: String)
        ensures
            words@ == spec_english(self),
    {
        match self {
            DurationText::YearsMonthsDays { years, months, days } => {
                let a = count(years, "%d year", "%d years");
                let b = count(months, "%d month", "%d months");
                let c = count(days, "%d day", "%d days");
                let args = [a.as_str(), b.as_str(), c.as_str()];
                assert(crate::text::texts(args@) == seq![a@, b@, c@]);
                arg_replace("%s, %s and %s".to_owned(), &args)
            },
            DurationText::MonthsDays { months, days } => pair(
                count(months, "%d month", "%d months"),
                count(days, "%d day", "%d days"),
            ),
            DurationText::DaysHours { days, hours } => pair(
                count(days, "%d day", "%d days"),
                count(hours, "%d hour", "%d hours"),
            ),
            DurationText::HoursMinutes { hours, minutes } => pair(
                count(hours, "%d hour", "%d hours"),
                count(minutes, "%d minute", "%d minutes"),
            ),
            DurationText::MinutesSeconds { minutes, seconds } => pair(
                count(minutes, "%d minute", "%d minutes"),
                count(seconds, "%d second", "%d seconds"),
            ),
            DurationText::Minutes { minutes } => count(minutes, "%d minute", "%d minutes"),
            DurationText::LessThanAMinute => "Less than a minute".to_owned(),
            DurationText::Seconds { seconds } => single(count(seconds, "%d second", "%d seconds")),
            DurationText::Milliseconds { milliseconds } => single(
                count(milliseconds, "%d milli-second", "%d milli-seconds"),
            ),
        }
    }
}

/// A duration of `usec` microseconds in English words.
pub fn format_duration_usec(usec: u64, flags: DurationFlagSet) -> (words: String)
    ensures
        words@ == spec_english(spec_duration_text(spec_duration_parts(usec), flags)),
{
    duration_text(duration_parts(usec), flags).english()
}

} // verus!
