use gdu_core::duration::{
    duration_parts, duration_text, format_duration_usec, DurationParts, DurationText,
    USEC_PER_DAY, USEC_PER_HOUR, USEC_PER_MINUTE, USEC_PER_MONTH, USEC_PER_MSEC, USEC_PER_SEC,
    USEC_PER_YEAR,
};
use gdu_core::enums::{DurationFlagSet, GduFormatDurationFlags};

fn plain() -> DurationFlagSet {
    DurationFlagSet::empty()
}

fn no_seconds() -> DurationFlagSet {
    DurationFlagSet::empty().with(GduFormatDurationFlags::NoSeconds)
}

fn sub_second() -> DurationFlagSet {
    DurationFlagSet::empty().with(GduFormatDurationFlags::SubSecondPrecision)
}

#[test]
fn units_of_time() {
    assert_eq!(USEC_PER_MSEC, 1_000);
    assert_eq!(USEC_PER_SEC, 1_000_000);
    assert_eq!(USEC_PER_MINUTE, 60 * USEC_PER_SEC);
    assert_eq!(USEC_PER_HOUR, 60 * USEC_PER_MINUTE);
    assert_eq!(USEC_PER_DAY, 24 * USEC_PER_HOUR);
    assert_eq!(USEC_PER_YEAR, 365 * USEC_PER_DAY + USEC_PER_DAY / 4);
    assert_eq!(USEC_PER_MONTH * 12, USEC_PER_YEAR);
}

#[test]
fn parts_add_up_to_the_duration() {
    let usec = 3 * USEC_PER_YEAR
        + 7 * USEC_PER_MONTH
        + 12 * USEC_PER_DAY
        + 5 * USEC_PER_HOUR
        + 42 * USEC_PER_MINUTE
        + 17 * USEC_PER_SEC
        + 250 * USEC_PER_MSEC
        + 999;
    assert_eq!(
        duration_parts(usec),
        DurationParts {
            years: 3,
            months: 7,
            days: 12,
            hours: 5,
            minutes: 42,
            seconds: 17,
            milliseconds: 250
        }
    );
    assert_eq!(
        duration_parts(0),
        DurationParts {
            years: 0,
            months: 0,
            days: 0,
            hours: 0,
            minutes: 0,
            seconds: 0,
            milliseconds: 0
        }
    );
}

#[test]
fn parts_take_as_many_months_as_fit() {
    // thirty days and a half are one month and a bit, not thirty days
    let parts = duration_parts(30 * USEC_PER_DAY + USEC_PER_DAY / 2);
    assert_eq!(parts.months, 1);
    assert_eq!(parts.days, 0);
    assert_eq!(parts.hours, 1);
    assert_eq!(parts.minutes, 30);
    let just_under = duration_parts(USEC_PER_MONTH - 1);
    assert_eq!(just_under.months, 0);
    assert_eq!(just_under.days, 30);
    assert_eq!(just_under.hours, 10);
    let longest = duration_parts(u64::MAX);
    assert_eq!(longest.years, 584_542);
    assert_eq!(longest.months, 0);
}

#[test]
fn wording_names_the_two_largest_units() {
    assert_eq!(format_duration_usec(0, plain()), "0 seconds");
    assert_eq!(format_duration_usec(999_999, plain()), "0 seconds");
    assert_eq!(format_duration_usec(USEC_PER_SEC, plain()), "1 second");
    assert_eq!(format_duration_usec(59 * USEC_PER_SEC, plain()), "59 seconds");
    assert_eq!(format_duration_usec(90 * USEC_PER_SEC, plain()), "1 minute and 30 seconds");
    assert_eq!(format_duration_usec(120 * USEC_PER_SEC, plain()), "2 minutes and 0 seconds");
    assert_eq!(
        format_duration_usec(2 * USEC_PER_HOUR + 5 * USEC_PER_MINUTE + 59 * USEC_PER_SEC, plain()),
        "2 hours and 5 minutes"
    );
    assert_eq!(format_duration_usec(25 * USEC_PER_HOUR, plain()), "1 day and 1 hour");
    assert_eq!(format_duration_usec(45 * USEC_PER_DAY, plain()), "1 month and 14 days");
    assert_eq!(format_duration_usec(400 * USEC_PER_DAY, plain()), "1 year, 1 month and 4 days");
    assert_eq!(
        format_duration_usec(2 * USEC_PER_YEAR, plain()),
        "2 years, 0 months and 0 days"
    );
    assert_eq!(
        format_duration_usec(u64::MAX, plain()),
        "584542 years, 0 months and 16 days"
    );
}

#[test]
fn wording_without_seconds() {
    assert_eq!(format_duration_usec(90 * USEC_PER_SEC, no_seconds()), "1 minute");
    assert_eq!(format_duration_usec(10 * USEC_PER_MINUTE, no_seconds()), "10 minutes");
    assert_eq!(format_duration_usec(59 * USEC_PER_SEC, no_seconds()), "Less than a minute");
    assert_eq!(format_duration_usec(0, no_seconds()), "Less than a minute");
    assert_eq!(
        format_duration_usec(500, no_seconds().with(GduFormatDurationFlags::SubSecondPrecision)),
        "Less than a minute"
    );
    assert_eq!(format_duration_usec(2 * USEC_PER_HOUR, no_seconds()), "2 hours and 0 minutes");
}

#[test]
fn wording_below_a_second() {
    assert_eq!(format_duration_usec(0, sub_second()), "0 milli-seconds");
    assert_eq!(format_duration_usec(1_999, sub_second()), "1 milli-second");
    assert_eq!(format_duration_usec(250_000, sub_second()), "250 milli-seconds");
    assert_eq!(format_duration_usec(1_250_000, sub_second()), "1 second");
    assert_eq!(format_duration_usec(250_000, plain()), "0 seconds");
}

#[test]
fn wording_is_picked_from_the_parts() {
    let parts = DurationParts {
        years: 0,
        months: 0,
        days: 0,
        hours: 0,
        minutes: 3,
        seconds: 4,
        milliseconds: 5,
    };
    assert_eq!(
        duration_text(parts, plain()),
        DurationText::MinutesSeconds { minutes: 3, seconds: 4 }
    );
    assert_eq!(duration_text(parts, no_seconds()), DurationText::Minutes { minutes: 3 });
    assert_eq!(DurationText::Minutes { minutes: 1 }.english(), "1 minute");
    assert_eq!(
        DurationText::YearsMonthsDays { years: 1, months: 1, days: 1 }.english(),
        "1 year, 1 month and 1 day"
    );
    assert_eq!(DurationText::DaysHours { days: 10, hours: 20 }.english(), "10 days and 20 hours");
    assert_eq!(DurationText::LessThanAMinute.english(), "Less than a minute");
}
