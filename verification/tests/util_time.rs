use fondbot::time::civil_from_days;
use fondbot::time::format_human_time;
use fondbot::time::format_time;
use fondbot::time::weekday_of;
use fondbot::util::ellipsis;
use fondbot::util::escape_markdown;
use fondbot::util::format_duration;
use fondbot::util::i64_string;
use fondbot::util::pad2;
use fondbot::util::u64_string;

#[test]
fn decimal_rendering() {
    assert_eq!(u64_string(0), "0");
    assert_eq!(u64_string(7), "7");
    assert_eq!(u64_string(1234567890), "1234567890");
    assert_eq!(i64_string(-42), "-42");
    assert_eq!(i64_string(0), "0");
    assert_eq!(i64_string(i64::MIN), "-9223372036854775808");
    assert_eq!(pad2(3), "03");
    assert_eq!(pad2(42), "42");
}

#[test]
fn ellipsis_keeps_short_text_and_cuts_long() {
    assert_eq!(ellipsis("hello", 10), "hello");
    assert_eq!(ellipsis("hello world long", 8), "hello...");
    assert_eq!(ellipsis("abc", 3), "abc");
}

#[test]
fn markdown_escaping() {
    assert_eq!(escape_markdown("a_b*c`d"), "a\\_b\\*c\\`d");
    assert_eq!(escape_markdown("plain"), "plain");
    assert_eq!(escape_markdown(""), "");
}

#[test]
fn duration_formatting() {
    assert_eq!(format_duration(5), "5 secs");
    assert_eq!(format_duration(0), "0 secs");
    assert_eq!(format_duration(90061), "1 days 1 hours 1 mins 1 secs");
    assert_eq!(format_duration(3725), "1 hours 2 mins 5 secs");
    assert_eq!(format_duration(-3), "<0 sec");
}

#[test]
fn civil_dates_invert_day_numbers() {
    assert_eq!(civil_from_days(0), (1970, 1, 1));
    assert_eq!(civil_from_days(-1), (1969, 12, 31));
    assert_eq!(civil_from_days(19782), (2024, 2, 29));
    assert_eq!(civil_from_days(19723), (2024, 1, 1));
}

#[test]
fn weekdays() {
    assert_eq!(weekday_of(0), 4); // 1970-01-01 was a Thursday
    assert_eq!(weekday_of(3), 0); // the following Sunday
}

#[test]
fn full_timestamp_rendering() {
    assert_eq!(format_time(0, 0), "1970-01-01 00:00:00 +0000");
    assert_eq!(format_time(1_600_000_000, 28800), "2020-09-13 20:26:40 +0800");
    assert_eq!(format_time(1_600_000_000, -3600), "2020-09-13 11:26:40 -0100");
}

#[test]
fn human_timestamp_rendering() {
    assert_eq!(format_human_time(0, 0), "Thu Jan  1  0:00:00");
    assert_eq!(format_human_time(1_600_000_000, 28800), "Sun Sep 13 20:26:40");
}
