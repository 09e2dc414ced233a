use click_counter::calendar::{
    days_in_month, minus_days, plus_days, week_start, weekday_index, Date,
};
use click_counter::keys::{date_key, i64_string, u64_string, week_label};
use click_counter::models::DayCounts;
use click_counter::ui::render_index;

fn date(y: i32, m: u8, d: u8) -> Date {
    Date::from_ymd(y, m, d).unwrap()
}

#[test]
fn from_ymd_accepts_exactly_the_valid_dates() {
    assert!(Date::from_ymd(2024, 2, 29).is_some());
    assert!(Date::from_ymd(2023, 2, 29).is_none());
    assert!(Date::from_ymd(2000, 2, 29).is_some());
    assert!(Date::from_ymd(1900, 2, 29).is_none());
    assert!(Date::from_ymd(2026, 13, 1).is_none());
    assert!(Date::from_ymd(2026, 0, 1).is_none());
    assert!(Date::from_ymd(2026, 4, 31).is_none());
    assert!(Date::from_ymd(0, 1, 1).is_none());
    assert!(Date::from_ymd(10000, 1, 1).is_none());
}

#[test]
fn month_lengths_follow_leap_years() {
    assert_eq!(days_in_month(2024, 2), 29);
    assert_eq!(days_in_month(2025, 2), 28);
    assert_eq!(days_in_month(2025, 1), 31);
    assert_eq!(days_in_month(2025, 4), 30);
    assert_eq!(days_in_month(2100, 2), 28);
}

#[test]
fn weekdays_and_week_starts() {
    // 2026-01-05 is a Monday
    assert_eq!(weekday_index(date(2026, 1, 5)), 0);
    assert_eq!(weekday_index(date(2026, 1, 7)), 2);
    assert_eq!(weekday_index(date(2026, 1, 11)), 6);
    assert_eq!(week_start(date(2026, 1, 7)), date(2026, 1, 5));
    assert_eq!(week_start(date(2026, 1, 5)), date(2026, 1, 5));
    // a week start can cross the year boundary
    assert_eq!(week_start(date(2026, 1, 1)), date(2025, 12, 29));
}

#[test]
fn day_arithmetic_crosses_months_and_leap_days() {
    assert_eq!(plus_days(date(2024, 2, 28), 1), date(2024, 2, 29));
    assert_eq!(plus_days(date(2024, 2, 28), 2), date(2024, 3, 1));
    assert_eq!(minus_days(date(2025, 3, 1), 1), date(2025, 2, 28));
    assert_eq!(minus_days(date(2026, 1, 5), 7), date(2025, 12, 29));
    assert_eq!(plus_days(date(2025, 12, 29), 6), date(2026, 1, 4));
}

#[test]
fn date_keys_are_zero_padded() {
    assert_eq!(date_key(date(2026, 1, 5)), "2026-01-05");
    assert_eq!(date_key(date(800, 7, 9)), "0800-07-09");
    assert_eq!(date_key(date(9999, 12, 31)), "9999-12-31");
}

#[test]
fn week_labels_use_the_iso_week_year() {
    // the label's year is the ISO week-numbering year, which can differ
    // from the calendar year near a year boundary
    assert_eq!(week_label(date(2024, 12, 30)), "2025-W01");
    assert_eq!(week_label(date(2021, 1, 1)), "2020-W53");
    assert_eq!(week_label(date(2026, 1, 5)), "2026-W02");
    assert_eq!(week_label(date(2025, 12, 29)), "2026-W01");
    assert_eq!(week_label(date(2024, 12, 29)), "2024-W52");
}

#[test]
fn numbers_render_in_decimal() {
    assert_eq!(u64_string(0), "0");
    assert_eq!(u64_string(1234567890), "1234567890");
    assert_eq!(u64_string(u64::MAX), "18446744073709551615");
    assert_eq!(i64_string(0), "0");
    assert_eq!(i64_string(-5), "-5");
    assert_eq!(i64_string(i64::MIN), "-9223372036854775808");
    assert_eq!(i64_string(i64::MAX), "9223372036854775807");
}

#[test]
fn index_page_substitutes_the_day() {
    let page = render_index("2026-01-05", &DayCounts { add: 3, sub: 5 });
    assert!(page.starts_with("<!DOCTYPE html>"));
    assert!(page.contains("<span id=\"date\" class=\"value\">2026-01-05</span>"));
    assert!(page.contains("<span id=\"adds\" class=\"value\">3</span>"));
    assert!(page.contains("<span id=\"subs\" class=\"value\">5</span>"));
    assert!(page.contains("<span id=\"net\" class=\"value net\">-2</span>"));
}
