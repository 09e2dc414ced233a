use click_counter::calendar::Date;
use click_counter::models::{
    net_value, parse_action, to_response, ClickAction, DayCounts,
};
use click_counter::store::AppData;

fn date(y: i32, m: u8, d: u8) -> Date {
    Date::from_ymd(y, m, d).unwrap()
}

#[test]
fn increment_creates_and_returns_counts() {
    let mut data = AppData::new();
    let day = date(2026, 1, 5);
    let counts = data.increment(day, ClickAction::Add);
    assert_eq!(counts, DayCounts { add: 1, sub: 0 });
    assert_eq!(data.get(day), DayCounts { add: 1, sub: 0 });
}

#[test]
fn two_increments_are_not_lost() {
    let mut data = AppData::new();
    let day = date(2026, 1, 5);
    data.increment(day, ClickAction::Add);
    data.increment(day, ClickAction::Add);
    assert_eq!(data.get(day).add, 2);
    assert_eq!(data.get(day).sub, 0);
}

#[test]
fn increment_sub_only_touches_sub() {
    let mut data = AppData::new();
    let day = date(2026, 1, 5);
    data.increment(day, ClickAction::Add);
    let counts = data.increment(day, ClickAction::Sub);
    assert_eq!(counts, DayCounts { add: 1, sub: 1 });
}

#[test]
fn increment_saturates_at_maximum() {
    let mut data = AppData::new();
    let day = date(2026, 1, 5);
    data.set_counts(day, DayCounts { add: u64::MAX, sub: 7 });
    let counts = data.increment(day, ClickAction::Add);
    assert_eq!(counts, DayCounts { add: u64::MAX, sub: 7 });
    let counts = data.increment(day, ClickAction::Sub);
    assert_eq!(counts, DayCounts { add: u64::MAX, sub: 8 });
}

#[test]
fn missing_day_reads_as_zero() {
    let data = AppData::new();
    assert_eq!(data.get(date(2026, 1, 5)), DayCounts { add: 0, sub: 0 });
}

#[test]
fn days_are_kept_apart() {
    let mut data = AppData::new();
    // inserted newest first: the store still keeps each day's own counts
    data.increment(date(2026, 1, 5), ClickAction::Add);
    data.increment(date(2026, 1, 3), ClickAction::Sub);
    data.increment(date(2025, 12, 31), ClickAction::Add);
    assert_eq!(data.get(date(2026, 1, 5)), DayCounts { add: 1, sub: 0 });
    assert_eq!(data.get(date(2026, 1, 3)), DayCounts { add: 0, sub: 1 });
    assert_eq!(data.get(date(2025, 12, 31)), DayCounts { add: 1, sub: 0 });
    assert_eq!(data.days.len(), 3);
}

#[test]
fn default_counts_are_zero() {
    let counts: DayCounts = Default::default();
    assert_eq!(counts, DayCounts { add: 0, sub: 0 });
}

#[test]
fn response_carries_counts_and_net() {
    let r = to_response(String::from("2026-01-05"), DayCounts { add: 3, sub: 1 });
    assert_eq!(r.date, "2026-01-05");
    assert_eq!(r.add_count, 3);
    assert_eq!(r.sub_count, 1);
    assert_eq!(r.net, 2);

    let r = to_response(String::from("2026-01-05"), DayCounts { add: 1, sub: 3 });
    assert_eq!(r.net, -2);
}

#[test]
fn net_wraps_like_the_signed_cast() {
    assert_eq!(net_value(5, 2), 3);
    assert_eq!(net_value(0, 5), -5);
    assert_eq!(net_value(u64::MAX, 0), -1);
    assert_eq!(net_value(0, u64::MAX), 1);
    assert_eq!(net_value(i64::MAX as u64, 0), i64::MAX);
    assert_eq!(net_value(0, 1 << 63), i64::MIN);
}

#[test]
fn action_accepts_exactly_add_and_sub() {
    assert_eq!(parse_action("add"), Some(ClickAction::Add));
    assert_eq!(parse_action("sub"), Some(ClickAction::Sub));
    assert_eq!(parse_action("  add\n"), Some(ClickAction::Add));
    assert_eq!(parse_action("\tsub "), Some(ClickAction::Sub));
    assert_eq!(parse_action("Add"), None);
    assert_eq!(parse_action("added"), None);
    assert_eq!(parse_action(""), None);
    assert_eq!(parse_action("   "), None);
    assert_eq!(parse_action("a d d"), None);
}
