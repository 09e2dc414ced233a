use click_counter::calendar::Date;
use click_counter::codec::{parse_store, recover_store, render_store};
use click_counter::models::DayCounts;
use click_counter::store::AppData;

fn date(y: i32, m: u8, d: u8) -> Date {
    Date::from_ymd(y, m, d).unwrap()
}

#[test]
fn renders_empty_store_as_empty_object() {
    let data = AppData::new();
    assert_eq!(render_store(&data), "{}");
}

#[test]
fn renders_one_entry_pretty_printed() {
    let mut data = AppData::new();
    data.set_counts(date(2026, 1, 3), DayCounts { add: 3, sub: 1 });
    let expected = "{\n  \"2026-01-03\": {\n    \"add\": 3,\n    \"sub\": 1\n  }\n}";
    assert_eq!(render_store(&data), expected);
}

#[test]
fn roundtrip_reproduces_the_map() {
    let mut data = AppData::new();
    data.set_counts(date(2025, 12, 31), DayCounts { add: 7, sub: 0 });
    data.set_counts(date(2026, 1, 3), DayCounts { add: 3, sub: 1 });
    data.set_counts(date(2026, 1, 5), DayCounts { add: 0, sub: u64::MAX });

    let text = render_store(&data);
    let loaded = parse_store(&text).expect("rendered text must parse");
    assert_eq!(loaded.days.len(), 3);
    assert_eq!(loaded.get(date(2025, 12, 31)), DayCounts { add: 7, sub: 0 });
    assert_eq!(loaded.get(date(2026, 1, 3)), DayCounts { add: 3, sub: 1 });
    assert_eq!(loaded.get(date(2026, 1, 5)), DayCounts { add: 0, sub: u64::MAX });
}

#[test]
fn roundtrip_of_empty_store() {
    let data = AppData::new();
    let loaded = parse_store(&render_store(&data)).expect("empty object must parse");
    assert_eq!(loaded.days.len(), 0);
}

#[test]
fn rejects_text_in_other_shapes() {
    assert!(parse_store("").is_none());
    assert!(parse_store("hello").is_none());
    assert!(parse_store("{\n}").is_none());
    assert!(parse_store("[]").is_none());
    assert!(parse_store("{\"2026-01-03\": 3}").is_none());
}

#[test]
fn rejects_trailing_text() {
    let mut data = AppData::new();
    data.set_counts(date(2026, 1, 3), DayCounts { add: 3, sub: 1 });
    let mut text = render_store(&data);
    text.push('x');
    assert!(parse_store(&text).is_none());
}

#[test]
fn accepts_keys_out_of_order() {
    let text = "{\n  \"2026-01-05\": {\n    \"add\": 2,\n    \"sub\": 0\n  },\n  \"2026-01-03\": {\n    \"add\": 3,\n    \"sub\": 1\n  }\n}";
    let loaded = parse_store(text).expect("well-shaped entries must parse");
    assert_eq!(loaded.get(date(2026, 1, 5)), DayCounts { add: 2, sub: 0 });
    assert_eq!(loaded.get(date(2026, 1, 3)), DayCounts { add: 3, sub: 1 });
}

#[test]
fn last_duplicate_key_wins() {
    let text = "{\n  \"2026-01-03\": {\n    \"add\": 1,\n    \"sub\": 0\n  },\n  \"2026-01-03\": {\n    \"add\": 9,\n    \"sub\": 2\n  }\n}";
    let loaded = parse_store(text).expect("duplicate keys are tolerated");
    assert_eq!(loaded.days.len(), 1);
    assert_eq!(loaded.get(date(2026, 1, 3)), DayCounts { add: 9, sub: 2 });
}

#[test]
fn rejects_invalid_dates_and_overflowing_counts() {
    let bad_date = "{\n  \"2026-13-01\": {\n    \"add\": 1,\n    \"sub\": 0\n  }\n}";
    assert!(parse_store(bad_date).is_none());
    let bad_leap = "{\n  \"2025-02-29\": {\n    \"add\": 1,\n    \"sub\": 0\n  }\n}";
    assert!(parse_store(bad_leap).is_none());
    let too_big = "{\n  \"2026-01-03\": {\n    \"add\": 18446744073709551616,\n    \"sub\": 0\n  }\n}";
    assert!(parse_store(too_big).is_none());
    let at_max = "{\n  \"2026-01-03\": {\n    \"add\": 18446744073709551615,\n    \"sub\": 0\n  }\n}";
    let loaded = parse_store(at_max).expect("the 64-bit maximum itself is fine");
    assert_eq!(loaded.get(date(2026, 1, 3)).add, u64::MAX);
}

#[test]
fn recovery_falls_back_to_an_empty_store() {
    let missing = recover_store(None);
    assert_eq!(missing.days.len(), 0);

    let corrupt = recover_store(Some("not a state file"));
    assert_eq!(corrupt.days.len(), 0);

    let mut data = AppData::new();
    data.set_counts(date(2026, 1, 3), DayCounts { add: 3, sub: 1 });
    let text = render_store(&data);
    let recovered = recover_store(Some(&text));
    assert_eq!(recovered.get(date(2026, 1, 3)), DayCounts { add: 3, sub: 1 });
    assert_eq!(recovered.days.len(), 1);
}
