use click_counter::calendar::Date;
use click_counter::keys::date_key;
use click_counter::models::DayCounts;
use click_counter::stats::build_stats_at;
use click_counter::store::AppData;

fn date(y: i32, m: u8, d: u8) -> Date {
    Date::from_ymd(y, m, d).unwrap()
}

#[test]
fn stats_last_7_days_includes_each_day() {
    let mut data = AppData::new();
    let today = date(2026, 1, 5);
    let two_days_ago = date(2026, 1, 3);
    data.set_counts(two_days_ago, DayCounts { add: 3, sub: 1 });

    let stats = build_stats_at(today, &data);
    assert_eq!(stats.last_7_days.len(), 7);
    let point = stats
        .last_7_days
        .iter()
        .find(|day| day.date == date_key(two_days_ago))
        .expect("missing day");
    assert_eq!(point.add_count, 3);
    assert_eq!(point.sub_count, 1);
    assert_eq!(point.net, 2);
}

#[test]
fn stats_weekly_series_lengths() {
    let data = AppData::new();
    let today = date(2026, 1, 5);
    let stats = build_stats_at(today, &data);
    assert_eq!(stats.weekly_totals.len(), 8);
    assert_eq!(stats.weekly_averages.len(), 8);
    assert_eq!(stats.last_7_days.len(), 7);
}

#[test]
fn empty_store_projects_to_zeros() {
    let data = AppData::new();
    let stats = build_stats_at(date(2026, 1, 5), &data);
    for day in &stats.last_7_days {
        assert_eq!(day.add_count, 0);
        assert_eq!(day.sub_count, 0);
        assert_eq!(day.net, 0);
    }
    for week in &stats.weekly_totals {
        assert_eq!(week.add_count, 0);
        assert_eq!(week.sub_count, 0);
        assert_eq!(week.net, 0);
    }
    for week in &stats.weekly_averages {
        assert_eq!(week.add_total, 0);
        assert_eq!(week.sub_total, 0);
        assert_eq!(week.net_total, 0);
        assert!(week.denominator() >= 1);
    }
}

#[test]
fn daily_series_dates_and_other_days_zero() {
    let mut data = AppData::new();
    let today = date(2026, 1, 5);
    data.set_counts(date(2026, 1, 3), DayCounts { add: 3, sub: 1 });

    let stats = build_stats_at(today, &data);
    let expected_dates = [
        "2025-12-30",
        "2025-12-31",
        "2026-01-01",
        "2026-01-02",
        "2026-01-03",
        "2026-01-04",
        "2026-01-05",
    ];
    for (day, expected) in stats.last_7_days.iter().zip(expected_dates.iter()) {
        assert_eq!(day.date, *expected);
        if day.date == "2026-01-03" {
            assert_eq!((day.add_count, day.sub_count, day.net), (3, 1, 2));
        } else {
            assert_eq!((day.add_count, day.sub_count, day.net), (0, 0, 0));
        }
    }
}

#[test]
fn days_counted_current_and_prior_weeks() {
    let data = AppData::new();
    // a Monday anchor: one day of the current week has elapsed
    let stats = build_stats_at(date(2026, 1, 5), &data);
    for i in 0..7 {
        assert_eq!(stats.weekly_averages[i].days_counted, 7);
    }
    assert_eq!(stats.weekly_averages[7].days_counted, 1);

    // a Wednesday anchor: three days of the current week have elapsed
    let stats = build_stats_at(date(2026, 1, 7), &data);
    assert_eq!(stats.weekly_averages[7].days_counted, 3);
}

#[test]
fn weekly_labels_and_bounds() {
    let data = AppData::new();
    let stats = build_stats_at(date(2026, 1, 5), &data);
    let current = &stats.weekly_totals[7];
    assert_eq!(current.week, "2026-W02");
    assert_eq!(current.start_date, "2026-01-05");
    assert_eq!(current.end_date, "2026-01-11");
    assert_eq!(stats.weekly_totals[6].week, "2026-W01");
    assert_eq!(stats.weekly_totals[6].start_date, "2025-12-29");
    assert_eq!(stats.weekly_totals[0].week, "2025-W47");
    assert_eq!(stats.weekly_totals[0].start_date, "2025-11-17");
}

#[test]
fn weekly_sums_aggregate_days_of_one_week() {
    let mut data = AppData::new();
    // both days fall in the week of 2025-12-29 .. 2026-01-04
    data.set_counts(date(2025, 12, 29), DayCounts { add: 2, sub: 1 });
    data.set_counts(date(2026, 1, 4), DayCounts { add: 3, sub: 0 });

    let stats = build_stats_at(date(2026, 1, 5), &data);
    let week = &stats.weekly_totals[6];
    assert_eq!(week.add_count, 5);
    assert_eq!(week.sub_count, 1);
    assert_eq!(week.net, 4);
    let avg = &stats.weekly_averages[6];
    assert_eq!(avg.days_counted, 7);
    assert_eq!(avg.add_total, 5);
    assert_eq!(avg.sub_total, 1);
    assert_eq!(avg.net_total, 4);
    assert_eq!(avg.denominator(), 7);
}

#[test]
fn weekly_sum_saturates_at_maximum() {
    let mut data = AppData::new();
    data.set_counts(date(2026, 1, 1), DayCounts { add: u64::MAX, sub: 0 });
    data.set_counts(date(2026, 1, 2), DayCounts { add: 5, sub: 0 });

    let stats = build_stats_at(date(2026, 1, 5), &data);
    assert_eq!(stats.weekly_totals[6].add_count, u64::MAX);
}
