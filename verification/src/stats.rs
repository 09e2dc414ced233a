//! The stats projector: a pure function from a store snapshot and an
//! anchor date to the daily and weekly time series.

use vstd::prelude::*;

use crate::calendar::{
    date_valid, day_number, day_number_exec, days_before_year, lemma_day_number_bounds,
    lemma_day_number_year_lower, minus_days, plus_days, shift_date, week_start,
    week_start_date, weekday_of, Date, MAX_DAY_NUMBER,
};
use crate::keys::{date_key, date_key_chars, week_label, week_label_chars};
use crate::models::{
    net_of, net_value, sat_add, DailyPoint, DayCounts, StatsResponse, WeeklyAveragePoint,
    WeeklyPoint,
};
use crate::store::{counts_for, AppData};

verus! {

/// The date of the `i`-th point of the daily series (seven points, oldest
/// first, ending at the anchor).
pub open spec fn daily_date(anchor: Date, i: int) -> Date {
    shift_date(anchor, i - 6)
}

/// The Monday starting the `i`-th reported week (eight weeks, oldest
/// first; the last one contains the anchor).
pub open spec fn week_slot_start(anchor: Date, i: int) -> Date {
    shift_date(week_start_date(anchor), -7 * (7 - i))
}

/// The saturating sum of the `add` counters of the first `k` days of the
/// week starting at `start`.
pub open spec fn week_add_sum(m: Map<Date, DayCounts>, start: Date, k: int) -> u64
    decreases k,
{
    if k <= 0 {
        0
    } else {
        sat_add(week_add_sum(m, start, k - 1), counts_for(m, shift_date(start, k - 1)).add)
    }
}

/// The saturating sum of the `sub` counters of the first `k` days of the
/// week starting at `start`.
pub open spec fn week_sub_sum(m: Map<Date, DayCounts>, start: Date, k: int) -> u64
    decreases k,
{
    if k <= 0 {
        0
    } else {
        sat_add(week_sub_sum(m, start, k - 1), counts_for(m, shift_date(start, k - 1)).sub)
    }
}

/// How many days of the week starting at `start` have elapsed at the
/// anchor: none of a future week, all seven of a past week, and for the
/// week in progress the days up to and including the anchor.
pub open spec fn days_counted_spec(anchor: Date, start: Date) -> int {
    if day_number(anchor) < day_number(start) {
        0
    } else if day_number(anchor) > day_number(start) + 6 {
        7
    } else {
        day_number(anchor) - day_number(start) + 1
    }
}

/// What the `i`-th daily point must hold: the key of its date, that day's
/// stored counters (zero when absent), and their net.
pub open spec fn daily_point_ok(
    p: DailyPoint,
    m: Map<Date, DayCounts>,
    anchor: Date,
    i: int,
) -> bool {
    let d = daily_date(anchor, i);
    let c = counts_for(m, d);
    &&& p.date@ == date_key_chars(d)
    &&& p.add_count == c.add
    &&& p.sub_count == c.sub
    &&& p.net as int == net_of(c.add, c.sub)
}

/// What the `i`-th weekly totals point must hold: the week's label and
/// bounds, and the saturating sums of its seven days.
pub open spec fn weekly_point_ok(
    w: WeeklyPoint,
    m: Map<Date, DayCounts>,
    anchor: Date,
    i: int,
) -> bool {
    let start = week_slot_start(anchor, i);
    let a = week_add_sum(m, start, 7);
    let s = week_sub_sum(m, start, 7);
    &&& w.week@ == week_label_chars(start)
    &&& w.start_date@ == date_key_chars(start)
    &&& w.end_date@ == date_key_chars(shift_date(start, 6))
    &&& w.add_count == a
    &&& w.sub_count == s
    &&& w.net as int == net_of(a, s)
}

/// What the `i`-th weekly averages point must hold: the same label and
/// sums as the totals, over the days counted for that week.
pub open spec fn weekly_average_ok(
    w: WeeklyAveragePoint,
    m: Map<Date, DayCounts>,
    anchor: Date,
    i: int,
) -> bool {
    let start = week_slot_start(anchor, i);
    let a = week_add_sum(m, start, 7);
    let s = week_sub_sum(m, start, 7);
    &&& w.week@ == week_label_chars(start)
    &&& w.days_counted == days_counted_spec(anchor, start)
    &&& w.add_total == a
    &&& w.sub_total == s
    &&& w.net_total as int == net_of(a, s)
}

/// Every count and net of the response is zero, and with it every
/// average.
pub open spec fn stats_all_zero(r: StatsResponse) -> bool {
    &&& forall|i: int|
        0 <= i < r.last_7_days@.len() ==> {
            let p = #[trigger] r.last_7_days@[i];
            p.add_count == 0 && p.sub_count == 0 && p.net == 0
        }
    &&& forall|i: int|
        0 <= i < r.weekly_totals@.len() ==> {
            let w = #[trigger] r.weekly_totals@[i];
            w.add_count == 0 && w.sub_count == 0 && w.net == 0
        }
    &&& forall|i: int|
        0 <= i < r.weekly_averages@.len() ==> {
            let w = #[trigger] r.weekly_averages@[i];
            w.add_total == 0 && w.sub_total == 0 && w.net_total == 0
        }
}

/// An empty store sums to zero over any week.
proof fn lemma_week_sum_zero(m: Map<Date, DayCounts>, start: Date, k: int)
    requires
        m == Map::<Date, DayCounts>::empty(),
    ensures
        week_add_sum(m, start, k) == 0,
        week_sub_sum(m, start, k) == 0,
    decreases k,
{
    if k > 0 {
        lemma_week_sum_zero(m, start, k - 1);
    }
}

/// Projects a store snapshot into the three time series at the given
/// anchor date: seven daily points ending at the anchor, and the totals
/// and per-day averages of the eight ISO weeks up to the one containing
/// the anchor. Pure: reads nothing but its arguments.
pub fn build_stats_at(today: Date, data: &AppData) -> (r: StatsResponse)
    requires
        data.wf(),
        date_valid(today),
        today.year <= 9998,
        day_number(today) >= 55,
    ensures
        r.last_7_days@.len() == 7,
        forall|i: int| 0 <= i < 7 ==> daily_point_ok(#[trigger] r.last_7_days@[i], data.as_map(), today, i),
        r.weekly_totals@.len() == 8,
        forall|i: int|
            0 <= i < 8 ==> weekly_point_ok(#[trigger] r.weekly_totals@[i], data.as_map(), today, i),
        r.weekly_averages@.len() == 8,
        forall|i: int|
            0 <= i < 8 ==> weekly_average_ok(
                #[trigger] r.weekly_averages@[i],
                data.as_map(),
                today,
                i,
            ),
        // the week containing the anchor counts the days up to the anchor;
        // every earlier reported week counts all seven of its days
        forall|i: int| 0 <= i < 7 ==> (#[trigger] r.weekly_averages@[i]).days_counted == 7,
        r.weekly_averages@[7].days_counted == weekday_of(today) + 1,
        // an empty store projects to all-zero series
        data.as_map() == Map::<Date, DayCounts>::empty() ==> stats_all_zero(r),
{
    proof {
        lemma_day_number_bounds(today);
    }
    let ghost m = data.as_map();
    let mut last_7_days: Vec<DailyPoint> = Vec::new();
    let mut i: usize = 0;
    while i < 7
        invariant
            data.wf(),
            m == data.as_map(),
            date_valid(today),
            day_number(today) >= 55,
            day_number(today) + 365 <= MAX_DAY_NUMBER,
            i <= 7,
            last_7_days@.len() == i,
            forall|j: int| 0 <= j < i ==> daily_point_ok(#[trigger] last_7_days@[j], m, today, j),
        decreases 7 - i,
    {
        let date = minus_days(today, (6 - i) as u32);
        let c = data.get(date);
        let net = net_value(c.add, c.sub);
        last_7_days.push(
            DailyPoint { date: date_key(date), add_count: c.add, sub_count: c.sub, net },
        );
        i = i + 1;
    }

    let current_week_start = week_start(today);
    let ghost wd = weekday_of(today);
    let mut weekly_totals: Vec<WeeklyPoint> = Vec::new();
    let mut weekly_averages: Vec<WeeklyAveragePoint> = Vec::new();
    let mut slot: usize = 0;
    while slot < 8
        invariant
            data.wf(),
            m == data.as_map(),
            date_valid(today),
            day_number(today) >= 55,
            day_number(today) + 365 <= MAX_DAY_NUMBER,
            today.year <= 9998,
            current_week_start == week_start_date(today),
            date_valid(current_week_start),
            wd == weekday_of(today),
            day_number(current_week_start) == day_number(today) - wd,
            0 <= wd < 7,
            slot <= 8,
            weekly_totals@.len() == slot,
            weekly_averages@.len() == slot,
            forall|j: int| 0 <= j < slot ==> weekly_point_ok(#[trigger] weekly_totals@[j], m, today, j),
            forall|j: int|
                0 <= j < slot ==> weekly_average_ok(#[trigger] weekly_averages@[j], m, today, j),
            forall|j: int| 0 <= j < slot && j < 7 ==> (#[trigger] weekly_averages@[j]).days_counted == 7,
            slot == 8 ==> weekly_averages@[7].days_counted == wd + 1,
        decreases 8 - slot,
    {
        let start = minus_days(current_week_start, (7 * (7 - slot)) as u32);
        proof {
            // the week start is at most the anchor, so its year stays
            // within the labelable range
            lemma_day_number_year_lower(start);
            lemma_day_number_bounds(start);
            if start.year == 9999 {
                assert(days_before_year(9999) == 3651694);
                assert(false);
            }
        }
        let end = plus_days(start, 6);

        let mut add_sum: u64 = 0;
        let mut sub_sum: u64 = 0;
        let mut k: usize = 0;
        while k < 7
            invariant
                data.wf(),
                m == data.as_map(),
                date_valid(start),
                day_number(start) + 7 <= MAX_DAY_NUMBER,
                k <= 7,
                add_sum == week_add_sum(m, start, k as int),
                sub_sum == week_sub_sum(m, start, k as int),
            decreases 7 - k,
        {
            let date = plus_days(start, k as u32);
            let c = data.get(date);
            add_sum = add_sum.saturating_add(c.add);
            sub_sum = sub_sum.saturating_add(c.sub);
            k = k + 1;
        }

        let net = net_value(add_sum, sub_sum);
        let anchor_n = day_number_exec(today);
        let start_n = day_number_exec(start);
        let days_counted: u8 = if anchor_n < start_n {
            0
        } else if anchor_n > start_n + 6 {
            7
        } else {
            (anchor_n - start_n + 1) as u8
        };

        weekly_totals.push(
            WeeklyPoint {
                week: week_label(start),
                start_date: date_key(start),
                end_date: date_key(end),
                add_count: add_sum,
                sub_count: sub_sum,
                net,
            },
        );
        weekly_averages.push(
            WeeklyAveragePoint {
                week: week_label(start),
                days_counted,
                add_total: add_sum,
                sub_total: sub_sum,
                net_total: net,
            },
        );
        slot = slot + 1;
    }

    proof {
        if m == Map::<Date, DayCounts>::empty() {
            assert forall|j: int| 0 <= j < 8 implies week_add_sum(
                m,
                week_slot_start(today, j),
                7,
            ) == 0 && week_sub_sum(m, week_slot_start(today, j), 7) == 0 by {
                lemma_week_sum_zero(m, week_slot_start(today, j), 7);
            }
        }
    }

    StatsResponse { last_7_days, weekly_totals, weekly_averages }
}

} // verus!
