//! The day-keyed counter store: a map from calendar day to its counters,
//! kept as a vector sorted by date, with atomic read and increment
//! operations.

use vstd::prelude::*;

use crate::calendar::{date_valid, day_number, day_number_exec, lemma_day_number_injective, Date};
use crate::models::{sat_add, ClickAction, DayCounts};

verus! {

/// One persisted day of the store.
pub type DayEntry = (Date, DayCounts);

pub open spec fn seq_has_date(s: Seq<DayEntry>, d: Date) -> bool {
    exists|i: int| 0 <= i < s.len() && s[i].0 == d
}

pub open spec fn seq_index_of(s: Seq<DayEntry>, d: Date) -> int {
    choose|i: int| 0 <= i < s.len() && s[i].0 == d
}

/// The mapping from day to counters that a sequence of entries denotes.
pub open spec fn map_of_seq(s: Seq<DayEntry>) -> Map<Date, DayCounts> {
    Map::new(|d: Date| seq_has_date(s, d), |d: Date| s[seq_index_of(s, d)].1)
}

/// Entries hold valid dates and are strictly sorted by date, oldest first;
/// in particular each day occurs at most once.
pub open spec fn entries_wf(s: Seq<DayEntry>) -> bool {
    &&& forall|i: int| 0 <= i < s.len() ==> date_valid((#[trigger] s[i]).0)
    &&& forall|i: int, j: int|
        0 <= i < j < s.len() ==> day_number(#[trigger] s[i].0) < day_number(#[trigger] s[j].0)
}

/// Strict sorting leaves no room for a repeated day.
proof fn lemma_entries_unique(s: Seq<DayEntry>, i: int, j: int)
    requires
        entries_wf(s),
        0 <= i < s.len(),
        0 <= j < s.len(),
        s[i].0 == s[j].0,
    ensures
        i == j,
{
}

/// A date found at index `i` of a well-formed sequence is found there by
/// the map view as well.
pub(crate) proof fn lemma_map_of_seq_at(s: Seq<DayEntry>, i: int)
    requires
        entries_wf(s),
        0 <= i < s.len(),
    ensures
        seq_has_date(s, s[i].0),
        seq_index_of(s, s[i].0) == i,
        map_of_seq(s).contains_key(s[i].0),
        map_of_seq(s)[s[i].0] == s[i].1,
{
    assert(seq_has_date(s, s[i].0));
    let k = seq_index_of(s, s[i].0);
    lemma_entries_unique(s, k, i);
}

/// Overwriting the counters at index `i` is, to the map view, an insert of
/// the same day.
proof fn lemma_map_of_seq_update(s: Seq<DayEntry>, i: int, c: DayCounts)
    requires
        entries_wf(s),
        0 <= i < s.len(),
    ensures
        entries_wf(s.update(i, (s[i].0, c))),
        map_of_seq(s.update(i, (s[i].0, c))) == map_of_seq(s).insert(s[i].0, c),
{
    let d = s[i].0;
    let s2 = s.update(i, (d, c));
    let m1 = map_of_seq(s).insert(d, c);
    let m2 = map_of_seq(s2);
    lemma_map_of_seq_at(s, i);
    assert forall|x: Date| seq_has_date(s2, x) implies seq_has_date(s, x) by {
        let j = choose|j: int| 0 <= j < s2.len() && s2[j].0 == x;
        assert(s[j].0 == x);
    }
    assert forall|x: Date| seq_has_date(s, x) implies seq_has_date(s2, x) by {
        let j = choose|j: int| 0 <= j < s.len() && s[j].0 == x;
        assert(s2[j].0 == x);
    }
    assert forall|x: Date| m2.contains_key(x) implies #[trigger] m2[x] == m1[x] by {
        lemma_map_of_seq_at(s2, i);
        if x == d {
            assert(m2[x] == c);
        } else {
            let j = seq_index_of(s, x);
            assert(0 <= j < s.len() && s[j].0 == x);
            assert(j != i);
            lemma_map_of_seq_at(s2, j);
            lemma_map_of_seq_at(s, j);
        }
    }
    assert(m2 =~= m1);
}

/// Inserting an entry for a day the sequence lacks, at the position its
/// date orders it to, inserts that day into the map view.
proof fn lemma_map_of_seq_insert(s: Seq<DayEntry>, i: int, e: DayEntry)
    requires
        entries_wf(s),
        0 <= i <= s.len(),
        date_valid(e.0),
        forall|j: int| 0 <= j < i ==> day_number((#[trigger] s[j]).0) < day_number(e.0),
        forall|j: int| i <= j < s.len() ==> day_number(e.0) < day_number((#[trigger] s[j]).0),
    ensures
        entries_wf(s.insert(i, e)),
        map_of_seq(s.insert(i, e)) == map_of_seq(s).insert(e.0, e.1),
{
    let s2 = s.insert(i, e);
    let m1 = map_of_seq(s).insert(e.0, e.1);
    let m2 = map_of_seq(s2);
    s.insert_ensures(i, e);
    assert(entries_wf(s2));
    assert forall|x: Date| seq_has_date(s2, x) implies m1.contains_key(x) by {
        let j = choose|j: int| 0 <= j < s2.len() && s2[j].0 == x;
        if j < i {
            assert(s[j].0 == x);
        } else if j > i {
            assert(s[j - 1].0 == x);
        }
    }
    assert forall|x: Date| m1.contains_key(x) implies seq_has_date(s2, x) by {
        if x == e.0 {
            assert(s2[i].0 == x);
        } else {
            let j = choose|j: int| 0 <= j < s.len() && s[j].0 == x;
            if j < i {
                assert(s2[j].0 == x);
            } else {
                assert(s2[j + 1].0 == x);
            }
        }
    }
    assert forall|x: Date| m2.contains_key(x) implies #[trigger] m2[x] == m1[x] by {
        if x == e.0 {
            lemma_map_of_seq_at(s2, i);
        } else {
            let j = choose|j: int| 0 <= j < s.len() && s[j].0 == x;
            if j < i {
                lemma_map_of_seq_at(s2, j);
                lemma_map_of_seq_at(s, j);
            } else {
                lemma_map_of_seq_at(s2, j + 1);
                lemma_map_of_seq_at(s, j);
            }
        }
    }
    assert(m2 =~= m1);
}

/// The counters a store maps a day to: the stored value, or zero for a day
/// the store has no entry for.
pub open spec fn counts_for(m: Map<Date, DayCounts>, d: Date) -> DayCounts {
    if m.contains_key(d) {
        m[d]
    } else {
        DayCounts::zero()
    }
}

/// What one click does to a day's counters: the selected counter grows by
/// one, saturating at the 64-bit maximum.
pub open spec fn apply_click_spec(c: DayCounts, a: ClickAction) -> DayCounts {
    match a {
        ClickAction::Add => DayCounts { add: sat_add(c.add, 1), sub: c.sub },
        ClickAction::Sub => DayCounts { add: c.add, sub: sat_add(c.sub, 1) },
    }
}

/// The in-memory store of all per-day counters.
#[derive(Clone, Debug)]
pub struct AppData {
    pub days: Vec<DayEntry>,
}

impl AppData {
    /// The mapping from day to counters that the store holds.
    pub open spec fn as_map(self) -> Map<Date, DayCounts> {
        map_of_seq(self.days@)
    }

    pub open spec fn wf(self) -> bool {
        entries_wf(self.days@)
    }

    /// An empty store: no day has any counts yet.
    pub fn new() -> (r: AppData)
        ensures
            r.wf(),
            r.days@.len() == 0,
            r.as_map() == Map::<Date, DayCounts>::empty(),
    {
        let r = AppData { days: Vec::new() };
        proof {
            assert(r.as_map() =~= Map::<Date, DayCounts>::empty());
        }
        r
    }

    /// Reads the counters of one day; a day without an entry reads as
    /// zero. Never fails and never mutates.
    pub fn get(&self, d: Date) -> (r: DayCounts)
        requires
            self.wf(),
        ensures
            r == counts_for(self.as_map(), d),
    {
        let n = self.days.len();
        let mut i: usize = 0;
        while i < n
            invariant
                n == self.days@.len(),
                i <= n,
                self.wf(),
                forall|j: int| 0 <= j < i ==> (#[trigger] self.days@[j]).0 != d,
            decreases n - i,
        {
            let entry = self.days[i];
            if entry.0 == d {
                proof {
                    lemma_map_of_seq_at(self.days@, i as int);
                }
                return entry.1;
            }
            i = i + 1;
        }
        assert(!seq_has_date(self.days@, d));
        DayCounts { add: 0, sub: 0 }
    }

    /// Applies one click to the given day, creating its entry if absent,
    /// and returns the day's counters after the click. The rest of the
    /// store is untouched.
    pub fn increment(&mut self, date: Date, action: ClickAction) -> (r: DayCounts)
        requires
            old(self).wf(),
            date_valid(date),
        ensures
            final(self).wf(),
            r == apply_click_spec(counts_for(old(self).as_map(), date), action),
            final(self).as_map() == old(self).as_map().insert(date, r),
    {
        let target = day_number_exec(date);
        let i = find_at_or_after(&self.days, target);
        if i < self.days.len() && self.days[i].0 == date {
            proof {
                lemma_map_of_seq_at(self.days@, i as int);
            }
            let updated = apply_click(self.days[i].1, action);
            proof {
                lemma_map_of_seq_update(self.days@, i as int, updated);
            }
            self.days.set(i, (date, updated));
            updated
        } else {
            proof {
                // every entry at or past `i` is strictly later than `date`:
                // at `i` the day numbers differ because the dates do
                if i < self.days@.len() && day_number(self.days@[i as int].0) == day_number(
                    date,
                ) {
                    lemma_day_number_injective(self.days@[i as int].0, date);
                }
                assert forall|j: int| i <= j < self.days@.len() implies day_number(date)
                    < day_number((#[trigger] self.days@[j]).0) by {
                    if j > i {
                        assert(day_number(self.days@[i as int].0) < day_number(self.days@[j].0));
                    }
                }
                assert(!seq_has_date(self.days@, date)) by {
                    if seq_has_date(self.days@, date) {
                        let k = seq_index_of(self.days@, date);
                        assert(0 <= k < self.days@.len() && self.days@[k].0 == date);
                    }
                }
            }
            let fresh = apply_click(DayCounts { add: 0, sub: 0 }, action);
            proof {
                lemma_map_of_seq_insert(self.days@, i as int, (date, fresh));
            }
            self.days.insert(i, (date, fresh));
            fresh
        }
    }
}

/// The counters after a whole sequence of clicks on one day, applied
/// oldest first.
pub open spec fn apply_clicks_spec(c: DayCounts, actions: Seq<ClickAction>) -> DayCounts
    decreases actions.len(),
{
    if actions.len() == 0 {
        c
    } else {
        apply_click_spec(apply_clicks_spec(c, actions.drop_last()), actions.last())
    }
}

/// How many clicks of kind `a` a sequence holds.
pub open spec fn count_action(actions: Seq<ClickAction>, a: ClickAction) -> int
    decreases actions.len(),
{
    if actions.len() == 0 {
        0
    } else {
        count_action(actions.drop_last(), a) + if actions.last() == a {
            1int
        } else {
            0int
        }
    }
}

/// After any sequence of clicks on one day, each counter holds its
/// starting value plus the number of clicks of its kind, saturated at the
/// 64-bit maximum; the clicks of the other kind leave it alone.
pub proof fn lemma_click_sequence(c: DayCounts, actions: Seq<ClickAction>)
    ensures
        apply_clicks_spec(c, actions).add as int == if c.add + count_action(
            actions,
            ClickAction::Add,
        ) > u64::MAX {
            u64::MAX as int
        } else {
            c.add + count_action(actions, ClickAction::Add)
        },
        apply_clicks_spec(c, actions).sub as int == if c.sub + count_action(
            actions,
            ClickAction::Sub,
        ) > u64::MAX {
            u64::MAX as int
        } else {
            c.sub + count_action(actions, ClickAction::Sub)
        },
    decreases actions.len(),
{
    if actions.len() > 0 {
        lemma_click_sequence(c, actions.drop_last());
    }
}

/// Starting from an untouched day, `add - sub` after any sequence of
/// clicks is the number of add clicks minus the number of sub clicks,
/// each saturated at the 64-bit maximum.
pub proof fn lemma_click_sequence_net(actions: Seq<ClickAction>)
    ensures
        apply_clicks_spec(DayCounts::zero(), actions).add as int - apply_clicks_spec(
            DayCounts::zero(),
            actions,
        ).sub as int == (if count_action(actions, ClickAction::Add) > u64::MAX {
            u64::MAX as int
        } else {
            count_action(actions, ClickAction::Add)
        }) - (if count_action(actions, ClickAction::Sub) > u64::MAX {
            u64::MAX as int
        } else {
            count_action(actions, ClickAction::Sub)
        }),
{
    lemma_click_sequence(DayCounts::zero(), actions);
}

impl AppData {
    /// Overwrites (or creates) the entry of one day with the given
    /// counters, leaving every other day alone.
    pub fn set_counts(&mut self, date: Date, c: DayCounts)
        requires
            old(self).wf(),
            date_valid(date),
        ensures
            final(self).wf(),
            final(self).as_map() == old(self).as_map().insert(date, c),
    {
        let target = day_number_exec(date);
        let i = find_at_or_after(&self.days, target);
        if i < self.days.len() && self.days[i].0 == date {
            proof {
                lemma_map_of_seq_update(self.days@, i as int, c);
            }
            self.days.set(i, (date, c));
        } else {
            proof {
                if i < self.days@.len() && day_number(self.days@[i as int].0) == day_number(
                    date,
                ) {
                    lemma_day_number_injective(self.days@[i as int].0, date);
                }
                assert forall|j: int| i <= j < self.days@.len() implies day_number(date)
                    < day_number((#[trigger] self.days@[j]).0) by {
                    if j > i {
                        assert(day_number(self.days@[i as int].0) < day_number(self.days@[j].0));
                    }
                }
                lemma_map_of_seq_insert(self.days@, i as int, (date, c));
            }
            self.days.insert(i, (date, c));
        }
    }
}

/// Computes the counters after one click.
pub fn apply_click(c: DayCounts, action: ClickAction) -> (r: DayCounts)
    ensures
        r == apply_click_spec(c, action),
{
    match action {
        ClickAction::Add => DayCounts { add: c.add.saturating_add(1), sub: c.sub },
        ClickAction::Sub => DayCounts { add: c.add, sub: c.sub.saturating_add(1) },
    }
}

/// Finds the first index whose entry's day number is at or past `target`;
/// all earlier entries are strictly before it.
fn find_at_or_after(days: &Vec<DayEntry>, target: u64) -> (i: usize)
    requires
        entries_wf(days@),
    ensures
        i <= days@.len(),
        forall|j: int| 0 <= j < i ==> day_number((#[trigger] days@[j]).0) < target,
        i < days@.len() ==> day_number(days@[i as int].0) >= target,
{
    let n = days.len();
    let mut i: usize = 0;
    while i < n
        invariant
            n == days@.len(),
            i <= n,
            entries_wf(days@),
            forall|j: int| 0 <= j < i ==> day_number((#[trigger] days@[j]).0) < target,
        decreases n - i,
    {
        if day_number_exec(days[i].0) >= target {
            return i;
        }
        i = i + 1;
    }
    i
}

} // verus!
