//! The data the counter service works with: per-day counters, the click
//! actions that mutate them, and the points of the derived time series.

use vstd::prelude::*;

verus! {

/// Saturating add/sub counters for one calendar day.
#[derive(Clone, Copy, Debug, PartialEq, Eq, Structural)]
pub struct DayCounts {
    pub add: u64,
    pub sub: u64,
}

impl DayCounts {
    pub open spec fn zero() -> DayCounts {
        DayCounts { add: 0, sub: 0 }
    }
}

impl Default for DayCounts {
    /// The counts of a day nothing has happened on.
    fn default() -> (r: DayCounts)
        ensures
            r == DayCounts::zero(),
    {
        DayCounts { add: 0, sub: 0 }
    }
}

/// The two mutations a day's counters admit. Every other requested action
/// is rejected before it reaches the store.
#[derive(Clone, Copy, Debug, PartialEq, Eq, Structural)]
pub enum ClickAction {
    Add,
    Sub,
}

/// A click request from the wire; its `action` field still has to be
/// validated into a [`ClickAction`].
#[derive(Debug)]
pub struct ClickRequest {
    pub action: String,
}

/// The whitespace characters the action field may be padded with.
pub open spec fn is_ws_char(c: char) -> bool {
    c == ' ' || c == '\t' || c == '\n' || c == '\r'
}

pub open spec fn trim_front_chars(s: Seq<char>) -> Seq<char>
    decreases s.len(),
{
    if s.len() > 0 && is_ws_char(s[0]) {
        trim_front_chars(s.drop_first())
    } else {
        s
    }
}

pub open spec fn trim_back_chars(s: Seq<char>) -> Seq<char>
    decreases s.len(),
{
    if s.len() > 0 && is_ws_char(s.last()) {
        trim_back_chars(s.drop_last())
    } else {
        s
    }
}

/// The text with its surrounding whitespace dropped.
pub open spec fn trimmed_chars(s: Seq<char>) -> Seq<char> {
    trim_back_chars(trim_front_chars(s))
}

/// The click a requested action names: exactly `add` or `sub` once its
/// surrounding whitespace is dropped, and nothing else.
pub open spec fn action_of(s: Seq<char>) -> Option<ClickAction> {
    if trimmed_chars(s) == "add"@ {
        Some(ClickAction::Add)
    } else if trimmed_chars(s) == "sub"@ {
        Some(ClickAction::Sub)
    } else {
        None
    }
}

/// Validates a requested action into a click, rejecting everything but
/// `add` and `sub` (with surrounding whitespace tolerated).
pub fn parse_action(s: &str) -> (r: Option<ClickAction>)
    ensures
        r == action_of(s@),
{
    let v = crate::keys::str_to_chars(s);
    let n = v.len();
    let mut a: usize = 0;
    proof {
        assert(v@.skip(0) =~= v@);
    }
    loop
        invariant
            v@ == s@,
            n == v@.len(),
            a <= n,
            trim_front_chars(s@) == trim_front_chars(v@.skip(a as int)),
        ensures
            a <= n,
            v@ == s@,
            n == v@.len(),
            trim_front_chars(s@) == v@.skip(a as int),
        decreases n - a,
    {
        if a == n {
            proof {
                assert(v@.skip(a as int) =~= Seq::<char>::empty());
            }
            break ;
        }
        let c = v[a];
        if !(c == ' ' || c == '\t' || c == '\n' || c == '\r') {
            break ;
        }
        proof {
            assert(v@.skip(a as int).drop_first() =~= v@.skip(a + 1));
        }
        a = a + 1;
    }
    let mut b: usize = n;
    proof {
        assert(v@.skip(a as int).take(n - a as int) =~= v@.skip(a as int));
    }
    loop
        invariant
            v@ == s@,
            n == v@.len(),
            a <= b <= n,
            trim_front_chars(s@) == v@.skip(a as int),
            trim_back_chars(v@.skip(a as int)) == trim_back_chars(
                v@.skip(a as int).take(b - a),
            ),
        ensures
            a <= b <= n,
            v@ == s@,
            n == v@.len(),
            trimmed_chars(s@) == v@.subrange(a as int, b as int),
        decreases b - a,
    {
        let ghost t = v@.skip(a as int).take(b - a);
        if b == a {
            proof {
                assert(trimmed_chars(s@) =~= v@.subrange(a as int, b as int));
            }
            break ;
        }
        let c = v[b - 1];
        if !(c == ' ' || c == '\t' || c == '\n' || c == '\r') {
            proof {
                assert(t.last() == v@[b - 1]);
                assert(t =~= v@.subrange(a as int, b as int));
            }
            break ;
        }
        proof {
            assert(t.last() == v@[b - 1]);
            assert(t.drop_last() =~= v@.skip(a as int).take(b - 1 - a));
        }
        b = b - 1;
    }
    proof {
        reveal_strlit("add");
        reveal_strlit("sub");
    }
    if b - a != 3 {
        return None;
    }
    let c0 = v[a];
    let c1 = v[a + 1];
    let c2 = v[a + 2];
    proof {
        assert(trimmed_chars(s@)[0] == v@[a as int]);
        assert(trimmed_chars(s@)[1] == v@[a + 1]);
        assert(trimmed_chars(s@)[2] == v@[a + 2]);
    }
    if c0 == 'a' && c1 == 'd' && c2 == 'd' {
        proof {
            assert(trimmed_chars(s@) =~= "add"@);
        }
        Some(ClickAction::Add)
    } else if c0 == 's' && c1 == 'u' && c2 == 'b' {
        proof {
            assert(trimmed_chars(s@) =~= "sub"@);
        }
        Some(ClickAction::Sub)
    } else {
        None
    }
}

/// Saturating addition on 64-bit counters.
pub open spec fn sat_add(a: u64, b: u64) -> u64 {
    if a + b > u64::MAX {
        u64::MAX
    } else {
        (a + b) as u64
    }
}

/// The value `x` reduced into the range of `i64` modulo `2^64`: the net of
/// two 64-bit counters as the service reports it.
pub open spec fn wrap_i64(x: int) -> int {
    if x < -0x8000000000000000 {
        x + 0x10000000000000000
    } else if x > 0x7fffffffffffffff {
        x - 0x10000000000000000
    } else {
        x
    }
}

/// The reported net of a day: `add - sub` as a signed 64-bit value.
pub open spec fn net_of(add: u64, sub: u64) -> int {
    wrap_i64(add - sub)
}

/// Computes the net of a day's counters. For counters within the signed
/// range this is exactly `add - sub`; beyond it the difference wraps, as
/// 64-bit casts do.
pub fn net_value(add: u64, sub: u64) -> (r: i64)
    ensures
        r as int == net_of(add, sub),
        add <= i64::MAX && sub <= i64::MAX ==> r == add - sub,
{
    if add >= sub {
        let diff: u64 = add - sub;
        if diff <= 0x7fffffffffffffff {
            diff as i64
        } else {
            (diff - 0x8000000000000000) as i64 + i64::MIN
        }
    } else {
        let diff: u64 = sub - add;
        if diff <= 0x7fffffffffffffff {
            -(diff as i64)
        } else if diff == 0x8000000000000000 {
            i64::MIN
        } else {
            ((0xffffffffffffffff - diff) + 1) as i64
        }
    }
}

/// One day of the `last_7_days` series.
#[derive(Clone, Debug)]
pub struct DailyPoint {
    pub date: String,
    pub add_count: u64,
    pub sub_count: u64,
    pub net: i64,
}

/// Totals over one Monday-to-Sunday week.
#[derive(Clone, Debug)]
pub struct WeeklyPoint {
    pub week: String,
    pub start_date: String,
    pub end_date: String,
    pub add_count: u64,
    pub sub_count: u64,
    pub net: i64,
}

/// Per-day averages over one week, kept as exact totals over a denominator
/// so the average stays a precise rational: `avg_add` of the week is
/// `add_total / denominator()`, and likewise for the other two.
#[derive(Clone, Debug)]
pub struct WeeklyAveragePoint {
    pub week: String,
    pub days_counted: u8,
    pub add_total: u64,
    pub sub_total: u64,
    pub net_total: i64,
}

impl WeeklyAveragePoint {
    /// The divisor of the averages: the days counted, or 1 for a week with
    /// none, so that an empty week averages to zero rather than dividing
    /// by zero.
    pub fn denominator(&self) -> (r: u8)
        ensures
            r == if self.days_counted == 0 {
                1u8
            } else {
                self.days_counted
            },
            r >= 1,
    {
        if self.days_counted == 0 {
            1
        } else {
            self.days_counted
        }
    }
}

/// The full payload of a stats query.
#[derive(Clone, Debug)]
pub struct StatsResponse {
    pub last_7_days: Vec<DailyPoint>,
    pub weekly_totals: Vec<WeeklyPoint>,
    pub weekly_averages: Vec<WeeklyAveragePoint>,
}

/// The wire form of one day's counters.
#[derive(Clone, Debug)]
pub struct DailyCountsResponse {
    pub date: String,
    pub add_count: u64,
    pub sub_count: u64,
    pub net: i64,
}

/// Packs a day's counters and its date key into a wire response.
pub fn to_response(date: String, counts: DayCounts) -> (r: DailyCountsResponse)
    ensures
        r.date == date,
        r.add_count == counts.add,
        r.sub_count == counts.sub,
        r.net as int == net_of(counts.add, counts.sub),
{
    let net = net_value(counts.add, counts.sub);
    DailyCountsResponse { date, add_count: counts.add, sub_count: counts.sub, net }
}

} // verus!
