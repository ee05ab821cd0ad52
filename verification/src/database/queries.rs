//! Activity segments as the sink stores them, and the queries over stored rows.

use vstd::prelude::*;
use vstd::seq_lib::{to_multiset_build, to_multiset_insert, to_multiset_len};
use crate::commands::get_current_time;
use crate::text::opt_chars;

verus! {

/// One durable activity segment: what was being done from `timestamp` on, for
/// `duration_seconds` seconds.
#[derive(Debug)]
pub struct Activity {
    /// The identity the store gave the segment; `None` until it is stored.
    pub id: Option<i64>,
    /// When the segment started, in seconds since the Unix epoch.
    pub timestamp: i64,
    pub app_name: String,
    pub window_title: Option<String>,
    pub duration_seconds: u32,
    pub is_idle: bool,
    pub category: Option<String>,
}

/// An activity segment as a mathematical value.
pub struct ActivityView {
    pub id: Option<i64>,
    pub timestamp: int,
    pub app_name: Seq<char>,
    pub window_title: Option<Seq<char>>,
    pub duration_seconds: nat,
    pub is_idle: bool,
    pub category: Option<Seq<char>>,
}

impl ActivityView {
    /// The instant at which the segment ends.
    pub open spec fn end(self) -> int {
        self.timestamp + self.duration_seconds
    }

    /// A segment is stored only if it lasts some time.
    pub open spec fn storable(self) -> bool {
        self.duration_seconds > 0
    }
}

impl View for Activity {
    type V = ActivityView;

    open spec fn view(&self) -> ActivityView {
        ActivityView {
            id: self.id,
            timestamp: self.timestamp as int,
            app_name: self.app_name@,
            window_title: opt_chars(self.window_title),
            duration_seconds: self.duration_seconds as nat,
            is_idle: self.is_idle,
            category: opt_chars(self.category),
        }
    }
}

/// The view of an optional segment.
pub open spec fn opt_activity_view(a: Option<Activity>) -> Option<ActivityView> {
    match a {
        Some(a) => Some(a@),
        None => None,
    }
}

/// A copy of an optional string.
fn clone_opt_string(s: &Option<String>) -> (copy: Option<String>)
    ensures
        opt_chars(copy) == opt_chars(*s),
{
    match s {
        Some(s) => Some(s.clone()),
        None => None,
    }
}

impl Clone for Activity {
    /// A copy of the segment.
    fn clone(&self) -> (copy: Activity)
        ensures
            copy@ == self@,
    {
        Activity {
            id: self.id,
            timestamp: self.timestamp,
            app_name: self.app_name.clone(),
            window_title: clone_opt_string(&self.window_title),
            duration_seconds: self.duration_seconds,
            is_idle: self.is_idle,
            category: clone_opt_string(&self.category),
        }
    }
}

/// Stored rows as mathematical values, in storage order.
pub open spec fn views(rows: Seq<Activity>) -> Seq<ActivityView> {
    rows.map_values(|a: Activity| a@)
}

/// The segments that start within `[start, end)`.
pub open spec fn starts_within(start: int, end: int) -> spec_fn(ActivityView) -> bool {
    |a: ActivityView| start <= a.timestamp < end
}

/// The segments that start at `t`.
pub open spec fn starts_at(t: int) -> spec_fn(ActivityView) -> bool {
    |a: ActivityView| a.timestamp == t
}

/// The rows that start within `[start, end)`, in storage order.
pub open spec fn range_of(rows: Seq<ActivityView>, start: int, end: int) -> Seq<ActivityView> {
    rows.filter(starts_within(start, end))
}

/// The rows are in ascending order of their start.
pub open spec fn sorted_by_start(rows: Seq<ActivityView>) -> bool {
    forall|i: int, j: int| 0 <= i <= j < rows.len() ==> rows[i].timestamp <= rows[j].timestamp
}

/// `sorted` holds exactly the segments of `rows`, in ascending order of their
/// start, and those that start at the same instant in the order of `rows`.
pub open spec fn is_sorted_by_start_of(sorted: Seq<ActivityView>, rows: Seq<ActivityView>) -> bool {
    &&& sorted_by_start(sorted)
    &&& sorted.to_multiset() == rows.to_multiset()
    &&& forall|t: int| #[trigger] sorted.filter(starts_at(t)) == rows.filter(starts_at(t))
}

/// The answer is unique: two sequences in ascending order of their start that
/// have the same length and hold, for every instant, the same segments that
/// start at it, in the same order, are the same sequence.
pub proof fn lemma_sorted_answer_is_unique(a: Seq<ActivityView>, b: Seq<ActivityView>)
    requires
        sorted_by_start(a),
        sorted_by_start(b),
        a.len() == b.len(),
        forall|t: int| #[trigger] a.filter(starts_at(t)) == b.filter(starts_at(t)),
    ensures
        a == b,
    decreases a.len(),
{
    if a.len() == 0 {
        assert(a =~= b);
    } else {
        let a0 = a.drop_last();
        let b0 = b.drop_last();
        let la = a.last();
        let lb = b.last();
        assert(a =~= a0.push(la));
        assert(b =~= b0.push(lb));
        assert forall|t: int| #[trigger]
            a.filter(starts_at(t)) == if la.timestamp == t {
                a0.filter(starts_at(t)).push(la)
            } else {
                a0.filter(starts_at(t))
            } by {
            a0.lemma_filter_push(la, starts_at(t));
        }
        assert forall|t: int| #[trigger]
            b.filter(starts_at(t)) == if lb.timestamp == t {
                b0.filter(starts_at(t)).push(lb)
            } else {
                b0.filter(starts_at(t))
            } by {
            b0.lemma_filter_push(lb, starts_at(t));
        }
        assert(la.timestamp <= lb.timestamp) by {
            let group = b.filter(starts_at(la.timestamp));
            assert(group == a.filter(starts_at(la.timestamp)));
            assert(group.last() == la);
            assert(group[group.len() - 1] == la);
            assert(group.contains(la));
            b.lemma_filter_contains_rev(starts_at(la.timestamp), la);
            let j = choose|j: int| 0 <= j < b.len() && b[j] == la;
            assert(b[j].timestamp <= b[b.len() - 1].timestamp);
        }
        assert(lb.timestamp <= la.timestamp) by {
            let group = a.filter(starts_at(lb.timestamp));
            assert(group == b.filter(starts_at(lb.timestamp)));
            assert(group.last() == lb);
            assert(group[group.len() - 1] == lb);
            assert(group.contains(lb));
            a.lemma_filter_contains_rev(starts_at(lb.timestamp), lb);
            let j = choose|j: int| 0 <= j < a.len() && a[j] == lb;
            assert(a[j].timestamp <= a[a.len() - 1].timestamp);
        }
        let last_start = la.timestamp;
        assert(a.filter(starts_at(last_start)).last() == la);
        assert(b.filter(starts_at(last_start)).last() == lb);
        assert forall|t: int| #[trigger] a0.filter(starts_at(t)) == b0.filter(starts_at(t)) by {
            assert(a.filter(starts_at(t)) == b.filter(starts_at(t)));
            if t == last_start {
                assert(a0.filter(starts_at(t)) =~= a.filter(starts_at(t)).drop_last());
                assert(b0.filter(starts_at(t)) =~= b.filter(starts_at(t)).drop_last());
            }
        }
        assert(sorted_by_start(a0)) by {
            assert forall|i: int, j: int| 0 <= i <= j < a0.len() implies a0[i].timestamp
                <= a0[j].timestamp by {
                assert(a0[i] == a[i] && a0[j] == a[j]);
            }
        }
        assert(sorted_by_start(b0)) by {
            assert forall|i: int, j: int| 0 <= i <= j < b0.len() implies b0[i].timestamp
                <= b0[j].timestamp by {
                assert(b0[i] == b[i] && b0[j] == b[j]);
            }
        }
        lemma_sorted_answer_is_unique(a0, b0);
    }
}

/// Rows that are stored in ascending order of their start are their own
/// answer: a query returns the rows of the range as they are stored.
pub proof fn lemma_sorted_rows_are_their_answer(
    sorted: Seq<ActivityView>,
    rows: Seq<ActivityView>,
)
    requires
        is_sorted_by_start_of(sorted, rows),
        sorted_by_start(rows),
    ensures
        sorted == rows,
{
    to_multiset_len(sorted);
    to_multiset_len(rows);
    lemma_sorted_answer_is_unique(sorted, rows);
}

/// The rows of a range of rows that are in ascending order of their start are
/// in that order too.
pub proof fn lemma_range_of_sorted_rows(rows: Seq<ActivityView>, start: int, end: int)
    requires
        sorted_by_start(rows),
    ensures
        sorted_by_start(range_of(rows, start, end)),
{
    let within = starts_within(start, end);
    let found = rows.filter(within);
    assert forall|i: int, j: int| 0 <= i <= j < found.len() implies found[i].timestamp
        <= found[j].timestamp by {
        lemma_filter_keeps_order(rows, within, i, j);
    }
}

/// A filter keeps the order of the rows: what comes earlier among the rows
/// that pass starts no later, where the rows are in ascending order of their start.
proof fn lemma_filter_keeps_order(
    rows: Seq<ActivityView>,
    keep: spec_fn(ActivityView) -> bool,
    i: int,
    j: int,
)
    requires
        sorted_by_start(rows),
        0 <= i <= j < rows.filter(keep).len(),
    ensures
        rows.filter(keep)[i].timestamp <= rows.filter(keep)[j].timestamp,
    decreases rows.len(),
{
    if rows.len() > 0 {
        let before = rows.drop_last();
        let last = rows.last();
        assert(rows =~= before.push(last));
        before.lemma_filter_push(last, keep);
        assert forall|x: int, y: int| 0 <= x <= y < before.len() implies before[x].timestamp
            <= before[y].timestamp by {
            assert(before[x] == rows[x] && before[y] == rows[y]);
        }
        let kept = before.filter(keep);
        if j < kept.len() {
            lemma_filter_keeps_order(before, keep, i, j);
        } else if i < kept.len() {
            assert(kept.contains(kept[i]));
            before.lemma_filter_contains_rev(keep, kept[i]);
            let x = choose|x: int| 0 <= x < before.len() && before[x] == kept[i];
            assert(before[x] == rows[x]);
            assert(rows[x].timestamp <= rows[rows.len() - 1].timestamp);
        }
    } else {
        assert(rows.filter(keep) =~= Seq::<ActivityView>::empty());
    }
}

/// Putting `a` behind the rows that start no later and before the rows that
/// start later keeps the order, adds `a` once, and puts it last among the rows
/// that start at the same instant.
proof fn lemma_insert_by_start(s: Seq<ActivityView>, p: int, a: ActivityView)
    requires
        sorted_by_start(s),
        0 <= p <= s.len(),
        forall|i: int| 0 <= i < p ==> s[i].timestamp <= a.timestamp,
        forall|i: int| p <= i < s.len() ==> s[i].timestamp > a.timestamp,
    ensures
        sorted_by_start(s.insert(p, a)),
        s.insert(p, a).to_multiset() == s.to_multiset().insert(a),
        forall|t: int| #[trigger]
            s.insert(p, a).filter(starts_at(t)) == if a.timestamp == t {
                s.filter(starts_at(t)).push(a)
            } else {
                s.filter(starts_at(t))
            },
{
    let r = s.insert(p, a);
    to_multiset_insert(s, p, a);
    assert forall|t: int| #[trigger]
        r.filter(starts_at(t)) == if a.timestamp == t {
            s.filter(starts_at(t)).push(a)
        } else {
            s.filter(starts_at(t))
        } by {
        let pred = starts_at(t);
        let head = s.take(p);
        let tail = s.skip(p);
        assert(s =~= head + tail);
        assert(r =~= head.push(a) + tail);
        Seq::filter_distributes_over_add(head, tail, pred);
        Seq::filter_distributes_over_add(head.push(a), tail, pred);
        head.lemma_filter_push(a, pred);
        if a.timestamp == t {
            assert(tail.all(|x: ActivityView| !pred(x))) by {
                assert forall|i: int| 0 <= i < tail.len() implies !pred(#[trigger] tail[i]) by {
                    assert(tail[i] == s[p + i]);
                }
            }
            tail.lemma_all_neg_filter_empty(pred);
            assert(tail.filter(pred) =~= Seq::<ActivityView>::empty());
            assert(head.filter(pred).push(a) + tail.filter(pred) =~= (head.filter(pred)
                + tail.filter(pred)).push(a));
        }
    }
}

/// Mapping rows to their views commutes with inserting a row.
proof fn lemma_views_insert(rows: Seq<Activity>, p: int, a: Activity)
    requires
        0 <= p <= rows.len(),
    ensures
        views(rows.insert(p, a)) == views(rows).insert(p, a@),
{
    assert(views(rows.insert(p, a)) =~= views(rows).insert(p, a@));
}

/// Mapping rows to their views commutes with taking one more row.
proof fn lemma_views_take_next(rows: Seq<Activity>, i: int)
    requires
        0 <= i < rows.len(),
    ensures
        views(rows.take(i + 1)) == views(rows.take(i)).push(rows[i]@),
{
    assert(views(rows.take(i + 1)) =~= views(rows.take(i)).push(rows[i]@));
}

/// The views of no rows and of all rows.
proof fn lemma_views_take_ends(rows: Seq<Activity>)
    ensures
        views(rows.take(0)) == Seq::<ActivityView>::empty(),
        views(rows.take(rows.len() as int)) == views(rows),
{
    assert(views(rows.take(0)) =~= Seq::<ActivityView>::empty());
    assert(rows.take(rows.len() as int) =~= rows);
}

/// Puts `a` into rows that are in ascending order of their start: behind
/// every row that starts no later than `a`.
fn insert_by_start(sorted: &mut Vec<Activity>, a: Activity)
    requires
        sorted_by_start(views(old(sorted)@)),
    ensures
        sorted_by_start(views(final(sorted)@)),
        views(final(sorted)@).to_multiset() == views(old(sorted)@).to_multiset().insert(a@),
        forall|t: int| #[trigger]
            views(final(sorted)@).filter(starts_at(t)) == if a@.timestamp == t {
                views(old(sorted)@).filter(starts_at(t)).push(a@)
            } else {
                views(old(sorted)@).filter(starts_at(t))
            },
{
    let mut p: usize = sorted.len();
    while p > 0 && sorted[p - 1].timestamp > a.timestamp
        invariant
            p <= sorted.len(),
            forall|i: int| p <= i < sorted.len() ==> sorted@[i].timestamp > a.timestamp,
        decreases p,
    {
        p -= 1;
    }
    proof {
        let s = views(sorted@);
        assert forall|i: int| 0 <= i < p implies s[i].timestamp <= a@.timestamp by {
            assert(s[i].timestamp <= s[p - 1].timestamp);
        }
        assert forall|i: int| p <= i < s.len() implies s[i].timestamp > a@.timestamp by {
            assert(s[i] == sorted@[i]@);
        }
        lemma_insert_by_start(s, p as int, a@);
        lemma_views_insert(sorted@, p as int, a);
    }
    sorted.insert(p, a);
}

/// The stored segments that start within `[start_timestamp, end_timestamp)`,
/// in ascending order of their start; segments that start at the same instant
/// come in storage order. Where the rows are stored in ascending order of
/// their start, these are the rows of the range as they are stored.
pub fn get_activities_by_date_range(
    rows: &Vec<Activity>,
    start_timestamp: i64,
    end_timestamp: i64,
) -> (found: Vec<Activity>)
    ensures
        is_sorted_by_start_of(
            views(found@),
            range_of(views(rows@), start_timestamp as int, end_timestamp as int),
        ),
        found@.len() == range_of(
            views(rows@),
            start_timestamp as int,
            end_timestamp as int,
        ).len(),
        forall|i: int|
            0 <= i < found@.len() ==> start_timestamp <= (#[trigger] found@[i]).timestamp
                < end_timestamp,
        sorted_by_start(views(rows@)) ==> views(found@) == range_of(
            views(rows@),
            start_timestamp as int,
            end_timestamp as int,
        ),
{
    let ghost within = starts_within(start_timestamp as int, end_timestamp as int);
    let mut found: Vec<Activity> = Vec::new();
    let mut i: usize = 0;
    proof {
        lemma_views_take_ends(rows@);
        assert(views(found@) =~= Seq::<ActivityView>::empty());
        assert(views(rows@.take(0)).filter(within) =~= Seq::<ActivityView>::empty());
        assert forall|t: int| #[trigger]
            views(found@).filter(starts_at(t)) == views(rows@.take(0)).filter(within).filter(
                starts_at(t),
            ) by {
            assert(views(found@).filter(starts_at(t)) =~= Seq::<ActivityView>::empty());
            assert(views(rows@.take(0)).filter(within).filter(starts_at(t))
                =~= Seq::<ActivityView>::empty());
        }
    }
    while i < rows.len()
        invariant
            i <= rows.len(),
            within == starts_within(start_timestamp as int, end_timestamp as int),
            is_sorted_by_start_of(views(found@), views(rows@.take(i as int)).filter(within)),
        decreases rows.len() - i,
    {
        let ghost before = views(rows@.take(i as int)).filter(within);
        let ghost old_found = views(found@);
        proof {
            lemma_views_take_next(rows@, i as int);
            views(rows@.take(i as int)).lemma_filter_push(rows@[i as int]@, within);
        }
        if start_timestamp <= rows[i].timestamp && rows[i].timestamp < end_timestamp {
            let a = rows[i].clone();
            insert_by_start(&mut found, a);
            proof {
                let next = before.push(a@);
                to_multiset_build(before, a@);
                assert forall|t: int| #[trigger]
                    views(found@).filter(starts_at(t)) == next.filter(starts_at(t)) by {
                    before.lemma_filter_push(a@, starts_at(t));
                    assert(old_found.filter(starts_at(t)) == before.filter(starts_at(t)));
                }
            }
        }
        i += 1;
    }
    proof {
        lemma_views_take_ends(rows@);
        let answer = views(found@);
        let range = range_of(views(rows@), start_timestamp as int, end_timestamp as int);
        to_multiset_len(answer);
        to_multiset_len(range);
        assert forall|i: int| 0 <= i < found@.len() implies start_timestamp <= (
        #[trigger] found@[i]).timestamp < end_timestamp by {
            answer.lemma_filter_contains(starts_at(answer[i].timestamp), i);
            assert(range.filter(starts_at(answer[i].timestamp)).contains(answer[i]));
            range.lemma_filter_contains_rev(starts_at(answer[i].timestamp), answer[i]);
            views(rows@).lemma_filter_contains_rev(within, answer[i]);
            let j = choose|j: int| 0 <= j < range.len() && range[j] == answer[i];
            views(rows@).lemma_filter_pred(within, j);
        }
        if sorted_by_start(views(rows@)) {
            lemma_range_of_sorted_rows(views(rows@), start_timestamp as int, end_timestamp as int);
            lemma_sorted_rows_are_their_answer(answer, range);
        }
    }
    found
}

/// Totals over the segments stored since an instant.
#[derive(Debug, Clone, Copy, PartialEq, Eq, Structural)]
pub struct TodayStats {
    /// The seconds spent in segments that are not idle.
    pub active_time_seconds: i64,
    /// The seconds spent in idle segments.
    pub idle_time_seconds: i64,
    /// The number of different applications seen.
    pub context_switches: i64,
}

/// The segments that start at `since` or later.
pub open spec fn starts_since(since: int) -> spec_fn(ActivityView) -> bool {
    |a: ActivityView| a.timestamp >= since
}

/// The sum of the durations of the rows that start at `since` or later and are
/// idle, or not idle, as `idle` says.
pub open spec fn seconds_since(rows: Seq<ActivityView>, since: int, idle: bool) -> int
    decreases rows.len(),
{
    if rows.len() == 0 {
        0
    } else {
        let last = rows.last();
        seconds_since(rows.drop_last(), since, idle) + if last.timestamp >= since && last.is_idle
            == idle {
            last.duration_seconds as int
        } else {
            0
        }
    }
}

/// The application names of the rows that start at `since` or later.
pub open spec fn apps_since(rows: Seq<ActivityView>, since: int) -> Set<Seq<char>> {
    rows.filter(starts_since(since)).map_values(|a: ActivityView| a.app_name).to_set()
}

/// The totals over the rows that start at `since` or later; `None` where one
/// of them does not fit its field.
pub open spec fn stats_of(rows: Seq<ActivityView>, since: int) -> Option<TodayStats> {
    let active = seconds_since(rows, since, false);
    let idle = seconds_since(rows, since, true);
    let apps = apps_since(rows, since).len();
    if active <= i64::MAX && idle <= i64::MAX && apps <= i64::MAX {
        Some(
            TodayStats {
                active_time_seconds: active as i64,
                idle_time_seconds: idle as i64,
                context_switches: apps as i64,
            },
        )
    } else {
        None
    }
}

/// The characters of each of some strings.
pub open spec fn chars_of(names: Seq<String>) -> Seq<Seq<char>> {
    names.map_values(|s: String| s@)
}

/// Whether `name` is among `names`.
fn contains_name(names: &Vec<String>, name: &String) -> (found: bool)
    ensures
        found == chars_of(names@).contains(name@),
{
    let mut i: usize = 0;
    while i < names.len()
        invariant
            i <= names.len(),
            forall|j: int| 0 <= j < i ==> chars_of(names@)[j] != name@,
        decreases names.len() - i,
    {
        if names[i].eq(name) {
            assert(chars_of(names@)[i as int] == name@);
            return true;
        }
        i += 1;
    }
    false
}

/// The totals over the stored segments that start at `since` or later: the
/// seconds of those that are not idle, the seconds of those that are, and
/// the number of different applications among them. `None` where a total
/// does not fit its field.
pub fn get_stats_since(rows: &Vec<Activity>, since: i64) -> (stats: Option<TodayStats>)
    ensures
        stats == stats_of(views(rows@), since as int),
{
    let ghost recent = starts_since(since as int);
    let ghost name = |a: ActivityView| a.app_name;
    let mut active: i128 = 0;
    let mut idle: i128 = 0;
    let mut apps: Vec<String> = Vec::new();
    let mut i: usize = 0;
    proof {
        lemma_views_take_ends(rows@);
        assert(chars_of(apps@) =~= Seq::<Seq<char>>::empty());
        assert(Seq::<ActivityView>::empty().filter(recent) =~= Seq::<ActivityView>::empty());
        assert(Seq::<ActivityView>::empty().map_values(name) =~= Seq::<Seq<char>>::empty());
    }
    while i < rows.len()
        invariant
            i <= rows.len(),
            recent == starts_since(since as int),
            name == |a: ActivityView| a.app_name,
            active == seconds_since(views(rows@.take(i as int)), since as int, false),
            idle == seconds_since(views(rows@.take(i as int)), since as int, true),
            0 <= active <= i * u32::MAX,
            0 <= idle <= i * u32::MAX,
            chars_of(apps@).no_duplicates(),
            chars_of(apps@).to_set() == views(rows@.take(i as int)).filter(recent).map_values(
                name,
            ).to_set(),
        decreases rows.len() - i,
    {
        let ghost before = views(rows@.take(i as int));
        let row = &rows[i];
        proof {
            lemma_views_take_next(rows@, i as int);
            let next = before.push(row@);
            assert(next.drop_last() =~= before);
            before.lemma_filter_push(row@, recent);
        }
        if row.timestamp >= since {
            if row.is_idle {
                idle = idle + row.duration_seconds as i128;
            } else {
                active = active + row.duration_seconds as i128;
            }
            proof {
                let seen = before.filter(recent);
                seen.lemma_push_map_commute(name, row@);
                seen.map_values(name).lemma_push_to_set_commute(row@.app_name);
            }
            if !contains_name(&apps, &row.app_name) {
                let ghost old_apps = chars_of(apps@);
                apps.push(row.app_name.clone());
                proof {
                    assert(chars_of(apps@) =~= old_apps.push(row@.app_name));
                    old_apps.lemma_push_to_set_commute(row@.app_name);
                }
            } else {
                assert(chars_of(apps@).to_set().insert(row@.app_name) =~= chars_of(apps@).to_set());
            }
        }
        i += 1;
    }
    proof {
        lemma_views_take_ends(rows@);
        chars_of(apps@).unique_seq_to_set();
    }
    if active > i64::MAX as i128 || idle > i64::MAX as i128 || apps.len() as u64 > i64::MAX as u64 {
        return None;
    }
    Some(
        TodayStats {
            active_time_seconds: active as i64,
            idle_time_seconds: idle as i64,
            context_switches: apps.len() as i64,
        },
    )
}

/// The number of the day on which day 0 of the Unix epoch falls, counted with
/// 1 January of the year 1 as day 1.
pub const UNIX_EPOCH_DAY: i64 = 719_163;

/// The start of a day: its midnight as an instant of UTC, in seconds since
/// the Unix epoch. Days are counted with 1 January of the year 1 as day 1.
pub open spec fn day_start_of(day: int) -> int {
    (day - UNIX_EPOCH_DAY) * 86_400
}

/// The start of a day: its midnight as an instant of UTC.
pub fn day_start(day: i32) -> (start: i64)
    ensures
        start == day_start_of(day as int),
        start % 86_400 == 0,
{
    let start: i64 = (day as i64 - UNIX_EPOCH_DAY) * 86_400;
    assert(start % 86_400 == 0) by (nonlinear_arith)
        requires
            start == (day as i64 - UNIX_EPOCH_DAY) * 86_400,
    ;
    start
}

/// The number of today's day by the local calendar, counted with 1 January of
/// the year 1 as day 1.
///
/// Trusted: calls `chrono::Local::now()`, then `date_naive` and
/// `Datelike::num_days_from_ce`. The clock and the time zone of the machine
/// decide the date; nothing is claimed.
#[verifier::external_body]
fn local_day_number() -> (day: i32) {
    chrono::Datelike::num_days_from_ce(&chrono::Local::now().date_naive())
}

/// The totals over the segments stored since the start of today: the midnight
/// of the current local date, taken as an instant of UTC, whichever day the
/// clock makes that.
pub fn get_today_stats(rows: &Vec<Activity>) -> (stats: Option<TodayStats>)
    ensures
        exists|day: i32| stats == stats_of(views(rows@), day_start_of(day as int)),
{
    let day = local_day_number();
    let since = day_start(day);
    let stats = get_stats_since(rows, since);
    assert(stats == stats_of(views(rows@), day_start_of(day as int)));
    stats
}

/// The instant before which segments are too old to keep, `days` days before `now`.
pub open spec fn cutoff_of(now: int, days: int) -> int {
    now - days * 86_400
}

/// The instant `days` days before `now`; `None` where it is not a timestamp
/// that the machine can hold.
pub fn retention_cutoff(now: i64, days: i64) -> (cutoff: Option<i64>)
    ensures
        match cutoff {
            Some(c) => c == cutoff_of(now as int, days as int),
            None => cutoff_of(now as int, days as int) < i64::MIN || cutoff_of(
                now as int,
                days as int,
            ) > i64::MAX,
        },
{
    let c: i128 = now as i128 - (days as i128) * 86_400;
    if c < i64::MIN as i128 || c > i64::MAX as i128 {
        None
    } else {
        Some(c as i64)
    }
}

/// The rows that `delete_activities_before` keeps.
pub open spec fn kept_from(rows: Seq<ActivityView>, cutoff: int) -> Seq<ActivityView> {
    rows.filter(starts_since(cutoff))
}

/// Removes the segments that start before `cutoff` and keeps the others in
/// their order. Returns how many it removed.
pub fn delete_activities_before(rows: &mut Vec<Activity>, cutoff: i64) -> (removed: usize)
    ensures
        views(final(rows)@) == kept_from(views(old(rows)@), cutoff as int),
        removed == old(rows)@.len() - final(rows)@.len(),
{
    let ghost recent = starts_since(cutoff as int);
    let mut kept: Vec<Activity> = Vec::new();
    let mut i: usize = 0;
    proof {
        lemma_views_take_ends(rows@);
        assert(views(kept@) =~= Seq::<ActivityView>::empty());
        assert(Seq::<ActivityView>::empty().filter(recent) =~= Seq::<ActivityView>::empty());
    }
    while i < rows.len()
        invariant
            i <= rows.len(),
            recent == starts_since(cutoff as int),
            views(kept@) == views(rows@.take(i as int)).filter(recent),
            kept.len() <= i,
        decreases rows.len() - i,
    {
        proof {
            lemma_views_take_next(rows@, i as int);
            views(rows@.take(i as int)).lemma_filter_push(rows@[i as int]@, recent);
        }
        if rows[i].timestamp >= cutoff {
            let ghost old_kept = views(kept@);
            let a = rows[i].clone();
            kept.push(a);
            assert(views(kept@) =~= old_kept.push(a@));
        }
        i += 1;
    }
    proof {
        lemma_views_take_ends(rows@);
    }
    let removed = rows.len() - kept.len();
    *rows = kept;
    removed
}

/// What `delete_old_activities` does where the clock says `now`: it removes
/// the segments that started before the cutoff and says how many, or, where
/// the cutoff is not a timestamp that the machine can hold, removes nothing
/// and says `None`.
pub open spec fn deleted_at(
    before: Seq<ActivityView>,
    after: Seq<ActivityView>,
    removed: Option<usize>,
    now: int,
    days: int,
) -> bool {
    let cutoff = cutoff_of(now, days);
    if i64::MIN <= cutoff <= i64::MAX {
        &&& after == kept_from(before, cutoff)
        &&& removed == Some((before.len() - after.len()) as usize)
    } else {
        &&& after == before
        &&& removed is None
    }
}

/// Removes the segments that started more than `days` days before now,
/// whatever the clock says now is. Returns how many it removed, or `None`,
/// with nothing removed, where the cutoff is not a timestamp that the machine
/// can hold. With `days` zero the cutoff is now, which the machine holds.
pub fn delete_old_activities(rows: &mut Vec<Activity>, days: i64) -> (removed: Option<usize>)
    ensures
        exists|now: i64|
            deleted_at(views(old(rows)@), views(final(rows)@), removed, now as int, days as int),
        days == 0 ==> removed is Some,
        removed is None ==> final(rows)@ == old(rows)@,
{
    let now = get_current_time();
    let removed = match retention_cutoff(now, days) {
        Some(cutoff) => Some(delete_activities_before(rows, cutoff)),
        None => None,
    };
    assert(deleted_at(views(old(rows)@), views(rows@), removed, now as int, days as int));
    removed
}

} // verus!
