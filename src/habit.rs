use vstd::prelude::*;
use crate::calendar::{Date, lemma_previous_day, previous_day};
use crate::clock::Time;
use crate::error::HabitError;

verus! {

/// One timed entry: what was done, on which day, from when to when.
#[derive(Clone, Debug, PartialEq, Eq)]
pub struct Record {
    pub note: String,
    pub date: Date,
    pub start_time: Time,
    pub end_time: Time,
}

impl Record {
    /// The start and end times fit the minute counting of `Time::difference`
    /// and the end does not come before the start.
    pub open spec fn well_timed(self) -> bool {
        self.start_time.total() <= self.end_time.total() <= u16::MAX
    }

    /// Minutes from start to end.
    pub open spec fn minutes(self) -> int {
        self.end_time.total() - self.start_time.total()
    }

    /// The entry holds a real date, two times of day, and ends no earlier
    /// than it starts.
    pub open spec fn valid(self) -> bool {
        &&& self.date.valid()
        &&& self.start_time.valid_time_of_day()
        &&& self.end_time.valid_time_of_day()
        &&& self.start_time.total() <= self.end_time.total()
    }

    pub fn is_valid(&self) -> (r: bool)
        ensures
            r == self.valid(),
    {
        self.date.is_valid() && self.start_time.is_valid_time_of_day()
            && self.end_time.is_valid_time_of_day() && Time::difference(
            &self.start_time,
            &self.end_time,
        ).is_ok()
    }

    /// The entry built from its parts, or `ValidationError` when they do not
    /// make a valid entry.
    pub fn new(note: String, date: Date, start_time: Time, end_time: Time) -> (r: Result<
        Record,
        HabitError,
    >)
        ensures
            ({
                let rec = Record { note, date, start_time, end_time };
                &&& rec.valid() ==> r == Ok::<Record, HabitError>(rec)
                &&& !rec.valid() ==> r == Err::<Record, HabitError>(HabitError::ValidationError)
            }),
    {
        let record = Record { note, date, start_time, end_time };
        if record.is_valid() {
            Ok(record)
        } else {
            Err(HabitError::ValidationError)
        }
    }

    /// How long the entry lasted, or `OrderError` when it ends before it starts.
    pub fn length(&self) -> (r: Result<Time, HabitError>)
        requires
            self.start_time.total() <= u16::MAX,
            self.end_time.total() <= u16::MAX,
        ensures
            self.minutes() < 0 ==> r == Err::<Time, HabitError>(HabitError::OrderError),
            self.minutes() >= 0 ==> r == Ok::<Time, HabitError>(Time::of_minutes(self.minutes())),
    {
        Time::difference(&self.start_time, &self.end_time)
    }
}

/// Figures derived from the records of a habit.
#[derive(Clone, Copy, Debug, PartialEq, Eq, Structural)]
pub struct HabitStats {
    pub streak_length: u16,
    pub total_time: Time,
}

/// A named activity and the records kept of it, in the order they were added.
#[derive(Clone, Debug, PartialEq, Eq)]
pub struct Habit {
    pub name: String,
    pub records: Vec<Record>,
}

impl Habit {
    /// Every record is well timed, and the summed durations fit the hour
    /// count of a `Time` and the number of records fits a streak length.
    pub open spec fn stats_fit(self) -> bool {
        &&& forall|i: int| 0 <= i < self.records@.len() ==> (#[trigger] self.records@[i]).well_timed()
        &&& total_minutes(self.records@) / 60 <= u16::MAX
        &&& self.records@.len() <= u16::MAX
    }

    /// The streak that ends on the latest recorded day and the time spent
    /// over all records.
    pub fn get_stats(&self) -> (r: HabitStats)
        requires
            self.stats_fit(),
        ensures
            stats_of(self.records@, r),
    {
        let ghost s = self.records@;
        let mut total_time = Time { hours: 0, minutes: 0 };
        if self.records.len() == 0 {
            return HabitStats { streak_length: 0, total_time };
        }
        let n: usize = self.records.len();
        let mut most_recent: Date = self.records[n - 1].date;
        let mut i: usize = 0;
        while i < n
            invariant
                n == s.len(),
                s == self.records@,
                self.stats_fit(),
                0 <= i <= n,
                total_time == Time::of_minutes(total_minutes(s.take(i as int))),
                0 <= total_minutes(s.take(i as int)),
                exists|k: int| 0 <= k < n && s[k].date == most_recent,
                forall|k: int| 0 <= k < i ==> !(#[trigger] s[k].date).later_than(most_recent),
                !s[n - 1].date.later_than(most_recent),
            decreases n - i,
        {
            let record = &self.records[i];
            proof {
                lemma_total_minutes_prefix(s, i as int + 1);
                assert(s.take(i as int + 1).drop_last() == s.take(i as int));
                assert(s.take(i as int + 1).last() == s[i as int]);
                lemma_of_minutes_sum(total_minutes(s.take(i as int)), record.minutes());
            }
            total_time = total_time + record.length().unwrap();
            if !most_recent.is_after(&record.date) {
                most_recent = record.date;
            }
            i = i + 1;
        }
        proof {
            assert(s.take(n as int) == s);
            lemma_latest_date(s);
            let l = latest_date(s);
            let k = choose|k: int| 0 <= k < n && s[k].date == most_recent;
            assert(!s[k].date.later_than(l));
        }
        let mut comp_date: Date = most_recent;
        let mut streak_len: u16 = 0;
        proof {
            let k = choose|k: int| 0 <= k < n && s[k].date == comp_date;
            lemma_count_before_bound(s, k);
        }
        loop
            invariant_except_break
                n == s.len(),
                s == self.records@,
                self.stats_fit(),
                streak_len + streak_from(s, comp_date) == streak_from(s, most_recent),
                streak_len + count_before(s, comp_date) < n,
            ensures
                streak_len == streak_from(s, most_recent),
            decreases count_before(s, comp_date),
        {
            streak_len = streak_len + 1;
            match day_before_index(&self.records, &comp_date) {
                Some(j) => {
                    proof {
                        lemma_day_before_from(s, comp_date, 0);
                        lemma_count_before_strict(s, comp_date, j as int);
                    }
                    comp_date = self.records[j].date;
                },
                None => {
                    break;
                },
            }
        }
        HabitStats { streak_length: streak_len, total_time }
    }
    /// Whether `get_stats` can be asked of this habit.
    fn stats_in_range(&self) -> (r: bool)
        ensures
            r == self.stats_fit(),
    {
        let ghost s = self.records@;
        let n: usize = self.records.len();
        if n > 0xffff {
            return false;
        }
        let mut total: u64 = 0;
        let mut i: usize = 0;
        while i < n
            invariant
                n == s.len(),
                s == self.records@,
                n <= 0xffff,
                0 <= i <= n,
                total == total_minutes(s.take(i as int)),
                total <= i * 0xffff,
                forall|k: int| 0 <= k < i ==> (#[trigger] s[k]).well_timed(),
            decreases n - i,
        {
            let record = &self.records[i];
            let start: u64 = record.start_time.hours as u64 * 60 + record.start_time.minutes as u64;
            let end: u64 = record.end_time.hours as u64 * 60 + record.end_time.minutes as u64;
            if start > end || end > 0xffff {
                return false;
            }
            proof {
                assert(s.take(i as int + 1).drop_last() == s.take(i as int));
                assert(s.take(i as int + 1).last() == s[i as int]);
            }
            total = total + (end - start);
            i = i + 1;
        }
        proof {
            assert(s.take(n as int) == s);
        }
        total / 60 <= 0xffff
    }

    /// The figures of `get_stats`, or `None` when a record ends before it
    /// starts or the figures do not fit their fields.
    pub fn checked_stats(&self) -> (r: Option<HabitStats>)
        ensures
            self.stats_fit() ==> (r matches Some(st) && stats_of(self.records@, st)),
            !self.stats_fit() ==> r is None,
    {
        if self.stats_in_range() {
            Some(self.get_stats())
        } else {
            None
        }
    }
}

/// `st` holds the figures of records `s`: for no records, a streak of zero
/// and no time; otherwise the streak that ends on the latest date and the
/// summed durations.
pub open spec fn stats_of(s: Seq<Record>, st: HabitStats) -> bool {
    if s.len() == 0 {
        st == HabitStats { streak_length: 0, total_time: Time { hours: 0, minutes: 0 } }
    } else {
        &&& st.total_time == Time::of_minutes(total_minutes(s))
        &&& st.streak_length == streak_from(s, latest_date(s))
    }
}

/// Position of the first record dated the day before `date`.
fn day_before_index(records: &Vec<Record>, date: &Date) -> (r: Option<usize>)
    ensures
        match day_before(records@, *date) {
            Some(j) => r == Some(j as usize),
            None => r is None,
        },
{
    let mut i: usize = 0;
    while i < records.len()
        invariant
            0 <= i <= records@.len(),
            day_before(records@, *date) == day_before_from(records@, *date, i as int),
        decreases records@.len() - i,
    {
        if date.is_day_after(&records[i].date) {
            return Some(i);
        }
        i = i + 1;
    }
    None
}

proof fn lemma_total_minutes_prefix(s: Seq<Record>, i: int)
    requires
        0 <= i <= s.len(),
        forall|k: int| 0 <= k < s.len() ==> (#[trigger] s[k]).well_timed(),
    ensures
        0 <= total_minutes(s.take(i)) <= total_minutes(s),
    decreases s.len(),
{
    if i < s.len() {
        assert(s.drop_last().take(i) == s.take(i));
        lemma_total_minutes_prefix(s.drop_last(), i);
    } else {
        assert(s.take(i) == s);
        if s.len() > 0 {
            lemma_total_minutes_prefix(s.drop_last(), i - 1);
            assert(s.drop_last().take(i - 1) == s.drop_last());
        }
    }
}

proof fn lemma_of_minutes_sum(a: int, b: int)
    requires
        0 <= a,
        0 <= b,
        (a + b) / 60 <= u16::MAX,
    ensures
        Time::of_minutes(a).sum_fits(Time::of_minutes(b)),
        Time::of_minutes(a).sum(Time::of_minutes(b)) == Time::of_minutes(a + b),
{
}

/// `latest_date` is a date of one of the records, and no record is later.
proof fn lemma_latest_date(s: Seq<Record>)
    requires
        s.len() > 0,
    ensures
        exists|k: int| 0 <= k < s.len() && s[k].date == latest_date(s),
        forall|k: int| 0 <= k < s.len() ==> !(#[trigger] s[k].date).later_than(latest_date(s)),
    decreases s.len(),
{
    if s.len() > 1 {
        let t = s.drop_last();
        lemma_latest_date(t);
        let k = choose|k: int| 0 <= k < t.len() && t[k].date == latest_date(t);
        assert(s[k] == t[k]);
        if !latest_date(t).later_than(s.last().date) {
            assert(s[s.len() - 1].date == latest_date(s));
        }
        assert forall|k: int| 0 <= k < s.len() implies !(#[trigger] s[k].date).later_than(
            latest_date(s),
        ) by {
            if k < s.len() - 1 {
                assert(s[k] == t[k]);
            }
        }
    } else {
        assert(s[0].date == latest_date(s));
    }
}

/// Sum of the durations of the records, in minutes.
pub open spec fn total_minutes(s: Seq<Record>) -> int
    decreases s.len(),
{
    if s.len() == 0 {
        0
    } else {
        total_minutes(s.drop_last()) + s.last().minutes()
    }
}

/// The latest date among the records: the last record's date unless an
/// earlier record is strictly later.
pub open spec fn latest_date(s: Seq<Record>) -> Date
    decreases s.len(),
{
    if s.len() <= 1 {
        s[0].date
    } else {
        let m = latest_date(s.drop_last());
        if m.later_than(s.last().date) {
            m
        } else {
            s.last().date
        }
    }
}

/// Number of records dated strictly before `d`.
pub open spec fn count_before(s: Seq<Record>, d: Date) -> nat
    decreases s.len(),
{
    if s.len() == 0 {
        0
    } else {
        count_before(s.drop_last(), d) + if d.later_than(s.last().date) {
            1nat
        } else {
            0nat
        }
    }
}

/// Position of the first record, from `i` on, dated the day before `d`.
pub open spec fn day_before_from(s: Seq<Record>, d: Date, i: int) -> Option<int>
    decreases s.len() - i,
{
    if i < 0 || i >= s.len() {
        None
    } else if d.next_day_of(s[i].date) {
        Some(i)
    } else {
        day_before_from(s, d, i + 1)
    }
}

/// Position of the first record dated the day before `d`.
pub open spec fn day_before(s: Seq<Record>, d: Date) -> Option<int> {
    day_before_from(s, d, 0)
}

/// Length of the run of consecutive days that ends on `d`, walking back one
/// day at a time through the first record dated the day before.
pub open spec fn streak_from(s: Seq<Record>, d: Date) -> nat
    decreases count_before(s, d),
    via streak_from_decreases
{
    match day_before(s, d) {
        Some(j) => 1 + streak_from(s, s[j].date),
        None => 1,
    }
}

#[via_fn]
proof fn streak_from_decreases(s: Seq<Record>, d: Date) {
    lemma_day_before_from(s, d, 0);
    if let Some(j) = day_before(s, d) {
        lemma_count_before_strict(s, d, j);
    }
}

proof fn lemma_day_before_from(s: Seq<Record>, d: Date, i: int)
    requires
        0 <= i,
    ensures
        match day_before_from(s, d, i) {
            Some(j) => i <= j < s.len() && d.next_day_of(s[j].date) && forall|k: int|
                i <= k < j ==> !d.next_day_of(#[trigger] s[k].date),
            None => forall|k: int| i <= k < s.len() ==> !d.next_day_of(#[trigger] s[k].date),
        },
    decreases s.len() - i,
{
    if i < s.len() && !d.next_day_of(s[i].date) {
        lemma_day_before_from(s, d, i + 1);
    }
}

/// Records dated before an earlier day are dated before a later one too,
/// and the record on the earlier day itself is counted only for the later.
proof fn lemma_count_before_strict(s: Seq<Record>, d: Date, k: int)
    requires
        0 <= k < s.len(),
        d.later_than(s[k].date),
    ensures
        count_before(s, s[k].date) < count_before(s, d),
    decreases s.len(),
{
    lemma_count_before_mono(s.drop_last(), d, s[k].date);
    if k < s.len() - 1 {
        assert(s.drop_last()[k] == s[k]);
        lemma_count_before_strict(s.drop_last(), d, k);
    }
}

proof fn lemma_count_before_mono(s: Seq<Record>, d: Date, e: Date)
    requires
        d.later_than(e),
    ensures
        count_before(s, e) <= count_before(s, d),
    decreases s.len(),
{
    if s.len() > 0 {
        lemma_count_before_mono(s.drop_last(), d, e);
    }
}

proof fn lemma_count_before_bound(s: Seq<Record>, k: int)
    requires
        0 <= k < s.len(),
    ensures
        count_before(s, s[k].date) < s.len(),
    decreases s.len(),
{
    if k < s.len() - 1 {
        assert(s.drop_last()[k] == s[k]);
        lemma_count_before_bound(s.drop_last(), k);
    } else {
        lemma_count_before_le(s.drop_last(), s[k].date);
    }
}

proof fn lemma_count_before_le(s: Seq<Record>, d: Date)
    ensures
        count_before(s, d) <= s.len(),
    decreases s.len(),
{
    if s.len() > 0 {
        lemma_count_before_le(s.drop_last(), d);
    }
}

/// Some record of `s` is dated `d`.
pub open spec fn has_date(s: Seq<Record>, d: Date) -> bool {
    exists|i: int| 0 <= i < s.len() && (#[trigger] s[i]).date == d
}

/// Every record of `s` holds a real date.
pub open spec fn dates_valid(s: Seq<Record>) -> bool {
    forall|i: int| 0 <= i < s.len() ==> (#[trigger] s[i]).date.valid()
}

/// A day has at most one real day before it.
proof fn lemma_day_before_unique(d: Date, a: Date, b: Date)
    requires
        a.valid(),
        b.valid(),
        d.next_day_of(a),
        d.next_day_of(b),
    ensures
        a == b,
{
}

proof fn lemma_streak_from_same_dates(s: Seq<Record>, t: Seq<Record>, d: Date)
    requires
        dates_valid(s),
        dates_valid(t),
        forall|x: Date| has_date(s, x) <==> has_date(t, x),
    ensures
        streak_from(s, d) == streak_from(t, d),
    decreases count_before(s, d),
{
    lemma_day_before_from(s, d, 0);
    lemma_day_before_from(t, d, 0);
    match (day_before(s, d), day_before(t, d)) {
        (Some(j), Some(k)) => {
            lemma_day_before_unique(d, s[j].date, t[k].date);
            lemma_count_before_strict(s, d, j);
            lemma_streak_from_same_dates(s, t, s[j].date);
        },
        (Some(j), None) => {
            assert(has_date(s, s[j].date));
            let k = choose|k: int| 0 <= k < t.len() && (#[trigger] t[k]).date == s[j].date;
            assert(!d.next_day_of(t[k].date));
        },
        (None, Some(k)) => {
            assert(has_date(t, t[k].date));
            let j = choose|j: int| 0 <= j < s.len() && (#[trigger] s[j]).date == t[k].date;
            assert(!d.next_day_of(s[j].date));
        },
        (None, None) => {},
    }
}

/// The statistics see only which days hold records, when every date is a
/// real one: two lists of records that hold the same dates, in any order
/// and with any number of records on a day, end on the same latest date and
/// have the same streak.
pub proof fn lemma_streak_depends_on_dates(s: Seq<Record>, t: Seq<Record>)
    requires
        s.len() > 0,
        dates_valid(s),
        dates_valid(t),
        forall|x: Date| has_date(s, x) <==> has_date(t, x),
    ensures
        latest_date(s) == latest_date(t),
        streak_from(s, latest_date(s)) == streak_from(t, latest_date(t)),
{
    lemma_latest_date(s);
    assert(has_date(s, latest_date(s)));
    assert(t.len() > 0);
    lemma_latest_date(t);
    assert(has_date(t, latest_date(t)));
    let ls = latest_date(s);
    let lt = latest_date(t);
    let i = choose|i: int| 0 <= i < s.len() && (#[trigger] s[i]).date == lt;
    let k = choose|k: int| 0 <= k < t.len() && (#[trigger] t[k]).date == ls;
    assert(!s[i].date.later_than(ls));
    assert(!t[k].date.later_than(lt));
    lemma_streak_from_same_dates(s, t, ls);
}

/// Walking back through real dates: the streak that ends on a real day `d`
/// is one more than the streak of the day before when some record holds
/// that day, and one otherwise.
pub proof fn lemma_streak_walks_back(s: Seq<Record>, d: Date)
    requires
        dates_valid(s),
        d.valid(),
    ensures
        ({
            let first = d.year == 0 && d.month == 1 && d.day == 1;
            &&& !first && has_date(s, previous_day(d)) ==> streak_from(s, d) == 1 + streak_from(
                s,
                previous_day(d),
            )
            &&& !first && !has_date(s, previous_day(d)) ==> streak_from(s, d) == 1
            &&& first ==> streak_from(s, d) == 1
        }),
{
    lemma_day_before_from(s, d, 0);
    match day_before(s, d) {
        Some(j) => {
            lemma_previous_day(d, s[j].date);
            assert(has_date(s, s[j].date));
        },
        None => {
            if !(d.year == 0 && d.month == 1 && d.day == 1) && has_date(s, previous_day(d)) {
                let k = choose|k: int| 0 <= k < s.len() && (#[trigger] s[k]).date == previous_day(d);
                lemma_previous_day(d, s[k].date);
            }
        },
    }
}

} // verus!
