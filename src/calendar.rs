use vstd::prelude::*;

verus! {

/// Number of days in `month` of `year`, under the rule that every year
/// divisible by four is a leap year. Months outside 1..=12 have no days.
pub open spec fn month_len(month: int, year: int) -> int {
    if month == 2 {
        if year % 4 == 0 { 29 } else { 28 }
    } else if month == 4 || month == 6 || month == 9 || month == 11 {
        30
    } else if 1 <= month <= 12 {
        31
    } else {
        0
    }
}

/// A calendar day.
#[derive(Clone, Copy, Debug, PartialEq, Eq, Structural)]
pub struct Date {
    pub year: u16,
    pub month: u8,
    pub day: u8,
}

impl Date {
    /// The date names a real day of the calendar.
    pub open spec fn valid(self) -> bool {
        1 <= self.day <= month_len(self.month as int, self.year as int)
    }

    /// `self` comes strictly after `other` in (year, month, day) order.
    pub open spec fn later_than(self, other: Date) -> bool {
        ||| self.year > other.year
        ||| (self.year == other.year && self.month > other.month)
        ||| (self.year == other.year && self.month == other.month && self.day > other.day)
    }

    /// `self` is the calendar day that immediately follows `other`.
    pub open spec fn next_day_of(self, other: Date) -> bool {
        ||| (self.year == other.year && self.month == other.month && self.day == other.day + 1)
        ||| (self.year == other.year && other.day == month_len(other.month as int, other.year as int)
            && self.month == other.month + 1 && self.day == 1)
        ||| (other.month == 12 && other.day == 31 && self.year == other.year + 1
            && self.month == 1 && self.day == 1)
    }

    /// Number of days in `month` of `year`; zero for a month outside 1..=12.
    pub fn month_length(month: u8, year: u16) -> (r: u8)
        ensures
            r == month_len(month as int, year as int),
    {
        match month {
            1 | 3 | 5 | 7 | 8 | 10 | 12 => 31,
            4 | 6 | 9 | 11 => 30,
            2 => {
                if year % 4 == 0 {
                    29
                } else {
                    28
                }
            },
            _ => 0,
        }
    }

    pub fn is_valid(&self) -> (r: bool)
        ensures
            r == self.valid(),
    {
        self.day != 0 && self.day <= Self::month_length(self.month, self.year)
    }

    pub fn is_after(&self, comp: &Date) -> (r: bool)
        ensures
            r == self.later_than(*comp),
    {
        (self.year == comp.year && self.month == comp.month && self.day > comp.day)
            || (self.year == comp.year && self.month > comp.month)
            || self.year > comp.year
    }

    pub fn is_day_after(&self, comp: &Date) -> (r: bool)
        ensures
            r == self.next_day_of(*comp),
    {
        if self.year == comp.year && self.month == comp.month
            && self.day as u16 == comp.day as u16 + 1 {
            true
        } else if self.year == comp.year && comp.day == Self::month_length(comp.month, comp.year)
            && self.month as u16 == comp.month as u16 + 1 && self.day == 1 {
            true
        } else {
            comp.month == 12 && comp.day == 31 && self.year as u32 == comp.year as u32 + 1
                && self.month == 1 && self.day == 1
        }
    }
}

/// A key that orders dates as (year, month, day) are ordered lexicographically.
pub open spec fn date_key(d: Date) -> int {
    d.year * 0x10000 + d.month * 0x100 + d.day
}

/// February 29 is a real day exactly in the years divisible by four; no
/// month of the year has a day zero or a day past its length, which is 28
/// to 31 days.
pub proof fn lemma_month_lengths(year: u16, month: u8, day: u8)
    requires
        1 <= month <= 12,
    ensures
        (Date { year, month: 2, day: 29 }).valid() <==> year % 4 == 0,
        !(Date { year, month, day: 0 }).valid(),
        day > month_len(month as int, year as int) ==> !(Date { year, month, day }).valid(),
        1 <= day <= month_len(month as int, year as int) ==> (Date { year, month, day }).valid(),
        28 <= month_len(month as int, year as int) <= 31,
{
}

/// `later_than` is the strict lexicographic order on (year, month, day): it
/// agrees with `date_key`, is irreflexive and transitive, and any two dates
/// are equal or one is later than the other.
pub proof fn lemma_later_than_order(a: Date, b: Date, c: Date)
    ensures
        a.later_than(b) <==> date_key(a) > date_key(b),
        !a.later_than(a),
        a.later_than(b) && b.later_than(c) ==> a.later_than(c),
        a.later_than(b) ==> !b.later_than(a),
        a == b || a.later_than(b) || b.later_than(a),
{
}

/// The day after a real date: the next day of the month, the first of the
/// next month after the month's last day, January 1 of the next year after
/// December 31. That day is itself real, it is later, and it is the only
/// real date that follows.
pub proof fn lemma_next_day(d: Date, e: Date)
    requires
        d.valid(),
    ensures
        d.day < month_len(d.month as int, d.year as int) ==> (Date {
            year: d.year,
            month: d.month,
            day: (d.day + 1) as u8,
        }).next_day_of(d) && (Date { year: d.year, month: d.month, day: (d.day + 1) as u8 }).valid(),
        d.day == month_len(d.month as int, d.year as int) && d.month < 12 ==> (Date {
            year: d.year,
            month: (d.month + 1) as u8,
            day: 1,
        }).next_day_of(d) && (Date { year: d.year, month: (d.month + 1) as u8, day: 1 }).valid(),
        d.month == 12 && d.day == 31 && d.year < u16::MAX ==> (Date {
            year: (d.year + 1) as u16,
            month: 1,
            day: 1,
        }).next_day_of(d) && (Date { year: (d.year + 1) as u16, month: 1, day: 1 }).valid(),
        e.next_day_of(d) ==> e.later_than(d),
        e.next_day_of(d) && e.valid() ==> e == (if d.day < month_len(d.month as int, d.year as int) {
            Date { year: d.year, month: d.month, day: (d.day + 1) as u8 }
        } else if d.month < 12 {
            Date { year: d.year, month: (d.month + 1) as u8, day: 1 }
        } else {
            Date { year: (d.year + 1) as u16, month: 1, day: 1 }
        }),
{
}

/// The real day before a real date `d`, for any `d` but January 1 of year 0.
pub open spec fn previous_day(d: Date) -> Date {
    if d.day > 1 {
        Date { year: d.year, month: d.month, day: (d.day - 1) as u8 }
    } else if d.month > 1 {
        Date {
            year: d.year,
            month: (d.month - 1) as u8,
            day: month_len(d.month - 1, d.year as int) as u8,
        }
    } else {
        Date { year: (d.year - 1) as u16, month: 12, day: 31 }
    }
}

/// Every real date but January 1 of year 0 follows exactly one real date,
/// `previous_day`; January 1 of year 0 follows none.
pub proof fn lemma_previous_day(d: Date, e: Date)
    requires
        d.valid(),
        e.valid(),
    ensures
        !(d.year == 0 && d.month == 1 && d.day == 1) ==> previous_day(d).valid() && d.next_day_of(
            previous_day(d),
        ),
        d.next_day_of(e) ==> !(d.year == 0 && d.month == 1 && d.day == 1) && e == previous_day(d),
{
}

} // verus!
