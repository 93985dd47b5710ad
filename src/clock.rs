use vstd::prelude::*;
use crate::error::HabitError;

verus! {

/// Hours and minutes: either a time of day or an elapsed duration.
#[derive(Clone, Copy, Debug, PartialEq, Eq, Structural)]
pub struct Time {
    pub hours: u16,
    pub minutes: u16,
}

impl Time {
    /// The number of minutes the value stands for.
    pub open spec fn total(self) -> int {
        self.hours * 60 + self.minutes
    }

    /// The value is a time of day.
    pub open spec fn valid_time_of_day(self) -> bool {
        self.hours < 24 && self.minutes < 60
    }

    /// The value whose hours and minutes split `m` minutes, minutes below sixty.
    pub open spec fn of_minutes(m: int) -> Time {
        Time { hours: (m / 60) as u16, minutes: (m % 60) as u16 }
    }

    /// The sum of two values, minutes carried into hours.
    pub open spec fn sum(self, other: Time) -> Time {
        Time {
            hours: (self.hours + other.hours + (self.minutes + other.minutes) / 60) as u16,
            minutes: ((self.minutes + other.minutes) % 60) as u16,
        }
    }

    /// The sum of two values fits in the fields.
    pub open spec fn sum_fits(self, other: Time) -> bool {
        &&& self.minutes + other.minutes <= u16::MAX
        &&& self.hours + other.hours + (self.minutes + other.minutes) / 60 <= u16::MAX
    }

    /// The time elapsed from `start` to `end`, or `OrderError` when `end`
    /// comes before `start`.
    pub fn difference(start: &Time, end: &Time) -> (r: Result<Time, HabitError>)
        requires
            start.total() <= u16::MAX,
            end.total() <= u16::MAX,
        ensures
            end.total() < start.total() ==> r == Err::<Time, HabitError>(HabitError::OrderError),
            start.total() <= end.total() ==> r == Ok::<Time, HabitError>(
                Time::of_minutes(end.total() - start.total()),
            ),
            r matches Ok(t) ==> t.minutes < 60 && t.total() == end.total() - start.total(),
    {
        let start_minutes: u16 = start.hours * 60 + start.minutes;
        let end_minutes: u16 = end.hours * 60 + end.minutes;
        if end_minutes < start_minutes {
            return Err(HabitError::OrderError);
        }
        let difference: u16 = end_minutes - start_minutes;
        Ok(Time { hours: difference / 60, minutes: difference % 60 })
    }

    pub fn is_valid_time_of_day(&self) -> (r: bool)
        ensures
            r == self.valid_time_of_day(),
    {
        self.hours < 24 && self.minutes < 60
    }
}

impl vstd::std_specs::ops::AddSpecImpl for Time {
    open spec fn obeys_add_spec() -> bool {
        true
    }

    open spec fn add_req(self, rhs: Time) -> bool {
        self.sum_fits(rhs)
    }

    open spec fn add_spec(self, rhs: Time) -> Time {
        self.sum(rhs)
    }
}

impl core::ops::Add for Time {
    type Output = Time;

    fn add(self, other: Time) -> (r: Time)
        ensures
            r == self.sum(other),
    {
        let minutes: u16 = self.minutes + other.minutes;
        Time { hours: self.hours + other.hours + minutes / 60, minutes: minutes % 60 }
    }
}

/// Splitting a count of minutes keeps every minute: the minutes field is
/// below sixty and hours and minutes add back up to the count.
pub proof fn lemma_of_minutes_split(m: int)
    requires
        0 <= m,
        m / 60 <= u16::MAX,
    ensures
        Time::of_minutes(m).minutes < 60,
        Time::of_minutes(m).total() == m,
{
}

/// Adding carries minutes into hours: the sum stands for as many minutes as
/// both values together, and its minutes field is below sixty.
pub proof fn lemma_sum_total(a: Time, b: Time)
    requires
        a.sum_fits(b),
    ensures
        a.sum(b).total() == a.total() + b.total(),
        a.sum(b).minutes < 60,
{
}

} // verus!
