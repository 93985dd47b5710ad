use vstd::prelude::*;
use crate::calendar::Date;
use crate::clock::Time;
use crate::habit::Record;

verus! {

/// The fields of a record as typed in, before they are read.
#[derive(Clone, Debug, PartialEq, Eq)]
pub struct EntryText {
    pub year: String,
    pub month: String,
    pub day: String,
    pub start_hours: String,
    pub start_minutes: String,
    pub end_hours: String,
    pub end_minutes: String,
    pub note: String,
}

/// Why typed-in fields do not make a record.
#[derive(Clone, Copy, Debug, PartialEq, Eq, Structural)]
pub enum EntryError {
    /// The date fields are not numbers, or not a real date.
    Date,
    /// The start fields are not numbers, or not a time of day.
    StartTime,
    /// The end fields are not numbers, or not a time of day.
    EndTime,
    /// The end time comes before the start time.
    EndBeforeStart,
}

/// All characters are ASCII digits, and there is at least one.
pub open spec fn all_digits(s: Seq<char>) -> bool {
    s.len() > 0 && forall|i: int| 0 <= i < s.len() ==> '0' <= #[trigger] s[i] <= '9'
}

/// The number that decimal digits `s` write.
pub open spec fn digits_value(s: Seq<char>) -> int
    decreases s.len(),
{
    if s.len() == 0 {
        0
    } else {
        digits_value(s.drop_last()) * 10 + (s.last() as int - '0' as int)
    }
}

/// The number written by `s`: an optional `+` followed by decimal digits.
pub open spec fn decimal_of(s: Seq<char>) -> Option<int> {
    let digits = if s.len() > 0 && s[0] == '+' {
        s.subrange(1, s.len() as int)
    } else {
        s
    };
    if all_digits(digits) {
        Some(digits_value(digits))
    } else {
        None
    }
}

/// The number written by `s`, when it is one that fits in `max`.
pub open spec fn number_of(s: Seq<char>, max: int) -> Option<int> {
    match decimal_of(s) {
        Some(v) => if v <= max {
            Some(v)
        } else {
            None
        },
        None => None,
    }
}

/// Relies on `<u16 as FromStr>::from_str`: an optional `+` followed by
/// decimal digits, whose value fits in a `u16`, reads as that value; any
/// other text is an error.
#[verifier::external_body]
fn parse_u16(s: &str) -> (r: Option<u16>)
    ensures
        match number_of(s@, u16::MAX as int) {
            Some(v) => r == Some(v as u16),
            None => r is None,
        },
{
    s.parse::<u16>().ok()
}

/// Relies on `<u8 as FromStr>::from_str`: an optional `+` followed by
/// decimal digits, whose value fits in a `u8`, reads as that value; any
/// other text is an error.
#[verifier::external_body]
fn parse_u8(s: &str) -> (r: Option<u8>)
    ensures
        match number_of(s@, u8::MAX as int) {
            Some(v) => r == Some(v as u8),
            None => r is None,
        },
{
    s.parse::<u8>().ok()
}

/// The date written by three fields, when each is a number and together
/// they name a real day.
pub open spec fn date_of_text(year: Seq<char>, month: Seq<char>, day: Seq<char>) -> Option<Date> {
    match (number_of(year, u16::MAX as int), number_of(month, u8::MAX as int), number_of(day, u8::MAX as int)) {
        (Some(y), Some(m), Some(d)) => {
            let date = Date { year: y as u16, month: m as u8, day: d as u8 };
            if date.valid() {
                Some(date)
            } else {
                None
            }
        },
        _ => None,
    }
}

/// The time of day written by two fields, when each is a number and
/// together they name a time of day.
pub open spec fn time_of_text(hours: Seq<char>, minutes: Seq<char>) -> Option<Time> {
    match (number_of(hours, u16::MAX as int), number_of(minutes, u16::MAX as int)) {
        (Some(h), Some(m)) => {
            let time = Time { hours: h as u16, minutes: m as u16 };
            if time.valid_time_of_day() {
                Some(time)
            } else {
                None
            }
        },
        _ => None,
    }
}

/// The date written by three fields.
pub fn date_from_strings(year: &str, month: &str, day: &str) -> (r: Option<Date>)
    ensures
        r == date_of_text(year@, month@, day@),
{
    let y = parse_u16(year);
    let m = parse_u8(month);
    let d = parse_u8(day);
    match (y, m, d) {
        (Some(y), Some(m), Some(d)) => {
            let date = Date { year: y, month: m, day: d };
            if date.is_valid() {
                Some(date)
            } else {
                None
            }
        },
        _ => None,
    }
}

/// The time of day written by two fields.
pub fn time_from_strings(hours: &str, minutes: &str) -> (r: Option<Time>)
    ensures
        r == time_of_text(hours@, minutes@),
{
    let h = parse_u16(hours);
    let m = parse_u16(minutes);
    match (h, m) {
        (Some(h), Some(m)) => {
            let time = Time { hours: h, minutes: m };
            if time.is_valid_time_of_day() {
                Some(time)
            } else {
                None
            }
        },
        _ => None,
    }
}

impl EntryText {
    /// The record the fields describe. The date is read first, then the
    /// start and the end time; the first that fails names the error, and
    /// an end before the start is refused last.
    pub fn to_record(&self) -> (r: Result<Record, EntryError>)
        ensures
            match (
                date_of_text(self.year@, self.month@, self.day@),
                time_of_text(self.start_hours@, self.start_minutes@),
                time_of_text(self.end_hours@, self.end_minutes@),
            ) {
                (None, _, _) => r == Err::<Record, EntryError>(EntryError::Date),
                (Some(_), None, _) => r == Err::<Record, EntryError>(EntryError::StartTime),
                (Some(_), Some(_), None) => r == Err::<Record, EntryError>(EntryError::EndTime),
                (Some(d), Some(s), Some(e)) => if e.total() < s.total() {
                    r == Err::<Record, EntryError>(EntryError::EndBeforeStart)
                } else {
                    r matches Ok(rec) && rec.note@ == self.note@ && rec.date == d && rec.start_time
                        == s && rec.end_time == e && rec.valid()
                },
            },
    {
        let date = match date_from_strings(self.year.as_str(), self.month.as_str(), self.day.as_str()) {
            Some(d) => d,
            None => {
                return Err(EntryError::Date);
            },
        };
        let start_time = match time_from_strings(self.start_hours.as_str(), self.start_minutes.as_str()) {
            Some(t) => t,
            None => {
                return Err(EntryError::StartTime);
            },
        };
        let end_time = match time_from_strings(self.end_hours.as_str(), self.end_minutes.as_str()) {
            Some(t) => t,
            None => {
                return Err(EntryError::EndTime);
            },
        };
        if Time::difference(&start_time, &end_time).is_err() {
            return Err(EntryError::EndBeforeStart);
        }
        Ok(Record { note: self.note.clone(), date, start_time, end_time })
    }
}

} // verus!
