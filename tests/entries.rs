use avalanche::entry::{date_from_strings, time_from_strings};
use avalanche::{Date, EntryError, EntryText, Record, Time};

fn text(fields: [&str; 8]) -> EntryText {
    EntryText {
        year: String::from(fields[0]),
        month: String::from(fields[1]),
        day: String::from(fields[2]),
        start_hours: String::from(fields[3]),
        start_minutes: String::from(fields[4]),
        end_hours: String::from(fields[5]),
        end_minutes: String::from(fields[6]),
        note: String::from(fields[7]),
    }
}

#[test]
fn date_fields_are_read_as_numbers() {
    assert_eq!(date_from_strings("2024", "2", "29"), Some(Date { year: 2024, month: 2, day: 29 }));
    assert_eq!(date_from_strings("+2024", "02", "09"), Some(Date { year: 2024, month: 2, day: 9 }));
    assert_eq!(date_from_strings("2023", "2", "29"), None);
    assert_eq!(date_from_strings("65536", "1", "1"), None);
    assert_eq!(date_from_strings("65535", "12", "31"), Some(Date { year: 65535, month: 12, day: 31 }));
    assert_eq!(date_from_strings("2024", "256", "1"), None);
    assert_eq!(date_from_strings("", "1", "1"), None);
    assert_eq!(date_from_strings("20 24", "1", "1"), None);
    assert_eq!(date_from_strings("-1", "1", "1"), None);
    assert_eq!(date_from_strings("+", "1", "1"), None);
}

#[test]
fn time_fields_are_read_as_numbers() {
    assert_eq!(time_from_strings("7", "05"), Some(Time { hours: 7, minutes: 5 }));
    assert_eq!(time_from_strings("23", "59"), Some(Time { hours: 23, minutes: 59 }));
    assert_eq!(time_from_strings("24", "0"), None);
    assert_eq!(time_from_strings("1", "60"), None);
    assert_eq!(time_from_strings("1", "x"), None);
    assert_eq!(time_from_strings(" 1", "0"), None);
}

#[test]
fn entry_text_becomes_a_record() {
    let entry = text(["2025", "1", "1", "17", "0", "17", "20", "Writing test functions"]);
    assert_eq!(
        entry.to_record(),
        Ok(Record {
            note: String::from("Writing test functions"),
            date: Date { year: 2025, month: 1, day: 1 },
            start_time: Time { hours: 17, minutes: 0 },
            end_time: Time { hours: 17, minutes: 20 },
        })
    );
}

#[test]
fn entry_text_errors_name_the_first_bad_field() {
    let bad_date = text(["2025", "13", "1", "x", "0", "17", "20", ""]);
    assert_eq!(bad_date.to_record(), Err(EntryError::Date));
    let bad_start = text(["2025", "1", "1", "x", "0", "99", "20", ""]);
    assert_eq!(bad_start.to_record(), Err(EntryError::StartTime));
    let bad_end = text(["2025", "1", "1", "17", "0", "17", "60", ""]);
    assert_eq!(bad_end.to_record(), Err(EntryError::EndTime));
    let inverted = text(["2025", "1", "1", "17", "30", "17", "20", ""]);
    assert_eq!(inverted.to_record(), Err(EntryError::EndBeforeStart));
    let empty = text(["2025", "1", "1", "17", "20", "17", "20", ""]);
    assert_eq!(empty.to_record().map(|r| r.length()), Ok(Ok(Time { hours: 0, minutes: 0 })));
}
