use avalanche::{AppData, Date, Habit, HabitError, HabitStats, Record, Time, UserData};

fn record(year: u16, month: u8, day: u8, start: (u16, u16), end: (u16, u16)) -> Record {
    Record {
        note: String::from("practice"),
        date: Date { year, month, day },
        start_time: Time { hours: start.0, minutes: start.1 },
        end_time: Time { hours: end.0, minutes: end.1 },
    }
}

fn habit(records: Vec<Record>) -> Habit {
    Habit { name: String::from("Reading"), records }
}

#[test]
fn empty_habit_has_no_streak_and_no_time() {
    let stats = habit(Vec::new()).get_stats();
    assert_eq!(stats, HabitStats { streak_length: 0, total_time: Time { hours: 0, minutes: 0 } });
}

#[test]
fn three_consecutive_days_make_a_streak_of_three() {
    let h = habit(vec![
        record(2025, 1, 1, (8, 0), (8, 45)),
        record(2025, 1, 2, (20, 30), (21, 0)),
        record(2025, 1, 3, (12, 10), (13, 0)),
    ]);
    let stats = h.get_stats();
    assert_eq!(stats.streak_length, 3);
    assert_eq!(stats.total_time, Time { hours: 2, minutes: 5 });
}

#[test]
fn duplicate_dates_do_not_inflate_the_streak() {
    let h = habit(vec![
        record(2025, 3, 10, (7, 0), (7, 30)),
        record(2025, 3, 10, (19, 0), (19, 15)),
        record(2025, 3, 9, (7, 0), (7, 20)),
    ]);
    let stats = h.get_stats();
    assert_eq!(stats.streak_length, 2);
    assert_eq!(stats.total_time, Time { hours: 1, minutes: 5 });
}

#[test]
fn streak_counts_back_from_the_latest_date_in_any_order() {
    let h = habit(vec![
        record(2024, 12, 31, (6, 0), (6, 10)),
        record(2025, 1, 2, (6, 0), (6, 10)),
        record(2024, 12, 30, (6, 0), (6, 10)),
        record(2025, 1, 1, (6, 0), (6, 10)),
        record(2024, 12, 28, (6, 0), (6, 10)),
    ]);
    let stats = h.get_stats();
    assert_eq!(stats.streak_length, 4);
    assert_eq!(stats.total_time, Time { hours: 0, minutes: 50 });
}

#[test]
fn a_gap_ends_the_streak() {
    let h = habit(vec![
        record(2025, 2, 27, (6, 0), (7, 0)),
        record(2025, 3, 1, (6, 0), (7, 0)),
        record(2025, 2, 28, (6, 0), (7, 0)),
        record(2025, 3, 3, (6, 0), (7, 0)),
    ]);
    let stats = h.get_stats();
    assert_eq!(stats.streak_length, 1);
    assert_eq!(stats.total_time, Time { hours: 4, minutes: 0 });
}

#[test]
fn single_record_has_a_streak_of_one() {
    let stats = habit(vec![record(2025, 6, 1, (10, 0), (10, 0))]).get_stats();
    assert_eq!(stats, HabitStats { streak_length: 1, total_time: Time { hours: 0, minutes: 0 } });
}

#[test]
fn checked_stats_refuses_inverted_records() {
    let good = habit(vec![record(2025, 6, 1, (10, 0), (11, 30))]);
    assert_eq!(
        good.checked_stats(),
        Some(HabitStats { streak_length: 1, total_time: Time { hours: 1, minutes: 30 } })
    );
    let bad = habit(vec![
        record(2025, 6, 1, (10, 0), (11, 30)),
        record(2025, 6, 2, (12, 0), (11, 0)),
    ]);
    assert_eq!(bad.checked_stats(), None);
    assert_eq!(habit(Vec::new()).checked_stats(), Some(habit(Vec::new()).get_stats()));
}

#[test]
fn record_length_is_its_duration() {
    assert_eq!(record(2025, 1, 1, (17, 0), (17, 20)).length(), Ok(Time { hours: 0, minutes: 20 }));
    assert_eq!(record(2025, 1, 1, (17, 0), (16, 0)).length(), Err(HabitError::OrderError));
}

#[test]
fn new_record_is_validated() {
    let d = Date { year: 2025, month: 1, day: 1 };
    let t = |h: u16, m: u16| Time { hours: h, minutes: m };
    let ok = Record::new(String::from("a"), d, t(17, 0), t(17, 20));
    assert_eq!(ok, Ok(record_with_note("a", d, t(17, 0), t(17, 20))));
    assert_eq!(Record::new(String::from("a"), d, t(17, 0), t(17, 0)).is_ok(), true);
    let bad_date = Date { year: 2025, month: 2, day: 29 };
    assert_eq!(Record::new(String::new(), bad_date, t(1, 0), t(2, 0)), Err(HabitError::ValidationError));
    assert_eq!(Record::new(String::new(), d, t(24, 0), t(24, 10)), Err(HabitError::ValidationError));
    assert_eq!(Record::new(String::new(), d, t(1, 0), t(1, 60)), Err(HabitError::ValidationError));
    assert_eq!(Record::new(String::new(), d, t(2, 0), t(1, 59)), Err(HabitError::ValidationError));
}

fn record_with_note(note: &str, date: Date, start_time: Time, end_time: Time) -> Record {
    Record { note: String::from(note), date, start_time, end_time }
}

#[test]
fn store_finds_the_first_habit_of_a_name() {
    let mut data = UserData::new();
    assert_eq!(data.version, UserData::CURRENT_VERSION);
    assert!(data.habits.is_empty());
    assert_eq!(data.add_habit(String::from("Running")), Ok(()));
    assert_eq!(data.add_habit(String::from("Piano")), Ok(()));
    assert_eq!(data.add_habit(String::from("Running")), Err(HabitError::ValidationError));
    assert_eq!(data.habits.len(), 2);
    assert_eq!(data.habit_index("Piano"), Some(1));
    assert_eq!(data.find_habit_by_name("Piano").map(|h| h.name.clone()), Some(String::from("Piano")));
    assert_eq!(data.find_habit_by_name("piano"), None);
    assert_eq!(data.habit_index("Chess"), None);
}

#[test]
fn store_edits_records_by_position() {
    let mut data = UserData::new();
    data.add_habit(String::from("Running")).unwrap();
    let first = record(2025, 1, 1, (6, 0), (6, 30));
    let second = record(2025, 1, 2, (6, 0), (6, 40));
    assert_eq!(data.add_record(0, first.clone()), Ok(()));
    assert_eq!(data.add_record(1, first.clone()), Err(HabitError::NotFoundError));
    assert_eq!(data.add_record(0, record(2025, 1, 32, (6, 0), (6, 30))), Err(HabitError::ValidationError));
    assert_eq!(data.add_record(0, second.clone()), Ok(()));
    assert_eq!(data.habits[0].records, vec![first.clone(), second.clone()]);
    let third = record(2025, 1, 3, (7, 0), (7, 5));
    assert_eq!(data.replace_record(0, 1, third.clone()), Ok(()));
    assert_eq!(data.replace_record(0, 2, third.clone()), Err(HabitError::NotFoundError));
    assert_eq!(data.habits[0].records, vec![first.clone(), third.clone()]);
    assert_eq!(data.delete_record(0, 0), Ok(first));
    assert_eq!(data.delete_record(0, 1), Err(HabitError::NotFoundError));
    assert_eq!(data.habits[0].records, vec![third]);
    assert!(data.delete_habit(1).is_err());
    assert_eq!(data.delete_habit(0).map(|h| h.name), Ok(String::from("Running")));
    assert!(data.habits.is_empty());
}

#[test]
fn store_of_another_version_is_refused() {
    let current = UserData::new();
    assert_eq!(current.check_version(), Ok(UserData::new()));
    let old = UserData { version: 0, habits: Vec::new() };
    assert_eq!(old.check_version(), Err(HabitError::VersionError));
}

#[test]
fn session_tracks_selection_and_unsaved_changes() {
    let mut app = AppData::new(String::from("data.ron"), UserData::new());
    assert!(!app.must_confirm_quit());
    assert_eq!(app.add_record(record(2025, 1, 1, (6, 0), (6, 30))), Err(HabitError::NotFoundError));
    app.add_habit(String::from("Running")).unwrap();
    assert!(app.must_confirm_quit());
    app.mark_saved();
    assert!(!app.must_confirm_quit());
    assert_eq!(app.open_habit("Swimming"), Err(HabitError::NotFoundError));
    assert_eq!(app.open_habit("Running"), Ok(0));
    assert_eq!(app.selected_habit, Some(0));
    app.add_record(record(2025, 1, 1, (6, 0), (6, 30))).unwrap();
    app.edit_record(0, record(2025, 1, 1, (6, 0), (6, 45))).unwrap();
    assert!(app.unsaved_changes);
    assert_eq!(app.user_data.habits[0].get_stats().total_time, Time { hours: 0, minutes: 45 });
    assert!(app.delete_record(0).is_ok());
    app.back();
    assert_eq!(app.selected_habit, None);
    assert_eq!(app.delete_habit(0).map(|h| h.name), Ok(String::from("Running")));
    assert_eq!(app.data_file_name, "data.ron");
}
