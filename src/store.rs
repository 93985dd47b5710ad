use vstd::prelude::*;
use crate::error::HabitError;
use crate::habit::{Habit, Record};

verus! {

/// Every habit a user keeps, with the version of the format it is kept in.
#[derive(Debug, PartialEq, Eq)]
pub struct UserData {
    pub version: u16,
    pub habits: Vec<Habit>,
}

/// Position of the first habit, from `i` on, named `name`.
pub open spec fn habit_position_from(hs: Seq<Habit>, name: Seq<char>, i: int) -> Option<int>
    decreases hs.len() - i,
{
    if i < 0 || i >= hs.len() {
        None
    } else if hs[i].name@ == name {
        Some(i)
    } else {
        habit_position_from(hs, name, i + 1)
    }
}

/// Position of the first habit named `name`.
pub open spec fn habit_position(hs: Seq<Habit>, name: Seq<char>) -> Option<int> {
    habit_position_from(hs, name, 0)
}

/// Some habit is named `name`.
pub open spec fn name_taken(hs: Seq<Habit>, name: Seq<char>) -> bool {
    exists|i: int| 0 <= i < hs.len() && (#[trigger] hs[i]).name@ == name
}

/// `after` is `before` with one more habit at the end, named `name` and with no
/// records; or, when a habit of that name is already kept, `ValidationError`
/// and nothing changed.
pub open spec fn habit_added(
    before: UserData,
    after: UserData,
    name: Seq<char>,
    r: Result<(), HabitError>,
) -> bool {
    if name_taken(before.habits@, name) {
        r == Err::<(), HabitError>(HabitError::ValidationError) && after == before
    } else {
        &&& r is Ok
        &&& after.version == before.version
        &&& after.habits@.len() == before.habits@.len() + 1
        &&& after.habits@.drop_last() == before.habits@
        &&& after.habits@.last().name@ == name
        &&& after.habits@.last().records@.len() == 0
    }
}

/// `after` is `before` without the habit at `index`, which `r` holds; or, when
/// there is no such habit, `NotFoundError` and nothing changed.
pub open spec fn habit_deleted(
    before: UserData,
    after: UserData,
    index: int,
    r: Result<Habit, HabitError>,
) -> bool {
    if 0 <= index < before.habits@.len() {
        &&& r == Ok::<Habit, HabitError>(before.habits@[index])
        &&& after.version == before.version
        &&& after.habits@ == before.habits@.remove(index)
    } else {
        r == Err::<Habit, HabitError>(HabitError::NotFoundError) && after == before
    }
}

/// `after` is `before` with the records of the habit at `habit` replaced by
/// `records`, and all else kept.
pub open spec fn records_changed(
    before: UserData,
    after: UserData,
    habit: int,
    records: Seq<Record>,
) -> bool {
    &&& after.version == before.version
    &&& after.habits@.len() == before.habits@.len()
    &&& forall|k: int|
        0 <= k < before.habits@.len() && k != habit ==> after.habits@[k] == before.habits@[k]
    &&& after.habits@[habit].name == before.habits@[habit].name
    &&& after.habits@[habit].records@ == records
}

/// The habit at `habit` has a record at `index`.
pub open spec fn has_record(d: UserData, habit: int, index: int) -> bool {
    0 <= habit < d.habits@.len() && 0 <= index < d.habits@[habit].records@.len()
}

/// `after` is `before` with `record` appended to the habit at `habit`; or
/// `NotFoundError` when there is no such habit, `ValidationError` when the
/// record is not valid, and nothing changed.
pub open spec fn record_added(
    before: UserData,
    after: UserData,
    habit: int,
    record: Record,
    r: Result<(), HabitError>,
) -> bool {
    if !(0 <= habit < before.habits@.len()) {
        r == Err::<(), HabitError>(HabitError::NotFoundError) && after == before
    } else if !record.valid() {
        r == Err::<(), HabitError>(HabitError::ValidationError) && after == before
    } else {
        let records = before.habits@[habit].records@.push(record);
        r is Ok && records_changed(before, after, habit, records)
    }
}

/// `after` is `before` with `record` in place of the record at `index` of the
/// habit at `habit`; or `NotFoundError` when there is no such record,
/// `ValidationError` when the record is not valid, and nothing changed.
pub open spec fn record_replaced(
    before: UserData,
    after: UserData,
    habit: int,
    index: int,
    record: Record,
    r: Result<(), HabitError>,
) -> bool {
    if !has_record(before, habit, index) {
        r == Err::<(), HabitError>(HabitError::NotFoundError) && after == before
    } else if !record.valid() {
        r == Err::<(), HabitError>(HabitError::ValidationError) && after == before
    } else {
        let records = before.habits@[habit].records@.update(index, record);
        r is Ok && records_changed(before, after, habit, records)
    }
}

/// `after` is `before` without the record at `index` of the habit at `habit`,
/// which `r` holds; or `NotFoundError` when there is no such record, and
/// nothing changed.
pub open spec fn record_deleted(
    before: UserData,
    after: UserData,
    habit: int,
    index: int,
    r: Result<Record, HabitError>,
) -> bool {
    if !has_record(before, habit, index) {
        r == Err::<Record, HabitError>(HabitError::NotFoundError) && after == before
    } else {
        &&& r == Ok::<Record, HabitError>(before.habits@[habit].records@[index])
        &&& records_changed(
            before,
            after,
            habit,
            before.habits@[habit].records@.remove(index),
        )
    }
}

pub proof fn lemma_habit_position_from(hs: Seq<Habit>, name: Seq<char>, i: int)
    requires
        0 <= i,
    ensures
        match habit_position_from(hs, name, i) {
            Some(j) => i <= j < hs.len() && hs[j].name@ == name && forall|k: int|
                i <= k < j ==> (#[trigger] hs[k]).name@ != name,
            None => forall|k: int| i <= k < hs.len() ==> (#[trigger] hs[k]).name@ != name,
        },
    decreases hs.len() - i,
{
    if i < hs.len() && hs[i].name@ != name {
        lemma_habit_position_from(hs, name, i + 1);
    }
}

impl UserData {
    /// The version of the format that this library reads and writes.
    pub const CURRENT_VERSION: u16 = 1;

    /// An empty store at the current version.
    pub fn new() -> (r: UserData)
        ensures
            r.version == Self::CURRENT_VERSION,
            r.habits@.len() == 0,
    {
        UserData { version: Self::CURRENT_VERSION, habits: Vec::new() }
    }

    /// Position of the first habit named exactly `name`.
    pub fn habit_index(&self, name: &str) -> (r: Option<usize>)
        ensures
            match r {
                Some(i) => habit_position(self.habits@, name@) == Some(i as int),
                None => habit_position(self.habits@, name@) is None,
            },
            r matches Some(i) ==> i < self.habits@.len(),
    {
        proof {
            lemma_habit_position_from(self.habits@, name@, 0);
        }
        let target: String = name.to_owned();
        let mut i: usize = 0;
        while i < self.habits.len()
            invariant
                0 <= i <= self.habits@.len(),
                target@ == name@,
                habit_position(self.habits@, name@) == habit_position_from(
                    self.habits@,
                    name@,
                    i as int,
                ),
            decreases self.habits@.len() - i,
        {
            if self.habits[i].name == target {
                return Some(i);
            }
            i = i + 1;
        }
        None
    }

    /// Adds a habit named `name` with no records, unless a habit of that
    /// name is already kept.
    pub fn add_habit(&mut self, name: String) -> (r: Result<(), HabitError>)
        ensures
            habit_added(*old(self), *final(self), name@, r),
    {
        proof {
            lemma_habit_position_from(self.habits@, name@, 0);
        }
        if self.habit_index(name.as_str()).is_some() {
            return Err(HabitError::ValidationError);
        }
        self.habits.push(Habit { name, records: Vec::new() });
        proof {
            assert(self.habits@.drop_last() == old(self).habits@);
        }
        Ok(())
    }

    /// Removes the habit at `index`, with all its records, and hands it back.
    pub fn delete_habit(&mut self, index: usize) -> (r: Result<Habit, HabitError>)
        ensures
            habit_deleted(*old(self), *final(self), index as int, r),
    {
        if index >= self.habits.len() {
            return Err(HabitError::NotFoundError);
        }
        Ok(self.habits.remove(index))
    }

    /// Appends `record` to the habit at `habit`.
    pub fn add_record(&mut self, habit: usize, record: Record) -> (r: Result<(), HabitError>)
        ensures
            record_added(*old(self), *final(self), habit as int, record, r),
    {
        if habit >= self.habits.len() {
            return Err(HabitError::NotFoundError);
        }
        if !record.is_valid() {
            return Err(HabitError::ValidationError);
        }
        self.habits[habit].records.push(record);
        Ok(())
    }

    /// Puts `record` in place of the record at `index` of the habit at `habit`.
    pub fn replace_record(&mut self, habit: usize, index: usize, record: Record) -> (r: Result<
        (),
        HabitError,
    >)
        ensures
            record_replaced(*old(self), *final(self), habit as int, index as int, record, r),
    {
        if habit >= self.habits.len() || index >= self.habits[habit].records.len() {
            return Err(HabitError::NotFoundError);
        }
        if !record.is_valid() {
            return Err(HabitError::ValidationError);
        }
        self.habits[habit].records.set(index, record);
        Ok(())
    }

    /// Removes the record at `index` of the habit at `habit` and hands it back.
    pub fn delete_record(&mut self, habit: usize, index: usize) -> (r: Result<Record, HabitError>)
        ensures
            record_deleted(*old(self), *final(self), habit as int, index as int, r),
    {
        if habit >= self.habits.len() || index >= self.habits[habit].records.len() {
            return Err(HabitError::NotFoundError);
        }
        Ok(self.habits[habit].records.remove(index))
    }

    /// The store as read back from storage, or `VersionError` when it was
    /// written in another version of the format.
    pub fn check_version(self) -> (r: Result<UserData, HabitError>)
        ensures
            self.version == Self::CURRENT_VERSION ==> r == Ok::<UserData, HabitError>(self),
            self.version != Self::CURRENT_VERSION ==> r == Err::<UserData, HabitError>(
                HabitError::VersionError,
            ),
    {
        if self.version == Self::CURRENT_VERSION {
            Ok(self)
        } else {
            Err(HabitError::VersionError)
        }
    }

    /// The first habit named exactly `name`.
    pub fn find_habit_by_name(&self, name: &str) -> (r: Option<&Habit>)
        ensures
            match habit_position(self.habits@, name@) {
                Some(j) => r is Some && *r.unwrap() == self.habits@[j],
                None => r is None,
            },
    {
        proof {
            lemma_habit_position_from(self.habits@, name@, 0);
        }
        match self.habit_index(name) {
            Some(i) => Some(&self.habits[i]),
            None => None,
        }
    }
}

} // verus!
