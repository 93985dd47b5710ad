use vstd::prelude::*;
use crate::error::HabitError;
use crate::habit::{Habit, Record};
use crate::store::{
    UserData, habit_added, habit_deleted, habit_position, lemma_habit_position_from, record_added,
    record_deleted, record_replaced,
};

verus! {

/// The state of one interactive session: where the store is kept, the store
/// itself, which habit and record are open, and whether there are changes
/// not yet saved.
pub struct AppData {
    pub data_file_name: String,
    pub user_data: UserData,
    pub selected_habit: Option<usize>,
    pub selected_record: Option<usize>,
    pub unsaved_changes: bool,
}

impl AppData {
    /// `after` keeps the file name and the selection of `before`; its store
    /// changes only when `changed`, and is then marked unsaved.
    pub open spec fn edited(before: AppData, after: AppData, changed: bool) -> bool {
        &&& after.data_file_name == before.data_file_name
        &&& after.selected_habit == before.selected_habit
        &&& after.selected_record == before.selected_record
        &&& after.unsaved_changes == (before.unsaved_changes || changed)
        &&& !changed ==> after.user_data == before.user_data
    }

    /// A session on `user_data`, kept in `data_file_name`, with nothing open
    /// and nothing to save.
    pub fn new(data_file_name: String, user_data: UserData) -> (r: AppData)
        ensures
            r.data_file_name == data_file_name,
            r.user_data == user_data,
            r.selected_habit is None,
            r.selected_record is None,
            !r.unsaved_changes,
    {
        AppData {
            data_file_name,
            user_data,
            selected_habit: None,
            selected_record: None,
            unsaved_changes: false,
        }
    }

    /// Adds a habit named `name`, refused when the name is taken.
    pub fn add_habit(&mut self, name: String) -> (r: Result<(), HabitError>)
        ensures
            habit_added(old(self).user_data, final(self).user_data, name@, r),
            Self::edited(*old(self), *final(self), r is Ok),
    {
        let r = self.user_data.add_habit(name);
        if r.is_ok() {
            self.unsaved_changes = true;
        }
        r
    }

    /// Deletes the habit at `index` and closes whatever was open.
    pub fn delete_habit(&mut self, index: usize) -> (r: Result<Habit, HabitError>)
        ensures
            habit_deleted(old(self).user_data, final(self).user_data, index as int, r),
            r is Err ==> *final(self) == *old(self),
            r is Ok ==> {
                &&& final(self).data_file_name == old(self).data_file_name
                &&& final(self).selected_habit is None
                &&& final(self).selected_record is None
                &&& final(self).unsaved_changes
            },
    {
        let r = self.user_data.delete_habit(index);
        if r.is_ok() {
            self.selected_habit = None;
            self.selected_record = None;
            self.unsaved_changes = true;
        }
        r
    }

    /// Opens the first habit named `name` and gives its position.
    pub fn open_habit(&mut self, name: &str) -> (r: Result<usize, HabitError>)
        ensures
            match habit_position(old(self).user_data.habits@, name@) {
                Some(j) => {
                    &&& r == Ok::<usize, HabitError>(j as usize)
                    &&& final(self).selected_habit == Some(j as usize)
                    &&& final(self).selected_record is None
                    &&& final(self).user_data == old(self).user_data
                    &&& final(self).data_file_name == old(self).data_file_name
                    &&& final(self).unsaved_changes == old(self).unsaved_changes
                },
                None => r == Err::<usize, HabitError>(HabitError::NotFoundError) && *final(self)
                    == *old(self),
            },
    {
        proof {
            lemma_habit_position_from(self.user_data.habits@, name@, 0);
        }
        match self.user_data.habit_index(name) {
            Some(i) => {
                self.selected_habit = Some(i);
                self.selected_record = None;
                Ok(i)
            },
            None => Err(HabitError::NotFoundError),
        }
    }

    /// Closes the open habit.
    pub fn back(&mut self)
        ensures
            final(self).selected_habit is None,
            final(self).selected_record is None,
            final(self).user_data == old(self).user_data,
            final(self).data_file_name == old(self).data_file_name,
            final(self).unsaved_changes == old(self).unsaved_changes,
    {
        self.selected_habit = None;
        self.selected_record = None;
    }

    /// Appends `record` to the open habit; `NotFoundError` when none is open.
    pub fn add_record(&mut self, record: Record) -> (r: Result<(), HabitError>)
        ensures
            match old(self).selected_habit {
                Some(h) => record_added(old(self).user_data, final(self).user_data, h as int, record, r),
                None => r == Err::<(), HabitError>(HabitError::NotFoundError),
            },
            Self::edited(*old(self), *final(self), r is Ok),
    {
        match self.selected_habit {
            Some(h) => {
                let r = self.user_data.add_record(h, record);
                if r.is_ok() {
                    self.unsaved_changes = true;
                }
                r
            },
            None => Err(HabitError::NotFoundError),
        }
    }

    /// Puts `record` in place of the record at `index` of the open habit.
    pub fn edit_record(&mut self, index: usize, record: Record) -> (r: Result<(), HabitError>)
        ensures
            match old(self).selected_habit {
                Some(h) => record_replaced(
                    old(self).user_data,
                    final(self).user_data,
                    h as int,
                    index as int,
                    record,
                    r,
                ),
                None => r == Err::<(), HabitError>(HabitError::NotFoundError),
            },
            Self::edited(*old(self), *final(self), r is Ok),
    {
        match self.selected_habit {
            Some(h) => {
                let r = self.user_data.replace_record(h, index, record);
                if r.is_ok() {
                    self.unsaved_changes = true;
                }
                r
            },
            None => Err(HabitError::NotFoundError),
        }
    }

    /// Removes the record at `index` of the open habit and hands it back.
    pub fn delete_record(&mut self, index: usize) -> (r: Result<Record, HabitError>)
        ensures
            match old(self).selected_habit {
                Some(h) => record_deleted(
                    old(self).user_data,
                    final(self).user_data,
                    h as int,
                    index as int,
                    r,
                ),
                None => r == Err::<Record, HabitError>(HabitError::NotFoundError),
            },
            Self::edited(*old(self), *final(self), r is Ok),
    {
        match self.selected_habit {
            Some(h) => {
                let r = self.user_data.delete_record(h, index);
                if r.is_ok() {
                    self.unsaved_changes = true;
                }
                r
            },
            None => Err(HabitError::NotFoundError),
        }
    }

    /// Records that the store has been written out.
    pub fn mark_saved(&mut self)
        ensures
            !final(self).unsaved_changes,
            final(self).user_data == old(self).user_data,
            final(self).data_file_name == old(self).data_file_name,
            final(self).selected_habit == old(self).selected_habit,
            final(self).selected_record == old(self).selected_record,
    {
        self.unsaved_changes = false;
    }

    /// Quitting asks first exactly when there are changes not yet saved.
    pub fn must_confirm_quit(&self) -> (r: bool)
        ensures
            r == self.unsaved_changes,
    {
        self.unsaved_changes
    }
}

} // verus!
