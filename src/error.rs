use vstd::prelude::*;

verus! {

/// What can go wrong when working with habits and their records.
#[derive(Clone, Copy, Debug, PartialEq, Eq, Structural)]
pub enum HabitError {
    /// A date or a time of day is not a real one, or an entry ends before it starts.
    ValidationError,
    /// A duration was asked for between an end that precedes its start.
    OrderError,
    /// No habit or record answers to the given name or position.
    NotFoundError,
    /// Stored data could not be read or written.
    IoError,
    /// Stored data is not well-formed.
    DeserializationError,
    /// Stored data was written by another version of the format.
    VersionError,
}

} // verus!
