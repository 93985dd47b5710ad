pub mod calendar;
pub mod clock;
pub mod entry;
pub mod error;
pub mod habit;
pub mod session;
pub mod store;

pub use calendar::Date;
pub use clock::Time;
pub use entry::{EntryError, EntryText};
pub use error::HabitError;
pub use habit::{Habit, HabitStats, Record};
pub use session::AppData;
pub use store::UserData;
