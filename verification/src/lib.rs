//! Reminders read from a line-oriented schedule, the timer rule that fires
//! them, and the bookkeeping of the alert windows that show them.

pub mod text;
pub mod number;
pub mod reminder;
pub mod schedule;
pub mod alert;
pub mod style;
