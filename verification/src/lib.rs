//! A tracker for recurring personal tasks ("remindables"): each has a unique
//! key, a description, the date it was last done, and a recurrence interval.
//! The library parses and formats the compact date and duration text encodings
//! used at the storage boundary, decides which tasks are overdue, and provides
//! keyed create/read/update/delete access to records in a SQLite-backed store.

pub mod database;
pub mod date;
pub mod digits;
pub mod interval;
pub mod remindable;
pub mod result;
