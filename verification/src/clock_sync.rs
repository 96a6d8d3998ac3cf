//! Clock synchronisation shares the clock's timestamp type and display helpers.

pub use crate::clock::UnixSeconds;
