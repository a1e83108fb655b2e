//! Retroactively moves spaced-repetition review timestamps to an earlier day.
//!
//! The verified core covers calendar arithmetic, the day-rollover window,
//! Unicode case-insensitive deck resolution, selection of the notes reviewed
//! inside a window, and the timestamp shift with its dependent-row updates.
//! The surrounding binary does the store I/O and hands this library plain
//! values.

pub mod collection;
pub mod date;
pub mod utils;
pub mod casefold;
pub mod decks;
pub mod report;
pub mod review;
pub mod shift;
pub mod rollover;
