//! A calculator for durations written in mixed time units.
//!
//! An expression such as `10 ms + 5 ms` or `1000 us as ms` is evaluated from
//! left to right into a single [`time::TimeValue`], which keeps its magnitude as
//! an integer count of nanoseconds and remembers the unit that it is shown in.

pub mod calculate;
pub mod display;
pub mod operations;
pub mod parse;
pub mod text;
pub mod theorems;
pub mod time;
