//! Sorting files into a `year / month / day` directory tree.
//!
//! The crate holds the decisions of the sorter: which calendar date a file
//! name carries, which date to fall back to, which directory a date maps to,
//! which filesystem operation to try next when a file is moved, and which
//! directories a walk may enter. Touching the filesystem is left to the caller.

pub mod calendar;
pub mod pattern;
pub mod labels;
pub mod paths;
pub mod destination;
pub mod fallback;
pub mod relocate;
pub mod traverse;
pub mod pipeline;
