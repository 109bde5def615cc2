//! The two ways of showing a run's progress on standard output.
pub mod crossterm;
pub mod simple;
