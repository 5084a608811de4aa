//! Core of a personal interval-based time tracker: checkpoints mark moments
//! in time, consecutive checkpoints on a day bound activity intervals, and a
//! week of five working days carries a selection cursor and a derived view of
//! the intervals still waiting to be registered.

pub mod auth;
pub mod calendar;
pub mod checkpoint;
pub mod clock;
pub mod config;
pub mod pbs;
pub mod projects;
pub mod time;
pub mod week;
