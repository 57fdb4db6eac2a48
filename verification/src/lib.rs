//! Spaced-repetition scheduling for a vocabulary learning service.
//!
//! The heart of the crate is the review scheduler: a pure state machine that
//! blends a short, minute-granularity learning phase with a long,
//! day-granularity review phase governed by an ease factor.  Around it sit a
//! memory-strength estimator, an in-memory vocabulary record store, daily
//! progress and streak tracking, and the small plain-data types the service
//! exchanges with its callers.

pub mod api;
pub mod auth;
pub mod calendar;
pub mod dto;
pub mod history;
pub mod invite;
pub mod progress;
pub mod schedule;
pub mod service;
pub mod store;
pub mod strength;
pub mod text;
pub mod usage;
pub mod youtube;

pub use schedule::Phase;
pub use schedule::ScheduleError;
pub use schedule::ScheduleState;
