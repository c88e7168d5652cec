//! Core logic of a fantasy-football league tracker: a reconciliation store
//! with insert-or-update-by-natural-key semantics, typed decoding of upstream
//! payloads with documented field defaults, opponent pairing for weekly
//! matchups, standings ranking, playoff-bracket resolution, and the timer
//! arithmetic of the periodic synchronization scheduler.
//!
//! Fantasy point totals are held as integer hundredths of a point, so that
//! all score comparisons are exact.

pub mod types;

pub mod reconcile;

pub mod store;

pub mod bracket;

pub mod payload;

pub mod pairing;

pub mod queries;

pub mod schedule;

pub mod standings;

pub mod sync;
