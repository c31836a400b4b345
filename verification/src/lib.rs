//! Deterministic training-analytics and progression-decision engine.
//!
//! The library derives physiological load metrics from raw workout records,
//! maintains a rolling training-load context, evaluates per-dimension
//! progression criteria against that context, and emits machine-decided
//! verdicts with human-readable rationale.
//!
//! Fractional quantities are represented as scaled integers (hundredths,
//! called "centi" throughout); instants are represented as day numbers
//! (whole days since the Unix epoch), so every computation is exact and
//! deterministic.

pub mod adherence;
pub mod callback;
pub mod clock;
pub mod context;
pub mod dimension;
pub mod engine;
pub mod extract;
pub mod fatigue;
pub mod fixtures;
pub mod flags;
pub mod laws;
pub mod metrics;
pub mod oura;
pub mod recovery;
pub mod report;
pub mod schedule;
pub mod settings;
pub mod step;
pub mod strava;
pub mod text;
pub mod wire;
pub mod zones;
