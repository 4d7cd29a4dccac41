//! Host-based anti-ransomware detection core.
//!
//! The crate ingests file-system and process events, keeps per-process
//! activity statistics, scores each event with seven heuristic detectors,
//! fuses the scores into one risk value, and decides when a process must be
//! quarantined.  All scores are fixed-point fractions: a `u32` number of
//! millionths, where [`SCORE_ONE`] stands for the real value 1.0.

pub mod config;
pub mod control;
pub mod correlation;
pub mod decision;
pub mod detectors;
pub mod errors;
pub mod events;
pub mod ingest;
pub mod quarantine;
pub mod security;
pub mod shannon;
pub mod stats;
pub mod store;
pub mod telemetry;
pub mod text;

use vstd::prelude::*;

verus! {

/// The fixed-point representation of the real value 1.0.
///
/// Every detector score and every fused risk score is a number of
/// millionths in the range `0 ..= SCORE_ONE`.
pub const SCORE_ONE: u32 = 1_000_000;

} // verus!
