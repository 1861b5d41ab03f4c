//! Matchup analytics and odds comparison for basketball statistics.
//!
//! Decimal quantities are fixed-point integers in micro-units (one millionth):
//! a percentage of 45.0 is `45_000_000`, a fraction of 0.35 is `350_000`.
//! Probabilities are exact ratios of integers.
pub mod odds;
pub mod text;
pub mod clock;
pub mod ranking;
pub mod screener;
pub mod zones;
pub mod play_types;
pub mod schedule;
pub mod props;
pub mod queries;
pub mod context;

