//! Health evaluation and remediation for monitored machine-learning models.
//!
//! Time is counted in whole seconds and every ratio (sample values, scores,
//! thresholds, the decay factor) in millionths of one, so that all of the
//! engine's arithmetic is exact integer arithmetic.

pub mod config;
pub mod health;
pub mod remediation;
pub mod alerts;
pub mod scheduler;
pub mod store;
pub mod monitor;
pub mod plugin;
