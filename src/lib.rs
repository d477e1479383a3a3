//! Wireless-link health tracking: the data model of a sampling cycle, the
//! readers of the operating system's tool output, event detection, period
//! statistics, rule-based health analysis and the text report.

pub mod analysis;
pub mod detect;
pub mod metrics;
pub mod names;
pub mod netsh;
pub mod ping;
pub mod probe;
pub mod report;
pub mod series;
pub mod stats;
mod stamp;
pub mod text;
