//! Value objects: dates, periods and frequencies, metric codes, data points.
//!
//! The submodules depend on one another in one direction only:
//! `error <- value::*`, with no cycle between the submodules.
pub mod date;
pub mod period;
pub mod metric;
pub mod datapoint;
