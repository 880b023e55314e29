//! Telemetry extraction, unit conversion and caching for a desktop viewer of
//! fitness-activity files.
//!
//! Every physical quantity is held as a fixed-point integer counting
//! millionths of its unit (see [`units::UNIT`]), so that the arithmetic is exact
//! and its results can be stated and proved.
mod arith;
pub mod cache;
pub mod calendar;
pub mod config;
pub mod range;
pub mod records;
pub mod scrub;
pub mod series;
pub mod stats;
pub mod summary;
pub mod text;
pub mod timestamps;
pub mod units;
