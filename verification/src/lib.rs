//! Verified core of a small reachability monitor: target validation, the
//! per-target health state machine, failure-event grouping, request planning
//! and the text conversions that sit between the service and its storage.

pub mod api;
pub mod board;
pub mod config;
pub mod events;
pub mod models;
pub mod probe;
pub mod records;
pub mod status;
pub mod text;
pub mod time;
