//! Verified core of a weather-station observation pipeline.
//!
//! The library models the station entity, the JSON-to-record
//! normalization with its sentinel policy, the exact decimal unit
//! conversions, the persistence contract, and the polling scheduler.
//! Network and database I/O live outside the library.

pub mod config;
pub mod dec;
pub mod dec_text;
pub mod ingest;
pub mod json;
pub mod scheduler;
pub mod station;
pub mod store;
pub mod strutil;
