//! A verified core for a VBus-to-SQL data logger.
//!
//! The library assembles sensor packets from a VBus stream into a data set
//! (one slot per distinct packet identity), detects when that data set has
//! stabilized, resolves configured output columns to packet fields, and
//! decides, once per time bucket, which field values to persist.

pub mod config;
pub mod data_set_stability;
pub mod error;
pub mod fields;
pub mod packet_id;
pub mod persistence;
pub mod vbus;
