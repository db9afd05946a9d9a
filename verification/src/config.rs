//! Static configuration, loaded once at startup by the surrounding program.

use vstd::prelude::*;

verus! {

/// Connection parameters for the relational store.
#[derive(Clone, Debug)]
pub struct DatabaseConfig {
    pub hostname: String,
    pub port: u16,
    pub username: String,
    pub password: String,
    pub database: String,
}

/// The serial port the VBus stream is read from.
#[derive(Clone, Debug)]
pub struct SerialConfig {
    pub path: String,
}

/// Persistence settings: the width of a time bucket, in seconds.
#[derive(Clone, Debug)]
pub struct LoggerConfig {
    pub interval: i32,
}

/// One configured output column: which packet and which field feed it.
#[derive(Clone, Debug)]
pub struct FieldConfig {
    pub column: String,
    pub packet_id: String,
    pub field_id: String,
}

/// The whole configuration.
#[derive(Clone, Debug)]
pub struct Config {
    pub database: DatabaseConfig,
    pub serial: SerialConfig,
    pub logger: LoggerConfig,
    pub fields: Vec<FieldConfig>,
}

} // verus!
