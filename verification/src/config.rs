//! The configuration of the service, read once at startup.

use vstd::prelude::*;

verus! {

/// The values that the service is started with.
#[derive(Debug)]
pub struct Config {
    /// The path of the database file.
    pub database_path: String,
    /// The seconds between two reloads of the database.
    pub reload_database_interval: u64,
    /// The host to listen on.
    pub host: String,
    /// The port to listen on.
    pub port: u16,
}

} // verus!
