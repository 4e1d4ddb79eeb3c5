//! Resolution of IP addresses to country codes against a hot-swappable
//! geolocation database.

pub mod address;
pub mod bootstrap;
pub mod config;
pub mod database;
pub mod handler;
pub mod image;
pub mod parse;
pub mod reload;
pub mod resolver;
pub mod state;
