//! The command-line options of the programs and their defaults.

pub mod client;
pub mod server;
