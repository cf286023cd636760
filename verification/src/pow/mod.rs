//! The first version of the server: a fixed difficulty, a fixed answer,
//! three built-in quotes, and a connection that ends after one quote.

pub mod challenge;
pub mod db;
pub mod state;
