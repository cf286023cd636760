//! Words of wisdom: a proof-of-work challenge protocol, the server's
//! per-connection state machine, its quote store, and the client's side of
//! the exchange.

pub mod number;
pub mod text;
pub mod challenge;
pub mod command;
pub mod db;
pub mod state;
pub mod pow;
pub mod client;
pub mod cli;
