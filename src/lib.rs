//! A client for the "function call" protocol of a school portal: session
//! bootstrap, encrypted order numbers and sequenced request envelopes, with the
//! handshake as a verified state machine that a transport drives. Beside it,
//! the pure parts of the web front-end (request targets, API routing) and of
//! the browser driver (date labels of the homework page).

pub mod text;
pub mod codec;
pub mod counter;
pub mod bootstrap;
pub mod envelope;
pub mod client;
pub mod query;
pub mod homework;
