//! Broadcast delivery of one message to many chat channels through a
//! rate-limited remote API, together with the small protocol and command
//! rules of the bot around it.
//!
//! Everything here is plain computation on plain values. The program that
//! owns the sockets, the timers and the database drives these functions and
//! carries out what they decide.

pub mod classify;
pub mod client;
pub mod db;
pub mod decimal;
pub mod discord;
pub mod dispatcher;
pub mod invariants;
pub mod json;
pub mod outcome;
pub mod request;
pub mod text;
