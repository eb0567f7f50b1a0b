//! Protocol engine of a small IMAP-style server: command-line parsing,
//! per-connection authentication state, command dispatch and the
//! per-connection session state machine.

pub mod parser;
pub mod connection;
pub mod dispatch;
pub mod session;
pub mod oauth2;
