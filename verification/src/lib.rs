//! A verified in-memory key-value store speaking a line-oriented command
//! protocol.
//!
//! A client sends one line of text (`PING`, `ECHO <text...>`,
//! `SET <key> <value...>`, `GET <key>`, `DEL <key>`); the library parses the
//! line into a typed [`command::Cmd`], executes it against a [`store::Store`],
//! and encodes the outcome as one non-empty response line. Parsing, dispatch
//! and encoding are pure and fully specified; the transport around them is
//! not part of this crate.

pub mod command;
pub mod laws;
pub mod store;
pub mod text;
pub mod wire;
