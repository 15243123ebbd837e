//! Secure session layer of a bridge to the pgmoneta backup daemon.
//!
//! The crate holds the credential vault, the SCRAM-SHA-256 handshake engine,
//! the framing of management requests and replies, and the rules by which a
//! reply is checked and prepared for display. Sockets, files and the process
//! around them live outside of it.

pub mod admin;
pub mod client;
pub mod configuration;
pub mod constant;
pub mod error;
pub mod handler;
pub mod handshake;
pub mod json;
pub mod logging;
pub mod security;
pub mod text;
pub mod utils;
pub mod wire;
