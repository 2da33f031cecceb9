//! The values that travel between clients and the server.
pub mod message;
