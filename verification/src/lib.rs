//! A chat-room server core: rooms with bounded history, a user table,
//! addressed events, and the per-connection state machine that drives them.
//!
//! The crate holds no sockets and no locks. Every operation takes the state by
//! `&mut`, changes it, and returns the envelopes that a transport has to fan out.
pub mod clock;
pub mod codec;
pub mod connection;
pub mod consistency;
pub mod entity;
pub mod ident;
pub mod laws;
pub mod model;
pub mod room;
pub mod server;
