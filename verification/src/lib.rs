//! A stream multiplexer: many independent byte streams over one connection.

pub mod basic;
pub mod buffer;
pub mod channel;
pub mod connection;
pub mod error;
pub mod frame;
pub mod laws;
pub mod stream;
pub mod wire;
