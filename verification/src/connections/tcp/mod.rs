//! The stream-socket binding: the length-prefix codec, the per-peer
//! transport and the client and server connection state machines.

pub mod binary_formats;
pub mod client;
pub mod connection;
pub mod reader_writer;
pub mod server;
