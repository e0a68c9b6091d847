//! A SOCKS4 forward proxy core: the wire codec, the handshake on both sides,
//! the relay engine and the per-connection session, all free of I/O.
//!
//! The transport is modelled by plain byte buffers, so that every decision the
//! proxy takes is a function of the bytes seen and is stated in a contract.

pub mod client;
pub mod codec;
pub mod protocol;
pub mod relay;
pub mod server;
