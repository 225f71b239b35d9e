//! Connection/channel core of an AMQP 0-9-1 client.
//!
//! The core establishes one logical connection to a broker, performs the
//! connection-level handshake, and multiplexes logical channels over that
//! connection, routing asynchronously arriving reply frames back to the
//! synchronous call that requested them.
//!
//! Byte-level frame encoding/decoding and the raw socket belong to layers
//! outside this library. The core works on decoded method frames carried by
//! an in-memory [`transport::Transport`] that a driver fills from the wire
//! and drains to it.

pub mod error;
pub mod frame;
pub mod amq_channel;
pub mod connection;
pub mod id_allocator;
pub mod transport;
