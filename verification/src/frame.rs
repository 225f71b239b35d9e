//! The frame model of the client core.
//!
//! Byte-level encoding and decoding belong to the codec layer outside this
//! library; the core works on already-decoded method frames. A frame is an
//! envelope of a channel id and a method payload; connection-level frames
//! always carry channel id 0.

use vstd::prelude::*;

verus! {

/// The fixed 8-byte protocol header sent before any frame:
/// the ASCII letters `A M Q P` followed by the protocol version 0-9-1.
pub const PROTOCOL_HEADER: [u8; 8] = [65, 77, 81, 80, 0, 0, 9, 1];

/// One entry of the client-properties table carried by `ConnStartOk`.
#[derive(Clone, Debug)]
pub struct Property {
    pub key: String,
    pub value: String,
}

/// The connection-level and channel-level methods the core exchanges.
#[derive(Debug)]
pub enum Method {
    /// Broker opens the negotiation.
    ConnStart { version_major: u8, version_minor: u8, mechanisms: String, locales: String },
    /// Client answer to `ConnStart`: properties, mechanism, auth response, locale.
    ConnStartOk { properties: Vec<Property>, mechanism: String, response: String, locale: String },
    /// Broker proposes the connection limits.
    ConnTune { chan_max: u16, frame_max: u32, heartbeat: u16 },
    /// Client echo of the broker-proposed limits.
    ConnTuneOk { chan_max: u16, frame_max: u32, heartbeat: u16 },
    /// Client selects a vhost.
    ConnOpen { vhost: String },
    /// Broker confirms the vhost; the connection is ready.
    ConnOpenOk,
    /// Client asks to open a logical channel.
    ChanOpen,
    /// Broker confirms the channel is open.
    ChanOpenOk,
    /// Client toggles the flow state of a channel.
    ChanFlow { active: bool },
    /// Broker confirms the flow toggle.
    ChanFlowOk { active: bool },
    /// Either side asks to close a channel.
    ChanClose,
    /// Confirmation of a channel close.
    ChanCloseOk,
}

/// The envelope of the wire protocol: a channel id and a method payload.
#[derive(Debug)]
pub struct MethodFrame {
    pub chan: u16,
    pub payload: Method,
}

} // verus!
