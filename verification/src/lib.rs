//! Verified core of a QUIC transport layer for `bevy_stardust`: the wire
//! formats of datagram and segment headers, per-channel sequence numbers,
//! how outgoing messages become datagrams or stream segments, length-prefixed
//! framing, stream buffers, stream outcomes, and endpoint state.

pub mod builder;
pub mod channels;
pub mod datagrams;
pub mod driver;
pub mod endpoint;
pub mod framing;
pub mod futures;
pub mod logging;
pub mod messages;
pub mod misc;
pub mod numbers;
pub mod peers;
pub mod reading;
pub mod receiving;
pub mod runtime;
pub mod segments;
pub mod streams;

pub use misc::bytes_for_channel_id;
