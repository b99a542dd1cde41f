//! rs-rok: a tunnel that exposes local services through an edge relay.
//!
//! The heart of the library is the binary framing protocol spoken between the
//! command-line client and the relay: frame layout
//! `[1B type][4B request_id LE][4B payload_len LE][payload]`.
pub mod frame;
pub mod wire;
pub mod encode;
pub mod decode;
pub mod laws;
pub mod worker;
pub mod text;
pub mod proxy;
pub mod tunnel;
pub mod tcp_client;
pub mod deploy;
pub mod cli;

pub use crate::decode::decode;
pub use crate::encode::encode;
pub use crate::frame::{
    DecodeError, Frame, Header, Method, TunnelType, FRAME_ERROR, FRAME_PING, FRAME_PONG,
    FRAME_REGISTER, FRAME_REGISTER_ACK, FRAME_REQUEST, FRAME_RESPONSE, FRAME_STREAM_DATA,
    FRAME_STREAM_END, FRAME_STREAM_START, FRAME_TCP_CLOSE, FRAME_TCP_DATA, FRAME_TCP_OPEN,
    FRAME_TCP_OPEN_ACK, FRAME_WS_CLOSE, FRAME_WS_DATA, FRAME_WS_OPEN, HEADER_SIZE,
};
