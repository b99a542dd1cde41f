//! The frames of the protocol, their abstract values, and the small
//! conversions between wire bytes and enumerations.
use vstd::prelude::*;

verus! {

/// Header size: 1 byte type + 4 bytes request_id + 4 bytes payload_len
pub const HEADER_SIZE: usize = 9;

pub const FRAME_REGISTER: u8 = 0x01;
pub const FRAME_REGISTER_ACK: u8 = 0x02;
pub const FRAME_REQUEST: u8 = 0x03;
pub const FRAME_RESPONSE: u8 = 0x04;
pub const FRAME_PING: u8 = 0x05;
pub const FRAME_PONG: u8 = 0x06;
pub const FRAME_ERROR: u8 = 0x07;
pub const FRAME_WS_OPEN: u8 = 0x08;
pub const FRAME_WS_DATA: u8 = 0x09;
pub const FRAME_WS_CLOSE: u8 = 0x0A;
pub const FRAME_STREAM_START: u8 = 0x0B;
pub const FRAME_STREAM_DATA: u8 = 0x0C;
pub const FRAME_STREAM_END: u8 = 0x0D;
pub const FRAME_TCP_OPEN: u8 = 0x0E;
pub const FRAME_TCP_OPEN_ACK: u8 = 0x0F;
pub const FRAME_TCP_DATA: u8 = 0x10;
pub const FRAME_TCP_CLOSE: u8 = 0x11;

/// Everything that can go wrong while decoding a frame.
#[derive(Debug, Clone, Copy, PartialEq, Eq, Structural)]
pub enum DecodeError {
    /// Not enough bytes to parse; need more data.
    Incomplete,
    /// Unknown frame type byte.
    UnknownFrameType(u8),
    /// Invalid HTTP method byte.
    InvalidMethod(u8),
    /// Invalid tunnel type byte.
    InvalidTunnelType(u8),
    /// Invalid UTF-8 in a string field.
    InvalidUtf8,
    /// Payload too short for the declared frame contents.
    PayloadTooShort,
}

/// HTTP method encoded as a single byte (`Get` is 0, ..., `Trace` is 8).
#[derive(Debug, Clone, Copy, PartialEq, Eq, Structural)]
pub enum Method {
    Get,
    Post,
    Put,
    Delete,
    Patch,
    Head,
    Options,
    Connect,
    Trace,
}

impl Method {
    /// The byte that stands for this method on the wire.
    pub open spec fn spec_to_u8(self) -> u8 {
        match self {
            Method::Get => 0,
            Method::Post => 1,
            Method::Put => 2,
            Method::Delete => 3,
            Method::Patch => 4,
            Method::Head => 5,
            Method::Options => 6,
            Method::Connect => 7,
            Method::Trace => 8,
        }
    }

    /// The method that a byte stands for, or `InvalidMethod` for a byte above 8.
    pub open spec fn spec_from_u8(v: u8) -> Result<Method, DecodeError> {
        if v == 0 {
            Ok(Method::Get)
        } else if v == 1 {
            Ok(Method::Post)
        } else if v == 2 {
            Ok(Method::Put)
        } else if v == 3 {
            Ok(Method::Delete)
        } else if v == 4 {
            Ok(Method::Patch)
        } else if v == 5 {
            Ok(Method::Head)
        } else if v == 6 {
            Ok(Method::Options)
        } else if v == 7 {
            Ok(Method::Connect)
        } else if v == 8 {
            Ok(Method::Trace)
        } else {
            Err(DecodeError::InvalidMethod(v))
        }
    }

    pub fn from_u8(v: u8) -> (r: Result<Self, DecodeError>)
        ensures
            r == Self::spec_from_u8(v),
            r matches Ok(m) ==> m.spec_to_u8() == v,
            r is Err <==> v > 8,
    {
        match v {
            0 => Ok(Self::Get),
            1 => Ok(Self::Post),
            2 => Ok(Self::Put),
            3 => Ok(Self::Delete),
            4 => Ok(Self::Patch),
            5 => Ok(Self::Head),
            6 => Ok(Self::Options),
            7 => Ok(Self::Connect),
            8 => Ok(Self::Trace),
            _ => Err(DecodeError::InvalidMethod(v)),
        }
    }

    pub fn to_u8(&self) -> (r: u8)
        ensures
            r == self.spec_to_u8(),
    {
        match self {
            Method::Get => 0,
            Method::Post => 1,
            Method::Put => 2,
            Method::Delete => 3,
            Method::Patch => 4,
            Method::Head => 5,
            Method::Options => 6,
            Method::Connect => 7,
            Method::Trace => 8,
        }
    }
}

/// Tunnel type: HTTP, HTTPS (TLS terminated at edge), or TCP.
#[derive(Debug, Clone, Copy, PartialEq, Eq, Structural)]
pub enum TunnelType {
    Http,
    Https,
    Tcp,
}

impl TunnelType {
    pub open spec fn spec_to_u8(self) -> u8 {
        match self {
            TunnelType::Http => 0,
            TunnelType::Https => 1,
            TunnelType::Tcp => 2,
        }
    }

    pub open spec fn spec_from_u8(v: u8) -> Result<TunnelType, DecodeError> {
        if v == 0 {
            Ok(TunnelType::Http)
        } else if v == 1 {
            Ok(TunnelType::Https)
        } else if v == 2 {
            Ok(TunnelType::Tcp)
        } else {
            Err(DecodeError::InvalidTunnelType(v))
        }
    }

    pub fn from_u8(v: u8) -> (r: Result<Self, DecodeError>)
        ensures
            r == Self::spec_from_u8(v),
            r matches Ok(t) ==> t.spec_to_u8() == v,
            r is Err <==> v > 2,
    {
        match v {
            0 => Ok(Self::Http),
            1 => Ok(Self::Https),
            2 => Ok(Self::Tcp),
            _ => Err(DecodeError::InvalidTunnelType(v)),
        }
    }

    pub fn to_u8(&self) -> (r: u8)
        ensures
            r == self.spec_to_u8(),
    {
        match self {
            TunnelType::Http => 0,
            TunnelType::Https => 1,
            TunnelType::Tcp => 2,
        }
    }
}

/// A key-value header pair.
#[derive(Debug, Clone, PartialEq, Eq)]
pub struct Header {
    pub name: String,
    pub value: String,
}

/// The abstract value of a [`Header`]: its two strings as characters.
pub struct HeaderView {
    pub name: Seq<char>,
    pub value: Seq<char>,
}

impl View for Header {
    type V = HeaderView;

    open spec fn view(&self) -> HeaderView {
        HeaderView { name: self.name@, value: self.value@ }
    }
}

/// The abstract values of a list of headers.
pub open spec fn headers_view(hs: Seq<Header>) -> Seq<HeaderView> {
    hs.map_values(|h: Header| h@)
}

/// The abstract values of a list of strings.
pub open spec fn strings_view(ss: Seq<String>) -> Seq<Seq<char>> {
    ss.map_values(|s: String| s@)
}

/// All frame types in the rs-rok protocol.
#[derive(Debug, Clone, PartialEq, Eq)]
pub enum Frame {
    Register { request_id: u32, tunnel_id: [u8; 16], auth_token: [u8; 32], tunnel_type: TunnelType },
    RegisterAck { request_id: u32, tunnel_id: [u8; 16], public_url: String },
    Request { request_id: u32, method: Method, url: String, headers: Vec<Header>, body: Vec<u8> },
    Response { request_id: u32, status: u16, headers: Vec<Header>, body: Vec<u8> },
    Ping { request_id: u32 },
    Pong { request_id: u32 },
    Error { request_id: u32, code: u16, message: String },
    /// Open a local websocket connection and bind it to `ws_id`.
    WsOpen { request_id: u32, ws_id: u32, url: String, headers: Vec<Header>, protocols: Vec<String> },
    /// Relay one websocket data message on `ws_id`.
    WsData { request_id: u32, ws_id: u32, is_binary: bool, data: Vec<u8> },
    /// Close websocket `ws_id`.
    WsClose { request_id: u32, ws_id: u32, code: u16, reason: String },
    /// Begin a streaming HTTP response (status + headers, no body yet).
    StreamStart { request_id: u32, status: u16, headers: Vec<Header> },
    /// A chunk of data for a streaming HTTP response.
    StreamData { request_id: u32, data: Vec<u8> },
    /// End of a streaming HTTP response.
    StreamEnd { request_id: u32 },
    /// Open a TCP tunnel stream (client -> server via DO).
    TcpOpen { request_id: u32, stream_id: u32, token: String },
    /// Acknowledge a TCP stream open (server -> client via DO).
    TcpOpenAck { request_id: u32, stream_id: u32 },
    /// Raw TCP data (bidirectional).
    TcpData { request_id: u32, stream_id: u32, data: Vec<u8> },
    /// Close a TCP stream (either direction).
    TcpClose { request_id: u32, stream_id: u32, reason: String },
}

/// The abstract value of a [`Frame`]: strings as characters, byte buffers and
/// lists as sequences.
pub enum FrameView {
    Register { request_id: u32, tunnel_id: Seq<u8>, auth_token: Seq<u8>, tunnel_type: TunnelType },
    RegisterAck { request_id: u32, tunnel_id: Seq<u8>, public_url: Seq<char> },
    Request {
        request_id: u32,
        method: Method,
        url: Seq<char>,
        headers: Seq<HeaderView>,
        body: Seq<u8>,
    },
    Response { request_id: u32, status: u16, headers: Seq<HeaderView>, body: Seq<u8> },
    Ping { request_id: u32 },
    Pong { request_id: u32 },
    Error { request_id: u32, code: u16, message: Seq<char> },
    WsOpen {
        request_id: u32,
        ws_id: u32,
        url: Seq<char>,
        headers: Seq<HeaderView>,
        protocols: Seq<Seq<char>>,
    },
    WsData { request_id: u32, ws_id: u32, is_binary: bool, data: Seq<u8> },
    WsClose { request_id: u32, ws_id: u32, code: u16, reason: Seq<char> },
    StreamStart { request_id: u32, status: u16, headers: Seq<HeaderView> },
    StreamData { request_id: u32, data: Seq<u8> },
    StreamEnd { request_id: u32 },
    TcpOpen { request_id: u32, stream_id: u32, token: Seq<char> },
    TcpOpenAck { request_id: u32, stream_id: u32 },
    TcpData { request_id: u32, stream_id: u32, data: Seq<u8> },
    TcpClose { request_id: u32, stream_id: u32, reason: Seq<char> },
}

impl View for Frame {
    type V = FrameView;

    open spec fn view(&self) -> FrameView {
        match self {
            Frame::Register { request_id, tunnel_id, auth_token, tunnel_type } => FrameView::Register {
                request_id: *request_id,
                tunnel_id: tunnel_id@,
                auth_token: auth_token@,
                tunnel_type: *tunnel_type,
            },
            Frame::RegisterAck { request_id, tunnel_id, public_url } => FrameView::RegisterAck {
                request_id: *request_id,
                tunnel_id: tunnel_id@,
                public_url: public_url@,
            },
            Frame::Request { request_id, method, url, headers, body } => FrameView::Request {
                request_id: *request_id,
                method: *method,
                url: url@,
                headers: headers_view(headers@),
                body: body@,
            },
            Frame::Response { request_id, status, headers, body } => FrameView::Response {
                request_id: *request_id,
                status: *status,
                headers: headers_view(headers@),
                body: body@,
            },
            Frame::Ping { request_id } => FrameView::Ping { request_id: *request_id },
            Frame::Pong { request_id } => FrameView::Pong { request_id: *request_id },
            Frame::Error { request_id, code, message } => FrameView::Error {
                request_id: *request_id,
                code: *code,
                message: message@,
            },
            Frame::WsOpen { request_id, ws_id, url, headers, protocols } => FrameView::WsOpen {
                request_id: *request_id,
                ws_id: *ws_id,
                url: url@,
                headers: headers_view(headers@),
                protocols: strings_view(protocols@),
            },
            Frame::WsData { request_id, ws_id, is_binary, data } => FrameView::WsData {
                request_id: *request_id,
                ws_id: *ws_id,
                is_binary: *is_binary,
                data: data@,
            },
            Frame::WsClose { request_id, ws_id, code, reason } => FrameView::WsClose {
                request_id: *request_id,
                ws_id: *ws_id,
                code: *code,
                reason: reason@,
            },
            Frame::StreamStart { request_id, status, headers } => FrameView::StreamStart {
                request_id: *request_id,
                status: *status,
                headers: headers_view(headers@),
            },
            Frame::StreamData { request_id, data } => FrameView::StreamData {
                request_id: *request_id,
                data: data@,
            },
            Frame::StreamEnd { request_id } => FrameView::StreamEnd { request_id: *request_id },
            Frame::TcpOpen { request_id, stream_id, token } => FrameView::TcpOpen {
                request_id: *request_id,
                stream_id: *stream_id,
                token: token@,
            },
            Frame::TcpOpenAck { request_id, stream_id } => FrameView::TcpOpenAck {
                request_id: *request_id,
                stream_id: *stream_id,
            },
            Frame::TcpData { request_id, stream_id, data } => FrameView::TcpData {
                request_id: *request_id,
                stream_id: *stream_id,
                data: data@,
            },
            Frame::TcpClose { request_id, stream_id, reason } => FrameView::TcpClose {
                request_id: *request_id,
                stream_id: *stream_id,
                reason: reason@,
            },
        }
    }
}

impl FrameView {
    pub open spec fn request_id(self) -> u32 {
        match self {
            FrameView::Register { request_id, .. } => request_id,
            FrameView::RegisterAck { request_id, .. } => request_id,
            FrameView::Request { request_id, .. } => request_id,
            FrameView::Response { request_id, .. } => request_id,
            FrameView::Ping { request_id } => request_id,
            FrameView::Pong { request_id } => request_id,
            FrameView::Error { request_id, .. } => request_id,
            FrameView::WsOpen { request_id, .. } => request_id,
            FrameView::WsData { request_id, .. } => request_id,
            FrameView::WsClose { request_id, .. } => request_id,
            FrameView::StreamStart { request_id, .. } => request_id,
            FrameView::StreamData { request_id, .. } => request_id,
            FrameView::StreamEnd { request_id } => request_id,
            FrameView::TcpOpen { request_id, .. } => request_id,
            FrameView::TcpOpenAck { request_id, .. } => request_id,
            FrameView::TcpData { request_id, .. } => request_id,
            FrameView::TcpClose { request_id, .. } => request_id,
        }
    }

    pub open spec fn frame_type(self) -> u8 {
        match self {
            FrameView::Register { .. } => FRAME_REGISTER,
            FrameView::RegisterAck { .. } => FRAME_REGISTER_ACK,
            FrameView::Request { .. } => FRAME_REQUEST,
            FrameView::Response { .. } => FRAME_RESPONSE,
            FrameView::Ping { .. } => FRAME_PING,
            FrameView::Pong { .. } => FRAME_PONG,
            FrameView::Error { .. } => FRAME_ERROR,
            FrameView::WsOpen { .. } => FRAME_WS_OPEN,
            FrameView::WsData { .. } => FRAME_WS_DATA,
            FrameView::WsClose { .. } => FRAME_WS_CLOSE,
            FrameView::StreamStart { .. } => FRAME_STREAM_START,
            FrameView::StreamData { .. } => FRAME_STREAM_DATA,
            FrameView::StreamEnd { .. } => FRAME_STREAM_END,
            FrameView::TcpOpen { .. } => FRAME_TCP_OPEN,
            FrameView::TcpOpenAck { .. } => FRAME_TCP_OPEN_ACK,
            FrameView::TcpData { .. } => FRAME_TCP_DATA,
            FrameView::TcpClose { .. } => FRAME_TCP_CLOSE,
        }
    }
}

impl Frame {
    pub fn request_id(&self) -> (r: u32)
        ensures
            r == self@.request_id(),
    {
        match self {
            Frame::Register { request_id, .. }
            | Frame::RegisterAck { request_id, .. }
            | Frame::Request { request_id, .. }
            | Frame::Response { request_id, .. }
            | Frame::Ping { request_id }
            | Frame::Pong { request_id }
            | Frame::Error { request_id, .. }
            | Frame::WsOpen { request_id, .. }
            | Frame::WsData { request_id, .. }
            | Frame::WsClose { request_id, .. }
            | Frame::StreamStart { request_id, .. }
            | Frame::StreamData { request_id, .. }
            | Frame::StreamEnd { request_id }
            | Frame::TcpOpen { request_id, .. }
            | Frame::TcpOpenAck { request_id, .. }
            | Frame::TcpData { request_id, .. }
            | Frame::TcpClose { request_id, .. } => *request_id,
        }
    }

    pub fn frame_type(&self) -> (r: u8)
        ensures
            r == self@.frame_type(),
    {
        match self {
            Frame::Register { .. } => FRAME_REGISTER,
            Frame::RegisterAck { .. } => FRAME_REGISTER_ACK,
            Frame::Request { .. } => FRAME_REQUEST,
            Frame::Response { .. } => FRAME_RESPONSE,
            Frame::Ping { .. } => FRAME_PING,
            Frame::Pong { .. } => FRAME_PONG,
            Frame::Error { .. } => FRAME_ERROR,
            Frame::WsOpen { .. } => FRAME_WS_OPEN,
            Frame::WsData { .. } => FRAME_WS_DATA,
            Frame::WsClose { .. } => FRAME_WS_CLOSE,
            Frame::StreamStart { .. } => FRAME_STREAM_START,
            Frame::StreamData { .. } => FRAME_STREAM_DATA,
            Frame::StreamEnd { .. } => FRAME_STREAM_END,
            Frame::TcpOpen { .. } => FRAME_TCP_OPEN,
            Frame::TcpOpenAck { .. } => FRAME_TCP_OPEN_ACK,
            Frame::TcpData { .. } => FRAME_TCP_DATA,
            Frame::TcpClose { .. } => FRAME_TCP_CLOSE,
        }
    }
}

} // verus!
