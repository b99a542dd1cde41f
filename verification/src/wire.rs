//! What the bytes of a frame are: the encoding of each field and of each
//! frame, and the reading of bytes back into frames, as spec functions.
use vstd::prelude::*;
use vstd::utf8::{decode_utf8, encode_utf8, valid_utf8};
use crate::frame::{DecodeError, FrameView, HeaderView, Method, TunnelType};

verus! {

// ---------------------------------------------------------------------------
// Integers, little-endian
// ---------------------------------------------------------------------------

/// The two bytes of `v`, least significant first.
#[verifier::opaque]
pub open spec fn le16(v: u16) -> Seq<u8> {
    seq![(v % 256) as u8, (v / 256) as u8]
}

/// The four bytes of `v`, least significant first.
#[verifier::opaque]
pub open spec fn le32(v: u32) -> Seq<u8> {
    seq![(v % 256) as u8, ((v / 256) % 256) as u8, ((v / 65536) % 256) as u8, (v / 16777216) as u8]
}

/// The number that two bytes stand for, least significant first.
#[verifier::opaque]
pub open spec fn from_le16(b: Seq<u8>) -> u16 {
    (b[0] + b[1] * 256) as u16
}

/// The number that four bytes stand for, least significant first.
#[verifier::opaque]
pub open spec fn from_le32(b: Seq<u8>) -> u32 {
    (b[0] + b[1] * 256 + b[2] * 65536 + b[3] * 16777216) as u32
}

// ---------------------------------------------------------------------------
// Encoding
// ---------------------------------------------------------------------------

/// A string: its UTF-8 length as a little-endian `u16` (truncated to 16
/// bits, as the writer does), then its UTF-8 bytes.
pub open spec fn enc_str(s: Seq<char>) -> Seq<u8> {
    le16(encode_utf8(s).len() as u16) + encode_utf8(s)
}

/// The headers one after the other, each as its name then its value.
pub open spec fn enc_header_list(hs: Seq<HeaderView>) -> Seq<u8>
    decreases hs.len(),
{
    if hs.len() == 0 {
        Seq::empty()
    } else {
        enc_header_list(hs.drop_last()) + enc_str(hs.last().name) + enc_str(hs.last().value)
    }
}

/// A header list: its count as a little-endian `u16` (truncated), then the headers.
pub open spec fn enc_headers(hs: Seq<HeaderView>) -> Seq<u8> {
    le16(hs.len() as u16) + enc_header_list(hs)
}

/// The strings one after the other.
pub open spec fn enc_string_list(ss: Seq<Seq<char>>) -> Seq<u8>
    decreases ss.len(),
{
    if ss.len() == 0 {
        Seq::empty()
    } else {
        enc_string_list(ss.drop_last()) + enc_str(ss.last())
    }
}

/// A string list: its count as a little-endian `u16` (truncated), then the strings.
pub open spec fn enc_strings(ss: Seq<Seq<char>>) -> Seq<u8> {
    le16(ss.len() as u16) + enc_string_list(ss)
}

/// A byte buffer: its length as a little-endian `u32` (truncated), then the bytes.
pub open spec fn enc_blob(b: Seq<u8>) -> Seq<u8> {
    le32(b.len() as u32) + b
}

pub open spec fn bool_byte(b: bool) -> u8 {
    if b { 1 } else { 0 }
}

/// The payload of a frame: its fields after the 9-byte header.
pub open spec fn payload(f: FrameView) -> Seq<u8> {
    match f {
        FrameView::Register { tunnel_id, auth_token, tunnel_type, .. } =>
            tunnel_id + auth_token + seq![tunnel_type.spec_to_u8()],
        FrameView::RegisterAck { tunnel_id, public_url, .. } => tunnel_id + enc_str(public_url),
        FrameView::Request { method, url, headers, body, .. } =>
            seq![method.spec_to_u8()] + enc_str(url) + enc_headers(headers) + enc_blob(body),
        FrameView::Response { status, headers, body, .. } =>
            le16(status) + enc_headers(headers) + enc_blob(body),
        FrameView::Ping { .. } => Seq::empty(),
        FrameView::Pong { .. } => Seq::empty(),
        FrameView::Error { code, message, .. } => le16(code) + enc_str(message),
        FrameView::WsOpen { ws_id, url, headers, protocols, .. } =>
            le32(ws_id) + enc_str(url) + enc_headers(headers) + enc_strings(protocols),
        FrameView::WsData { ws_id, is_binary, data, .. } =>
            le32(ws_id) + seq![bool_byte(is_binary)] + enc_blob(data),
        FrameView::WsClose { ws_id, code, reason, .. } =>
            le32(ws_id) + le16(code) + enc_str(reason),
        FrameView::StreamStart { status, headers, .. } =>
            le16(status) + enc_headers(headers),
        FrameView::StreamData { data, .. } => enc_blob(data),
        FrameView::StreamEnd { .. } => Seq::empty(),
        FrameView::TcpOpen { stream_id, token, .. } => le32(stream_id) + enc_str(token),
        FrameView::TcpOpenAck { stream_id, .. } => le32(stream_id),
        FrameView::TcpData { stream_id, data, .. } => le32(stream_id) + enc_blob(data),
        FrameView::TcpClose { stream_id, reason, .. } =>
            le32(stream_id) + enc_str(reason),
    }
}

/// The bytes of a frame: type, request id, payload length (truncated to 32
/// bits), payload.
pub open spec fn spec_encode(f: FrameView) -> Seq<u8> {
    seq![f.frame_type()] + le32(f.request_id()) + le32(
        payload(f).len() as u32,
    ) + payload(f)
}

// ---------------------------------------------------------------------------
// Decoding
// ---------------------------------------------------------------------------

/// The outcome of reading a value from the front of some bytes: the value and
/// the bytes that follow it, or the error.
pub type Parsed<T> = Result<(T, Seq<u8>), DecodeError>;

pub open spec fn parse_u8(s: Seq<u8>) -> Parsed<u8> {
    if s.len() >= 1 {
        Ok((s[0], s.skip(1)))
    } else {
        Err(DecodeError::PayloadTooShort)
    }
}

pub open spec fn parse_u16(s: Seq<u8>) -> Parsed<u16> {
    if s.len() >= 2 {
        Ok((from_le16(s.take(2)), s.skip(2)))
    } else {
        Err(DecodeError::PayloadTooShort)
    }
}

pub open spec fn parse_u32(s: Seq<u8>) -> Parsed<u32> {
    if s.len() >= 4 {
        Ok((from_le32(s.take(4)), s.skip(4)))
    } else {
        Err(DecodeError::PayloadTooShort)
    }
}

pub open spec fn parse_bytes(s: Seq<u8>, n: nat) -> Parsed<Seq<u8>> {
    if s.len() >= n {
        Ok((s.take(n as int), s.skip(n as int)))
    } else {
        Err(DecodeError::PayloadTooShort)
    }
}

/// A length-prefixed string whose bytes must be valid UTF-8.
pub open spec fn parse_str(s: Seq<u8>) -> Parsed<Seq<char>> {
    match parse_u16(s) {
        Err(e) => Err(e),
        Ok((n, r)) => match parse_bytes(r, n as nat) {
            Err(e) => Err(e),
            Ok((b, r2)) => if valid_utf8(b) {
                Ok((decode_utf8(b), r2))
            } else {
                Err(DecodeError::InvalidUtf8)
            },
        },
    }
}

/// `n` headers, each a name then a value.
pub open spec fn parse_header_list(s: Seq<u8>, n: nat) -> Parsed<Seq<HeaderView>>
    decreases n,
{
    if n == 0 {
        Ok((Seq::empty(), s))
    } else {
        match parse_header_list(s, (n - 1) as nat) {
            Err(e) => Err(e),
            Ok((hs, r)) => match parse_str(r) {
                Err(e) => Err(e),
                Ok((name, r2)) => match parse_str(r2) {
                    Err(e) => Err(e),
                    Ok((value, r3)) => Ok((hs.push(HeaderView { name, value }), r3)),
                },
            },
        }
    }
}

pub open spec fn parse_headers(s: Seq<u8>) -> Parsed<Seq<HeaderView>> {
    match parse_u16(s) {
        Err(e) => Err(e),
        Ok((n, r)) => parse_header_list(r, n as nat),
    }
}

/// `n` strings.
pub open spec fn parse_string_list(s: Seq<u8>, n: nat) -> Parsed<Seq<Seq<char>>>
    decreases n,
{
    if n == 0 {
        Ok((Seq::empty(), s))
    } else {
        match parse_string_list(s, (n - 1) as nat) {
            Err(e) => Err(e),
            Ok((ss, r)) => match parse_str(r) {
                Err(e) => Err(e),
                Ok((x, r2)) => Ok((ss.push(x), r2)),
            },
        }
    }
}

pub open spec fn parse_strings(s: Seq<u8>) -> Parsed<Seq<Seq<char>>> {
    match parse_u16(s) {
        Err(e) => Err(e),
        Ok((n, r)) => parse_string_list(r, n as nat),
    }
}

/// A `u32`-length-prefixed byte buffer.
pub open spec fn parse_blob(s: Seq<u8>) -> Parsed<Seq<u8>> {
    match parse_u32(s) {
        Err(e) => Err(e),
        Ok((n, r)) => parse_bytes(r, n as nat),
    }
}

pub open spec fn parse_register(rid: u32, p: Seq<u8>) -> Result<FrameView, DecodeError> {
    match parse_bytes(p, 16) {
        Err(e) => Err(e),
        Ok((tunnel_id, r1)) => match parse_bytes(r1, 32) {
            Err(e) => Err(e),
            Ok((auth_token, r2)) => match parse_u8(r2) {
                Err(e) => Err(e),
                Ok((tt, _)) => match TunnelType::spec_from_u8(tt) {
                    Err(e) => Err(e),
                    Ok(tunnel_type) => Ok(
                        FrameView::Register { request_id: rid, tunnel_id, auth_token, tunnel_type },
                    ),
                },
            },
        },
    }
}

pub open spec fn parse_register_ack(rid: u32, p: Seq<u8>) -> Result<FrameView, DecodeError> {
    match parse_bytes(p, 16) {
        Err(e) => Err(e),
        Ok((tunnel_id, r1)) => match parse_str(r1) {
            Err(e) => Err(e),
            Ok((public_url, _)) => Ok(FrameView::RegisterAck { request_id: rid, tunnel_id, public_url }),
        },
    }
}

pub open spec fn parse_request(rid: u32, p: Seq<u8>) -> Result<FrameView, DecodeError> {
    match parse_u8(p) {
        Err(e) => Err(e),
        Ok((mb, r1)) => match Method::spec_from_u8(mb) {
            Err(e) => Err(e),
            Ok(method) => match parse_str(r1) {
                Err(e) => Err(e),
                Ok((url, r2)) => match parse_headers(r2) {
                    Err(e) => Err(e),
                    Ok((headers, r3)) => match parse_blob(r3) {
                        Err(e) => Err(e),
                        Ok((body, _)) => Ok(
                            FrameView::Request { request_id: rid, method, url, headers, body },
                        ),
                    },
                },
            },
        },
    }
}

pub open spec fn parse_response(rid: u32, p: Seq<u8>) -> Result<FrameView, DecodeError> {
    match parse_u16(p) {
        Err(e) => Err(e),
        Ok((status, r1)) => match parse_headers(r1) {
            Err(e) => Err(e),
            Ok((headers, r2)) => match parse_blob(r2) {
                Err(e) => Err(e),
                Ok((body, _)) => Ok(FrameView::Response { request_id: rid, status, headers, body }),
            },
        },
    }
}

pub open spec fn parse_error(rid: u32, p: Seq<u8>) -> Result<FrameView, DecodeError> {
    match parse_u16(p) {
        Err(e) => Err(e),
        Ok((code, r1)) => match parse_str(r1) {
            Err(e) => Err(e),
            Ok((message, _)) => Ok(FrameView::Error { request_id: rid, code, message }),
        },
    }
}

pub open spec fn parse_ws_open(rid: u32, p: Seq<u8>) -> Result<FrameView, DecodeError> {
    match parse_u32(p) {
        Err(e) => Err(e),
        Ok((ws_id, r1)) => match parse_str(r1) {
            Err(e) => Err(e),
            Ok((url, r2)) => match parse_headers(r2) {
                Err(e) => Err(e),
                Ok((headers, r3)) => match parse_strings(r3) {
                    Err(e) => Err(e),
                    Ok((protocols, _)) => Ok(
                        FrameView::WsOpen { request_id: rid, ws_id, url, headers, protocols },
                    ),
                },
            },
        },
    }
}

pub open spec fn parse_ws_data(rid: u32, p: Seq<u8>) -> Result<FrameView, DecodeError> {
    match parse_u32(p) {
        Err(e) => Err(e),
        Ok((ws_id, r1)) => match parse_u8(r1) {
            Err(e) => Err(e),
            Ok((b, r2)) => match parse_blob(r2) {
                Err(e) => Err(e),
                Ok((data, _)) => Ok(
                    FrameView::WsData { request_id: rid, ws_id, is_binary: b != 0, data },
                ),
            },
        },
    }
}

pub open spec fn parse_ws_close(rid: u32, p: Seq<u8>) -> Result<FrameView, DecodeError> {
    match parse_u32(p) {
        Err(e) => Err(e),
        Ok((ws_id, r1)) => match parse_u16(r1) {
            Err(e) => Err(e),
            Ok((code, r2)) => match parse_str(r2) {
                Err(e) => Err(e),
                Ok((reason, _)) => Ok(FrameView::WsClose { request_id: rid, ws_id, code, reason }),
            },
        },
    }
}

pub open spec fn parse_stream_start(rid: u32, p: Seq<u8>) -> Result<FrameView, DecodeError> {
    match parse_u16(p) {
        Err(e) => Err(e),
        Ok((status, r1)) => match parse_headers(r1) {
            Err(e) => Err(e),
            Ok((headers, _)) => Ok(FrameView::StreamStart { request_id: rid, status, headers }),
        },
    }
}

pub open spec fn parse_stream_data(rid: u32, p: Seq<u8>) -> Result<FrameView, DecodeError> {
    match parse_blob(p) {
        Err(e) => Err(e),
        Ok((data, _)) => Ok(FrameView::StreamData { request_id: rid, data }),
    }
}

pub open spec fn parse_tcp_open(rid: u32, p: Seq<u8>) -> Result<FrameView, DecodeError> {
    match parse_u32(p) {
        Err(e) => Err(e),
        Ok((stream_id, r1)) => match parse_str(r1) {
            Err(e) => Err(e),
            Ok((token, _)) => Ok(FrameView::TcpOpen { request_id: rid, stream_id, token }),
        },
    }
}

pub open spec fn parse_tcp_open_ack(rid: u32, p: Seq<u8>) -> Result<FrameView, DecodeError> {
    match parse_u32(p) {
        Err(e) => Err(e),
        Ok((stream_id, _)) => Ok(FrameView::TcpOpenAck { request_id: rid, stream_id }),
    }
}

pub open spec fn parse_tcp_data(rid: u32, p: Seq<u8>) -> Result<FrameView, DecodeError> {
    match parse_u32(p) {
        Err(e) => Err(e),
        Ok((stream_id, r1)) => match parse_blob(r1) {
            Err(e) => Err(e),
            Ok((data, _)) => Ok(FrameView::TcpData { request_id: rid, stream_id, data }),
        },
    }
}

pub open spec fn parse_tcp_close(rid: u32, p: Seq<u8>) -> Result<FrameView, DecodeError> {
    match parse_u32(p) {
        Err(e) => Err(e),
        Ok((stream_id, r1)) => match parse_str(r1) {
            Err(e) => Err(e),
            Ok((reason, _)) => Ok(FrameView::TcpClose { request_id: rid, stream_id, reason }),
        },
    }
}

/// The frame that a payload holds, given the frame's type byte and request id.
/// Bytes left over at the end of the payload are ignored.
pub open spec fn parse_payload(ft: u8, rid: u32, p: Seq<u8>) -> Result<FrameView, DecodeError> {
    if ft == 0x01 {
        parse_register(rid, p)
    } else if ft == 0x02 {
        parse_register_ack(rid, p)
    } else if ft == 0x03 {
        parse_request(rid, p)
    } else if ft == 0x04 {
        parse_response(rid, p)
    } else if ft == 0x05 {
        Ok(FrameView::Ping { request_id: rid })
    } else if ft == 0x06 {
        Ok(FrameView::Pong { request_id: rid })
    } else if ft == 0x07 {
        parse_error(rid, p)
    } else if ft == 0x08 {
        parse_ws_open(rid, p)
    } else if ft == 0x09 {
        parse_ws_data(rid, p)
    } else if ft == 0x0A {
        parse_ws_close(rid, p)
    } else if ft == 0x0B {
        parse_stream_start(rid, p)
    } else if ft == 0x0C {
        parse_stream_data(rid, p)
    } else if ft == 0x0D {
        Ok(FrameView::StreamEnd { request_id: rid })
    } else if ft == 0x0E {
        parse_tcp_open(rid, p)
    } else if ft == 0x0F {
        parse_tcp_open_ack(rid, p)
    } else if ft == 0x10 {
        parse_tcp_data(rid, p)
    } else if ft == 0x11 {
        parse_tcp_close(rid, p)
    } else {
        Err(DecodeError::UnknownFrameType(ft))
    }
}

/// The length of the payload that a header declares (bytes 5 to 8).
pub open spec fn declared_payload_len(data: Seq<u8>) -> nat {
    from_le32(data.subrange(5, 9)) as nat
}

/// Decoding a single frame from the front of `data`: the frame and the number
/// of bytes it takes (header and payload), `Incomplete` when the header or the
/// declared payload is not all there, or the first error met while reading the
/// payload's fields.
pub open spec fn spec_decode(data: Seq<u8>) -> Result<(FrameView, nat), DecodeError> {
    if data.len() < 9 {
        Err(DecodeError::Incomplete)
    } else if data.len() < 9 + declared_payload_len(data) {
        Err(DecodeError::Incomplete)
    } else {
        let total = 9 + declared_payload_len(data);
        match parse_payload(
            data[0],
            from_le32(data.subrange(1, 5)),
            data.subrange(9, total as int),
        ) {
            Ok(f) => Ok((f, total)),
            Err(e) => Err(e),
        }
    }
}

} // verus!
