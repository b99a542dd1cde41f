//! Frame builders for the edge worker: each takes a frame's fields as plain
//! values (headers as two parallel lists of names and values) and returns the
//! frame's bytes.
use vstd::prelude::*;
use vstd::slice::slice_to_vec;
use crate::encode::encode;
use crate::frame::{headers_view, DecodeError, Frame, FrameView, Header, HeaderView, Method, strings_view};
use crate::wire::spec_encode;

verus! {

/// The headers that pairing `names` with `values` gives: as many as the
/// shorter list holds, the `i`-th name with the `i`-th value.
pub open spec fn zip_headers_view(names: Seq<String>, values: Seq<String>) -> Seq<HeaderView> {
    let n = if names.len() <= values.len() { names.len() } else { values.len() };
    Seq::new(n, |i: int| HeaderView { name: names[i]@, value: values[i]@ })
}

/// Pairs the `i`-th name with the `i`-th value, up to the shorter list.
pub fn zip_headers(names: Vec<String>, values: Vec<String>) -> (r: Vec<Header>)
    ensures
        headers_view(r@) == zip_headers_view(names@, values@),
{
    let n = if names.len() <= values.len() { names.len() } else { values.len() };
    let mut r: Vec<Header> = Vec::new();
    let mut i: usize = 0;
    while i < n
        invariant
            i <= n,
            n <= names.len(),
            n <= values.len(),
            r@.len() == i,
            forall|j: int| 0 <= j < i ==> (#[trigger] r@[j])@ == (HeaderView { name: names@[j]@, value: values@[j]@ }),
        decreases n - i,
    {
        r.push(Header { name: names[i].clone(), value: values[i].clone() });
        i += 1;
    }
    assert(headers_view(r@) =~= zip_headers_view(names@, values@));
    r
}

/// Encode a RESPONSE frame from individual fields.
pub fn encode_response(
    request_id: u32,
    status: u16,
    header_names: Vec<String>,
    header_values: Vec<String>,
    body: &[u8],
) -> (r: Vec<u8>)
    ensures
        r@ == spec_encode(
            FrameView::Response {
                request_id,
                status,
                headers: zip_headers_view(header_names@, header_values@),
                body: body@,
            },
        ),
{
    let headers = zip_headers(header_names, header_values);
    let frame = Frame::Response { request_id, status, headers, body: slice_to_vec(body) };
    encode(&frame)
}

/// Encode a REQUEST frame from individual fields; a method byte above 8 is
/// refused with `InvalidMethod`.
pub fn encode_request(
    request_id: u32,
    method: u8,
    url: &str,
    header_names: Vec<String>,
    header_values: Vec<String>,
    body: &[u8],
) -> (r: Result<Vec<u8>, DecodeError>)
    ensures
        match Method::spec_from_u8(method) {
            Ok(m) => r matches Ok(b) && b@ == spec_encode(
                FrameView::Request {
                    request_id,
                    method: m,
                    url: url@,
                    headers: zip_headers_view(header_names@, header_values@),
                    body: body@,
                },
            ),
            Err(e) => r == Err::<Vec<u8>, DecodeError>(e),
        },
{
    let method = match Method::from_u8(method) {
        Ok(m) => m,
        Err(e) => return Err(e),
    };
    let headers = zip_headers(header_names, header_values);
    let frame = Frame::Request { request_id, method, url: url.to_owned(), headers, body: slice_to_vec(body) };
    Ok(encode(&frame))
}

/// Encode a REGISTER_ACK frame; `None` when `tunnel_id` is not 16 bytes long.
pub fn encode_register_ack(request_id: u32, tunnel_id: &[u8], public_url: &str) -> (r: Option<Vec<u8>>)
    ensures
        r is None <==> tunnel_id@.len() != 16,
        r matches Some(b) ==> b@ == spec_encode(
            FrameView::RegisterAck { request_id, tunnel_id: tunnel_id@, public_url: public_url@ },
        ),
{
    if tunnel_id.len() != 16 {
        return None;
    }
    let mut tid = [0u8; 16];
    let mut i: usize = 0;
    while i < 16
        invariant
            i <= 16,
            tunnel_id@.len() == 16,
            tid@.len() == 16,
            forall|j: int| 0 <= j < i ==> tid@[j] == tunnel_id@[j],
        decreases 16 - i,
    {
        tid[i] = tunnel_id[i];
        i += 1;
    }
    assert(tid@ =~= tunnel_id@);
    let frame = Frame::RegisterAck { request_id, tunnel_id: tid, public_url: public_url.to_owned() };
    Some(encode(&frame))
}

/// Encode a PING frame.
pub fn encode_ping(request_id: u32) -> (r: Vec<u8>)
    ensures
        r@ == spec_encode(FrameView::Ping { request_id }),
{
    encode(&Frame::Ping { request_id })
}

/// Encode a PONG frame.
pub fn encode_pong(request_id: u32) -> (r: Vec<u8>)
    ensures
        r@ == spec_encode(FrameView::Pong { request_id }),
{
    encode(&Frame::Pong { request_id })
}

/// Encode an ERROR frame.
pub fn encode_error(request_id: u32, code: u16, message: &str) -> (r: Vec<u8>)
    ensures
        r@ == spec_encode(FrameView::Error { request_id, code, message: message@ }),
{
    encode(&Frame::Error { request_id, code, message: message.to_owned() })
}

/// Encode a WS_OPEN frame.
pub fn encode_ws_open(
    request_id: u32,
    ws_id: u32,
    url: &str,
    header_names: Vec<String>,
    header_values: Vec<String>,
    protocols: Vec<String>,
) -> (r: Vec<u8>)
    ensures
        r@ == spec_encode(
            FrameView::WsOpen {
                request_id,
                ws_id,
                url: url@,
                headers: zip_headers_view(header_names@, header_values@),
                protocols: strings_view(protocols@),
            },
        ),
{
    let headers = zip_headers(header_names, header_values);
    encode(&Frame::WsOpen { request_id, ws_id, url: url.to_owned(), headers, protocols })
}

/// Encode a WS_DATA frame.
pub fn encode_ws_data(request_id: u32, ws_id: u32, is_binary: bool, data: &[u8]) -> (r: Vec<u8>)
    ensures
        r@ == spec_encode(FrameView::WsData { request_id, ws_id, is_binary, data: data@ }),
{
    encode(&Frame::WsData { request_id, ws_id, is_binary, data: slice_to_vec(data) })
}

/// Encode a WS_CLOSE frame.
pub fn encode_ws_close(request_id: u32, ws_id: u32, code: u16, reason: &str) -> (r: Vec<u8>)
    ensures
        r@ == spec_encode(FrameView::WsClose { request_id, ws_id, code, reason: reason@ }),
{
    encode(&Frame::WsClose { request_id, ws_id, code, reason: reason.to_owned() })
}

/// Encode a STREAM_START frame.
pub fn encode_stream_start(
    request_id: u32,
    status: u16,
    header_names: Vec<String>,
    header_values: Vec<String>,
) -> (r: Vec<u8>)
    ensures
        r@ == spec_encode(
            FrameView::StreamStart {
                request_id,
                status,
                headers: zip_headers_view(header_names@, header_values@),
            },
        ),
{
    let headers = zip_headers(header_names, header_values);
    encode(&Frame::StreamStart { request_id, status, headers })
}

/// Encode a STREAM_DATA frame.
pub fn encode_stream_data(request_id: u32, data: &[u8]) -> (r: Vec<u8>)
    ensures
        r@ == spec_encode(FrameView::StreamData { request_id, data: data@ }),
{
    encode(&Frame::StreamData { request_id, data: slice_to_vec(data) })
}

/// Encode a STREAM_END frame.
pub fn encode_stream_end(request_id: u32) -> (r: Vec<u8>)
    ensures
        r@ == spec_encode(FrameView::StreamEnd { request_id }),
{
    encode(&Frame::StreamEnd { request_id })
}

/// Encode a TCP_OPEN frame.
pub fn encode_tcp_open(request_id: u32, stream_id: u32, token: &str) -> (r: Vec<u8>)
    ensures
        r@ == spec_encode(FrameView::TcpOpen { request_id, stream_id, token: token@ }),
{
    encode(&Frame::TcpOpen { request_id, stream_id, token: token.to_owned() })
}

/// Encode a TCP_OPEN_ACK frame.
pub fn encode_tcp_open_ack(request_id: u32, stream_id: u32) -> (r: Vec<u8>)
    ensures
        r@ == spec_encode(FrameView::TcpOpenAck { request_id, stream_id }),
{
    encode(&Frame::TcpOpenAck { request_id, stream_id })
}

/// Encode a TCP_DATA frame.
pub fn encode_tcp_data(request_id: u32, stream_id: u32, data: &[u8]) -> (r: Vec<u8>)
    ensures
        r@ == spec_encode(FrameView::TcpData { request_id, stream_id, data: data@ }),
{
    encode(&Frame::TcpData { request_id, stream_id, data: slice_to_vec(data) })
}

/// Encode a TCP_CLOSE frame.
pub fn encode_tcp_close(request_id: u32, stream_id: u32, reason: &str) -> (r: Vec<u8>)
    ensures
        r@ == spec_encode(FrameView::TcpClose { request_id, stream_id, reason: reason@ }),
{
    encode(&Frame::TcpClose { request_id, stream_id, reason: reason.to_owned() })
}

} // verus!
