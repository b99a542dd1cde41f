//! Reading frames from bytes.
use vstd::prelude::*;
use vstd::slice::{slice_subrange, slice_to_vec};
use vstd::utf8::{encode_utf8, encode_utf8_decode_utf8, valid_utf8};
use crate::frame::{
    headers_view, strings_view, DecodeError, Frame, FrameView, Header, HeaderView, Method,
    TunnelType, FRAME_ERROR, FRAME_PING, FRAME_PONG, FRAME_REGISTER, FRAME_REGISTER_ACK,
    FRAME_REQUEST, FRAME_RESPONSE, FRAME_STREAM_DATA, FRAME_STREAM_END, FRAME_STREAM_START,
    FRAME_TCP_CLOSE, FRAME_TCP_DATA, FRAME_TCP_OPEN, FRAME_TCP_OPEN_ACK, FRAME_WS_CLOSE,
    FRAME_WS_DATA, FRAME_WS_OPEN, HEADER_SIZE,
};
use crate::wire::{
    from_le16, from_le32, parse_payload, parse_register, parse_register_ack, parse_request, parse_response, parse_error,
    parse_ws_open, parse_ws_data, parse_ws_close, parse_stream_start, parse_stream_data,
    parse_tcp_open, parse_tcp_open_ack, parse_tcp_data, parse_tcp_close, spec_decode,
    declared_payload_len, parse_blob, parse_bytes, parse_header_list, parse_headers, parse_str, parse_string_list,
    parse_strings, parse_u16, parse_u32, parse_u8,
};

verus! {

/// `core::str::from_utf8`: the bytes as a string slice when they are valid
/// UTF-8, `None` otherwise. Its contract claims that the check is exactly
/// UTF-8 validity and that the slice it returns holds the same bytes.
#[verifier::external_body]
pub(crate) fn str_from_utf8(bytes: &[u8]) -> (r: Option<&str>)
    ensures
        r is Some <==> valid_utf8(bytes@),
        r matches Some(s) ==> encode_utf8(s@) == bytes@,
{
    core::str::from_utf8(bytes).ok()
}

/// The little-endian `u32` at `pos`.
fn le_u32_at(data: &[u8], pos: usize) -> (r: u32)
    requires
        pos + 4 <= data@.len(),
    ensures
        r == from_le32(data@.subrange(pos as int, pos + 4)),
{
    proof {
        reveal(from_le32);
    }
    (data[pos] as u32) + (data[pos + 1] as u32) * 256 + (data[pos + 2] as u32) * 65536 + (data[
        pos + 3] as u32) * 16777216
}

/// A cursor over the payload of a frame.
struct Reader<'a> {
    data: &'a [u8],
    pos: usize,
}

impl<'a> Reader<'a> {
    /// The bytes not read yet.
    spec fn rest(&self) -> Seq<u8> {
        self.data@.skip(self.pos as int)
    }

    spec fn wf(&self) -> bool {
        self.pos <= self.data@.len()
    }

    fn new(data: &'a [u8]) -> (r: Self)
        ensures
            r.wf(),
            r.rest() == data@,
    {
        let r = Reader { data, pos: 0 };
        assert(r.rest() =~= data@);
        r
    }

    fn remaining(&self) -> (r: usize)
        requires
            self.wf(),
        ensures
            r == self.rest().len(),
    {
        self.data.len() - self.pos
    }

    fn read_u8(&mut self) -> (r: Result<u8, DecodeError>)
        requires
            old(self).wf(),
        ensures
            final(self).wf(),
            match parse_u8(old(self).rest()) {
                Ok((v, rest)) => r == Ok::<u8, DecodeError>(v) && final(self).rest() == rest,
                Err(e) => r == Err::<u8, DecodeError>(e),
            },
    {
        if self.data.len() - self.pos < 1 {
            return Err(DecodeError::PayloadTooShort);
        }
        let v = self.data[self.pos];
        self.pos += 1;
        assert(self.rest() =~= old(self).rest().skip(1));
        Ok(v)
    }

    fn read_u16_le(&mut self) -> (r: Result<u16, DecodeError>)
        requires
            old(self).wf(),
        ensures
            final(self).wf(),
            match parse_u16(old(self).rest()) {
                Ok((v, rest)) => r == Ok::<u16, DecodeError>(v) && final(self).rest() == rest,
                Err(e) => r == Err::<u16, DecodeError>(e),
            },
    {
        if self.data.len() - self.pos < 2 {
            return Err(DecodeError::PayloadTooShort);
        }
        proof {
            reveal(from_le16);
        }
        let v = (self.data[self.pos] as u16) + (self.data[self.pos + 1] as u16) * 256;
        assert(v == from_le16(old(self).rest().take(2)));
        self.pos += 2;
        assert(self.rest() =~= old(self).rest().skip(2));
        Ok(v)
    }

    fn read_u32_le(&mut self) -> (r: Result<u32, DecodeError>)
        requires
            old(self).wf(),
        ensures
            final(self).wf(),
            match parse_u32(old(self).rest()) {
                Ok((v, rest)) => r == Ok::<u32, DecodeError>(v) && final(self).rest() == rest,
                Err(e) => r == Err::<u32, DecodeError>(e),
            },
    {
        if self.data.len() - self.pos < 4 {
            return Err(DecodeError::PayloadTooShort);
        }
        let v = le_u32_at(self.data, self.pos);
        assert(self.data@.subrange(self.pos as int, self.pos + 4) =~= old(self).rest().take(4));
        self.pos += 4;
        assert(self.rest() =~= old(self).rest().skip(4));
        Ok(v)
    }

    fn read_bytes(&mut self, n: usize) -> (r: Result<&'a [u8], DecodeError>)
        requires
            old(self).wf(),
        ensures
            final(self).wf(),
            match parse_bytes(old(self).rest(), n as nat) {
                Ok((b, rest)) => r matches Ok(s) && s@ == b && final(self).rest() == rest,
                Err(e) => r == Err::<&'a [u8], DecodeError>(e),
            },
    {
        if self.data.len() - self.pos < n {
            return Err(DecodeError::PayloadTooShort);
        }
        let s = slice_subrange(self.data, self.pos, self.pos + n);
        assert(s@ =~= old(self).rest().take(n as int));
        self.pos += n;
        assert(self.rest() =~= old(self).rest().skip(n as int));
        Ok(s)
    }

    fn read_str(&mut self) -> (r: Result<String, DecodeError>)
        requires
            old(self).wf(),
        ensures
            final(self).wf(),
            match parse_str(old(self).rest()) {
                Ok((s, rest)) => r matches Ok(x) && x@ == s && final(self).rest() == rest,
                Err(e) => r == Err::<String, DecodeError>(e),
            },
    {
        let len = match self.read_u16_le() {
            Ok(v) => v as usize,
            Err(e) => return Err(e),
        };
        let bytes = match self.read_bytes(len) {
            Ok(b) => b,
            Err(e) => return Err(e),
        };
        match str_from_utf8(bytes) {
            Some(s) => {
                proof {
                    encode_utf8_decode_utf8(s@);
                }
                Ok(s.to_owned())
            },
            None => Err(DecodeError::InvalidUtf8),
        }
    }

    fn read_headers(&mut self) -> (r: Result<Vec<Header>, DecodeError>)
        requires
            old(self).wf(),
        ensures
            final(self).wf(),
            match parse_headers(old(self).rest()) {
                Ok((hs, rest)) => r matches Ok(v) && headers_view(v@) == hs && final(self).rest()
                    == rest,
                Err(e) => r == Err::<Vec<Header>, DecodeError>(e),
            },
    {
        let count = match self.read_u16_le() {
            Ok(v) => v as usize,
            Err(e) => return Err(e),
        };
        let ghost start = self.rest();
        let mut headers: Vec<Header> = Vec::with_capacity(count);
        let mut i: usize = 0;
        assert(headers_view(headers@) =~= Seq::<HeaderView>::empty());
        while i < count
            invariant
                i <= count,
                self.wf(),
                parse_headers(old(self).rest()) == parse_header_list(start, count as nat),
                parse_header_list(start, i as nat) == Ok::<(Seq<HeaderView>, Seq<u8>), DecodeError>(
                    (headers_view(headers@), self.rest()),
                ),
            decreases count - i,
        {
            let ghost before = headers@;
            let name = match self.read_str() {
                Ok(s) => s,
                Err(e) => {
                    proof {
                        assert(parse_header_list(start, (i + 1) as nat) == Err::<(Seq<HeaderView>, Seq<u8>), DecodeError>(e));
                        lemma_header_list_err(start, (i + 1) as nat, count as nat);
                        assert(parse_header_list(start, count as nat) == Err::<(Seq<HeaderView>, Seq<u8>), DecodeError>(e));
                    }
                    return Err(e);
                },
            };
            let value = match self.read_str() {
                Ok(s) => s,
                Err(e) => {
                    proof {
                        assert(parse_header_list(start, (i + 1) as nat) == Err::<(Seq<HeaderView>, Seq<u8>), DecodeError>(e));
                        lemma_header_list_err(start, (i + 1) as nat, count as nat);
                        assert(parse_header_list(start, count as nat) == Err::<(Seq<HeaderView>, Seq<u8>), DecodeError>(e));
                    }
                    return Err(e);
                },
            };
            headers.push(Header { name, value });
            assert(headers_view(headers@) =~= headers_view(before).push(
                HeaderView { name: name@, value: value@ },
            ));
            i += 1;
        }
        Ok(headers)
    }

    fn read_strings(&mut self) -> (r: Result<Vec<String>, DecodeError>)
        requires
            old(self).wf(),
        ensures
            final(self).wf(),
            match parse_strings(old(self).rest()) {
                Ok((ss, rest)) => r matches Ok(v) && strings_view(v@) == ss && final(self).rest()
                    == rest,
                Err(e) => r == Err::<Vec<String>, DecodeError>(e),
            },
    {
        let count = match self.read_u16_le() {
            Ok(v) => v as usize,
            Err(e) => return Err(e),
        };
        let ghost start = self.rest();
        let mut values: Vec<String> = Vec::with_capacity(count);
        let mut i: usize = 0;
        assert(strings_view(values@) =~= Seq::<Seq<char>>::empty());
        while i < count
            invariant
                i <= count,
                self.wf(),
                parse_strings(old(self).rest()) == parse_string_list(start, count as nat),
                parse_string_list(start, i as nat) == Ok::<(Seq<Seq<char>>, Seq<u8>), DecodeError>(
                    (strings_view(values@), self.rest()),
                ),
            decreases count - i,
        {
            let ghost before = values@;
            let s = match self.read_str() {
                Ok(s) => s,
                Err(e) => {
                    proof {
                        lemma_string_list_err(start, (i + 1) as nat, count as nat);
                    }
                    return Err(e);
                },
            };
            values.push(s);
            assert(strings_view(values@) =~= strings_view(before).push(s@));
            i += 1;
        }
        Ok(values)
    }

    fn read_blob(&mut self) -> (r: Result<Vec<u8>, DecodeError>)
        requires
            old(self).wf(),
        ensures
            final(self).wf(),
            match parse_blob(old(self).rest()) {
                Ok((b, rest)) => r matches Ok(v) && v@ == b && final(self).rest() == rest,
                Err(e) => r == Err::<Vec<u8>, DecodeError>(e),
            },
    {
        let len = match self.read_u32_le() {
            Ok(v) => v as usize,
            Err(e) => return Err(e),
        };
        match self.read_bytes(len) {
            Ok(b) => Ok(slice_to_vec(b)),
            Err(e) => Err(e),
        }
    }

    fn read_fixed<const N: usize>(&mut self) -> (r: Result<[u8; N], DecodeError>)
        requires
            old(self).wf(),
        ensures
            final(self).wf(),
            match parse_bytes(old(self).rest(), N as nat) {
                Ok((b, rest)) => r matches Ok(a) && a@ == b && final(self).rest() == rest,
                Err(e) => r == Err::<[u8; N], DecodeError>(e),
            },
    {
        let bytes = match self.read_bytes(N) {
            Ok(b) => b,
            Err(e) => return Err(e),
        };
        let mut arr = [0u8; N];
        let mut i: usize = 0;
        while i < N
            invariant
                i <= N,
                bytes@.len() == N,
                arr@.len() == N,
                forall|j: int| 0 <= j < i ==> arr@[j] == bytes@[j],
            decreases N - i,
        {
            arr[i] = bytes[i];
            i += 1;
        }
        assert(arr@ =~= bytes@);
        Ok(arr)
    }
}

/// Once reading the first `i` headers fails, reading more fails the same way.
proof fn lemma_header_list_err(s: Seq<u8>, i: nat, n: nat)
    requires
        i <= n,
        parse_header_list(s, i) is Err,
    ensures
        parse_header_list(s, n) == parse_header_list(s, i),
    decreases n,
{
    if n > i {
        lemma_header_list_err(s, i, (n - 1) as nat);
    }
}

/// Once reading the first `i` strings fails, reading more fails the same way.
proof fn lemma_string_list_err(s: Seq<u8>, i: nat, n: nat)
    requires
        i <= n,
        parse_string_list(s, i) is Err,
    ensures
        parse_string_list(s, n) == parse_string_list(s, i),
    decreases n,
{
    if n > i {
        lemma_string_list_err(s, i, (n - 1) as nat);
    }
}

/// An executable frame result agrees with the spec result: the same error, or
/// a frame whose abstract value is the spec frame.
pub open spec fn agrees(r: Result<Frame, DecodeError>, spec: Result<FrameView, DecodeError>) -> bool {
    match spec {
        Ok(f) => r matches Ok(fr) && fr@ == f,
        Err(e) => r == Err::<Frame, DecodeError>(e),
    }
}

fn decode_register(request_id: u32, r: &mut Reader) -> (res: Result<Frame, DecodeError>)
    requires
        old(r).wf(),
    ensures
        agrees(res, parse_register(request_id, old(r).rest())),
{
    let tunnel_id = match r.read_fixed::<16>() {
        Ok(v) => v,
        Err(e) => return Err(e),
    };
    let auth_token = match r.read_fixed::<32>() {
        Ok(v) => v,
        Err(e) => return Err(e),
    };
    let tt = match r.read_u8() {
        Ok(v) => v,
        Err(e) => return Err(e),
    };
    let tunnel_type = match TunnelType::from_u8(tt) {
        Ok(v) => v,
        Err(e) => return Err(e),
    };
    Ok(Frame::Register { request_id, tunnel_id, auth_token, tunnel_type })
}

fn decode_register_ack(request_id: u32, r: &mut Reader) -> (res: Result<Frame, DecodeError>)
    requires
        old(r).wf(),
    ensures
        agrees(res, parse_register_ack(request_id, old(r).rest())),
{
    let tunnel_id = match r.read_fixed::<16>() {
        Ok(v) => v,
        Err(e) => return Err(e),
    };
    let public_url = match r.read_str() {
        Ok(v) => v,
        Err(e) => return Err(e),
    };
    Ok(Frame::RegisterAck { request_id, tunnel_id, public_url })
}

fn decode_request(request_id: u32, r: &mut Reader) -> (res: Result<Frame, DecodeError>)
    requires
        old(r).wf(),
    ensures
        agrees(res, parse_request(request_id, old(r).rest())),
{
    let method_byte = match r.read_u8() {
        Ok(v) => v,
        Err(e) => return Err(e),
    };
    let method = match Method::from_u8(method_byte) {
        Ok(v) => v,
        Err(e) => return Err(e),
    };
    let url = match r.read_str() {
        Ok(v) => v,
        Err(e) => return Err(e),
    };
    let headers = match r.read_headers() {
        Ok(v) => v,
        Err(e) => return Err(e),
    };
    let body = match r.read_blob() {
        Ok(v) => v,
        Err(e) => return Err(e),
    };
    Ok(Frame::Request { request_id, method, url, headers, body })
}

fn decode_response(request_id: u32, r: &mut Reader) -> (res: Result<Frame, DecodeError>)
    requires
        old(r).wf(),
    ensures
        agrees(res, parse_response(request_id, old(r).rest())),
{
    let status = match r.read_u16_le() {
        Ok(v) => v,
        Err(e) => return Err(e),
    };
    let headers = match r.read_headers() {
        Ok(v) => v,
        Err(e) => return Err(e),
    };
    let body = match r.read_blob() {
        Ok(v) => v,
        Err(e) => return Err(e),
    };
    Ok(Frame::Response { request_id, status, headers, body })
}

fn decode_error(request_id: u32, r: &mut Reader) -> (res: Result<Frame, DecodeError>)
    requires
        old(r).wf(),
    ensures
        agrees(res, parse_error(request_id, old(r).rest())),
{
    let code = match r.read_u16_le() {
        Ok(v) => v,
        Err(e) => return Err(e),
    };
    let message = match r.read_str() {
        Ok(v) => v,
        Err(e) => return Err(e),
    };
    Ok(Frame::Error { request_id, code, message })
}

fn decode_ws_open(request_id: u32, r: &mut Reader) -> (res: Result<Frame, DecodeError>)
    requires
        old(r).wf(),
    ensures
        agrees(res, parse_ws_open(request_id, old(r).rest())),
{
    let ws_id = match r.read_u32_le() {
        Ok(v) => v,
        Err(e) => return Err(e),
    };
    let url = match r.read_str() {
        Ok(v) => v,
        Err(e) => return Err(e),
    };
    let headers = match r.read_headers() {
        Ok(v) => v,
        Err(e) => return Err(e),
    };
    let protocols = match r.read_strings() {
        Ok(v) => v,
        Err(e) => return Err(e),
    };
    Ok(Frame::WsOpen { request_id, ws_id, url, headers, protocols })
}

fn decode_ws_data(request_id: u32, r: &mut Reader) -> (res: Result<Frame, DecodeError>)
    requires
        old(r).wf(),
    ensures
        agrees(res, parse_ws_data(request_id, old(r).rest())),
{
    let ws_id = match r.read_u32_le() {
        Ok(v) => v,
        Err(e) => return Err(e),
    };
    let is_binary = match r.read_u8() {
        Ok(v) => v != 0,
        Err(e) => return Err(e),
    };
    let data = match r.read_blob() {
        Ok(v) => v,
        Err(e) => return Err(e),
    };
    Ok(Frame::WsData { request_id, ws_id, is_binary, data })
}

fn decode_ws_close(request_id: u32, r: &mut Reader) -> (res: Result<Frame, DecodeError>)
    requires
        old(r).wf(),
    ensures
        agrees(res, parse_ws_close(request_id, old(r).rest())),
{
    let ws_id = match r.read_u32_le() {
        Ok(v) => v,
        Err(e) => return Err(e),
    };
    let code = match r.read_u16_le() {
        Ok(v) => v,
        Err(e) => return Err(e),
    };
    let reason = match r.read_str() {
        Ok(v) => v,
        Err(e) => return Err(e),
    };
    Ok(Frame::WsClose { request_id, ws_id, code, reason })
}

fn decode_stream_start(request_id: u32, r: &mut Reader) -> (res: Result<Frame, DecodeError>)
    requires
        old(r).wf(),
    ensures
        agrees(res, parse_stream_start(request_id, old(r).rest())),
{
    let status = match r.read_u16_le() {
        Ok(v) => v,
        Err(e) => return Err(e),
    };
    let headers = match r.read_headers() {
        Ok(v) => v,
        Err(e) => return Err(e),
    };
    Ok(Frame::StreamStart { request_id, status, headers })
}

fn decode_stream_data(request_id: u32, r: &mut Reader) -> (res: Result<Frame, DecodeError>)
    requires
        old(r).wf(),
    ensures
        agrees(res, parse_stream_data(request_id, old(r).rest())),
{
    let data = match r.read_blob() {
        Ok(v) => v,
        Err(e) => return Err(e),
    };
    Ok(Frame::StreamData { request_id, data })
}

fn decode_tcp_open(request_id: u32, r: &mut Reader) -> (res: Result<Frame, DecodeError>)
    requires
        old(r).wf(),
    ensures
        agrees(res, parse_tcp_open(request_id, old(r).rest())),
{
    let stream_id = match r.read_u32_le() {
        Ok(v) => v,
        Err(e) => return Err(e),
    };
    let token = match r.read_str() {
        Ok(v) => v,
        Err(e) => return Err(e),
    };
    Ok(Frame::TcpOpen { request_id, stream_id, token })
}

fn decode_tcp_open_ack(request_id: u32, r: &mut Reader) -> (res: Result<Frame, DecodeError>)
    requires
        old(r).wf(),
    ensures
        agrees(res, parse_tcp_open_ack(request_id, old(r).rest())),
{
    let stream_id = match r.read_u32_le() {
        Ok(v) => v,
        Err(e) => return Err(e),
    };
    Ok(Frame::TcpOpenAck { request_id, stream_id })
}

fn decode_tcp_data(request_id: u32, r: &mut Reader) -> (res: Result<Frame, DecodeError>)
    requires
        old(r).wf(),
    ensures
        agrees(res, parse_tcp_data(request_id, old(r).rest())),
{
    let stream_id = match r.read_u32_le() {
        Ok(v) => v,
        Err(e) => return Err(e),
    };
    let data = match r.read_blob() {
        Ok(v) => v,
        Err(e) => return Err(e),
    };
    Ok(Frame::TcpData { request_id, stream_id, data })
}

fn decode_tcp_close(request_id: u32, r: &mut Reader) -> (res: Result<Frame, DecodeError>)
    requires
        old(r).wf(),
    ensures
        agrees(res, parse_tcp_close(request_id, old(r).rest())),
{
    let stream_id = match r.read_u32_le() {
        Ok(v) => v,
        Err(e) => return Err(e),
    };
    let reason = match r.read_str() {
        Ok(v) => v,
        Err(e) => return Err(e),
    };
    Ok(Frame::TcpClose { request_id, stream_id, reason })
}

/// Decode a single frame from the front of `data`.
///
/// Returns the decoded frame and the total number of bytes consumed
/// (header + payload). If you have a stream of frames, advance your
/// buffer by that many bytes.
///
/// Returns `Err(DecodeError::Incomplete)` if there are not enough bytes
/// to parse even the header or the full payload.
pub fn decode(data: &[u8]) -> (r: Result<(Frame, usize), DecodeError>)
    ensures
        match spec_decode(data@) {
            Ok((f, n)) => r matches Ok((fr, m)) && fr@ == f && m == n,
            Err(e) => r == Err::<(Frame, usize), DecodeError>(e),
        },
{
    if data.len() < HEADER_SIZE {
        return Err(DecodeError::Incomplete);
    }
    let frame_type = data[0];
    let request_id = le_u32_at(data, 1);
    let payload_len = le_u32_at(data, 5) as usize;
    assert(payload_len == declared_payload_len(data@));
    if data.len() - HEADER_SIZE < payload_len {
        return Err(DecodeError::Incomplete);
    }
    let total_len = HEADER_SIZE + payload_len;
    let payload = slice_subrange(data, HEADER_SIZE, total_len);
    let mut r = Reader::new(payload);
    let frame = if frame_type == FRAME_REGISTER {
        decode_register(request_id, &mut r)
    } else if frame_type == FRAME_REGISTER_ACK {
        decode_register_ack(request_id, &mut r)
    } else if frame_type == FRAME_REQUEST {
        decode_request(request_id, &mut r)
    } else if frame_type == FRAME_RESPONSE {
        decode_response(request_id, &mut r)
    } else if frame_type == FRAME_PING {
        Ok(Frame::Ping { request_id })
    } else if frame_type == FRAME_PONG {
        Ok(Frame::Pong { request_id })
    } else if frame_type == FRAME_ERROR {
        decode_error(request_id, &mut r)
    } else if frame_type == FRAME_WS_OPEN {
        decode_ws_open(request_id, &mut r)
    } else if frame_type == FRAME_WS_DATA {
        decode_ws_data(request_id, &mut r)
    } else if frame_type == FRAME_WS_CLOSE {
        decode_ws_close(request_id, &mut r)
    } else if frame_type == FRAME_STREAM_START {
        decode_stream_start(request_id, &mut r)
    } else if frame_type == FRAME_STREAM_DATA {
        decode_stream_data(request_id, &mut r)
    } else if frame_type == FRAME_STREAM_END {
        Ok(Frame::StreamEnd { request_id })
    } else if frame_type == FRAME_TCP_OPEN {
        decode_tcp_open(request_id, &mut r)
    } else if frame_type == FRAME_TCP_OPEN_ACK {
        decode_tcp_open_ack(request_id, &mut r)
    } else if frame_type == FRAME_TCP_DATA {
        decode_tcp_data(request_id, &mut r)
    } else if frame_type == FRAME_TCP_CLOSE {
        decode_tcp_close(request_id, &mut r)
    } else {
        Err(DecodeError::UnknownFrameType(frame_type))
    };
    assert(agrees(frame, parse_payload(frame_type, request_id, payload@)));
    match frame {
        Ok(f) => Ok((f, total_len)),
        Err(e) => Err(e),
    }
}

} // verus!
