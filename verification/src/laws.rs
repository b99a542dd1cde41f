//! What holds of encoding and decoding together.
use vstd::prelude::*;
use vstd::utf8::{encode_utf8, encode_utf8_decode_utf8, encode_utf8_valid_utf8};
use crate::frame::{DecodeError, FrameView, HeaderView, Method, TunnelType};
use crate::wire::{
    from_le16, from_le32, le16, le32, bool_byte, declared_payload_len, enc_blob, enc_header_list, enc_headers, enc_str,
    enc_string_list, enc_strings, parse_blob, parse_bytes, parse_header_list, parse_headers,
    parse_payload, parse_str, parse_string_list, parse_strings, parse_u16, parse_u32, parse_u8,
    payload, spec_decode, spec_encode,
};

verus! {

/// A string whose UTF-8 length fits the 16-bit length prefix.
pub open spec fn str_fits(s: Seq<char>) -> bool {
    encode_utf8(s).len() <= u16::MAX
}

/// A header list whose count and strings fit their 16-bit prefixes.
pub open spec fn headers_fit(hs: Seq<HeaderView>) -> bool {
    &&& hs.len() <= u16::MAX
    &&& forall|i: int| 0 <= i < hs.len() ==> str_fits(#[trigger] hs[i].name) && str_fits(hs[i].value)
}

/// A string list whose count and strings fit their 16-bit prefixes.
pub open spec fn strings_fit(ss: Seq<Seq<char>>) -> bool {
    &&& ss.len() <= u16::MAX
    &&& forall|i: int| 0 <= i < ss.len() ==> str_fits(#[trigger] ss[i])
}

/// A byte buffer whose length fits the 32-bit length prefix.
pub open spec fn blob_fits(b: Seq<u8>) -> bool {
    b.len() <= u32::MAX
}

impl FrameView {
    /// Every length that the encoding writes fits the field that holds it, and
    /// the fixed-size fields have their sizes: the frames that the encoding
    /// writes without truncating a length.
    pub open spec fn fits(self) -> bool {
        &&& payload(self).len() <= u32::MAX
        &&& match self {
            FrameView::Register { tunnel_id, auth_token, .. } => tunnel_id.len() == 16
                && auth_token.len() == 32,
            FrameView::RegisterAck { tunnel_id, public_url, .. } => tunnel_id.len() == 16
                && str_fits(public_url),
            FrameView::Request { url, headers, body, .. } => str_fits(url) && headers_fit(headers)
                && blob_fits(body),
            FrameView::Response { headers, body, .. } => headers_fit(headers) && blob_fits(body),
            FrameView::Error { message, .. } => str_fits(message),
            FrameView::WsOpen { url, headers, protocols, .. } => str_fits(url) && headers_fit(
                headers,
            ) && strings_fit(protocols),
            FrameView::WsData { data, .. } => blob_fits(data),
            FrameView::WsClose { reason, .. } => str_fits(reason),
            FrameView::StreamStart { headers, .. } => headers_fit(headers),
            FrameView::StreamData { data, .. } => blob_fits(data),
            FrameView::TcpOpen { token, .. } => str_fits(token),
            FrameView::TcpData { data, .. } => blob_fits(data),
            FrameView::TcpClose { reason, .. } => str_fits(reason),
            _ => true,
        }
    }
}

/// Reading back the two bytes of a `u16` gives it.
pub proof fn lemma_le16(v: u16)
    ensures
        le16(v).len() == 2,
        from_le16(le16(v)) == v,
{
    reveal(le16);
    reveal(from_le16);
    assert(v % 256 + (v / 256) * 256 == v) by (nonlinear_arith);
}

/// Reading back the four bytes of a `u32` gives it.
pub proof fn lemma_le32(v: u32)
    ensures
        le32(v).len() == 4,
        from_le32(le32(v)) == v,
{
    reveal(le32);
    reveal(from_le32);
    assert(v / 16777216 < 256) by (bit_vector);
    assert(v % 256 + ((v / 256) % 256) * 256 + ((v / 65536) % 256) * 65536 + (v / 16777216) * 16777216
        == v) by (bit_vector);
}

proof fn lemma_parse_u8(v: u8, r: Seq<u8>)
    ensures
        parse_u8(seq![v] + r) == Ok::<(u8, Seq<u8>), crate::frame::DecodeError>((v, r)),
{
    assert((seq![v] + r).skip(1) =~= r);
}

proof fn lemma_parse_u16(v: u16, r: Seq<u8>)
    ensures
        parse_u16(le16(v) + r) == Ok::<(u16, Seq<u8>), crate::frame::DecodeError>(
            (v, r),
        ),
{
    lemma_le16(v);
    let b = le16(v);
    assert((b + r).take(2) =~= b);
    assert((b + r).skip(2) =~= r);
}

proof fn lemma_parse_u32(v: u32, r: Seq<u8>)
    ensures
        parse_u32(le32(v) + r) == Ok::<(u32, Seq<u8>), crate::frame::DecodeError>(
            (v, r),
        ),
{
    lemma_le32(v);
    let b = le32(v);
    assert((b + r).take(4) =~= b);
    assert((b + r).skip(4) =~= r);
}

proof fn lemma_parse_bytes(b: Seq<u8>, r: Seq<u8>)
    ensures
        parse_bytes(b + r, b.len()) == Ok::<(Seq<u8>, Seq<u8>), crate::frame::DecodeError>((b, r)),
{
    assert((b + r).take(b.len() as int) =~= b);
    assert((b + r).skip(b.len() as int) =~= r);
}

proof fn lemma_parse_str(s: Seq<char>, r: Seq<u8>)
    requires
        str_fits(s),
    ensures
        parse_str(enc_str(s) + r) == Ok::<(Seq<char>, Seq<u8>), crate::frame::DecodeError>((s, r)),
{
    let bytes = encode_utf8(s);
    let n = bytes.len() as u16;
    assert(enc_str(s) + r =~= le16(n) + (bytes + r));
    lemma_parse_u16(n, bytes + r);
    lemma_parse_bytes(bytes, r);
    encode_utf8_valid_utf8(s);
    encode_utf8_decode_utf8(s);
}

proof fn lemma_parse_blob(b: Seq<u8>, r: Seq<u8>)
    requires
        blob_fits(b),
    ensures
        parse_blob(enc_blob(b) + r) == Ok::<(Seq<u8>, Seq<u8>), crate::frame::DecodeError>((b, r)),
{
    assert(enc_blob(b) + r =~= le32(b.len() as u32) + (b + r));
    lemma_parse_u32(b.len() as u32, b + r);
    lemma_parse_bytes(b, r);
}

proof fn lemma_parse_header_list(hs: Seq<HeaderView>, r: Seq<u8>)
    requires
        headers_fit(hs),
    ensures
        parse_header_list(enc_header_list(hs) + r, hs.len()) == Ok::<
            (Seq<HeaderView>, Seq<u8>),
            crate::frame::DecodeError,
        >((hs, r)),
    decreases hs.len(),
{
    if hs.len() == 0 {
        assert(enc_header_list(hs) + r =~= r);
        assert(hs =~= Seq::<HeaderView>::empty());
    } else {
        let init = hs.drop_last();
        let h = hs.last();
        assert(str_fits(hs[hs.len() - 1].name) && str_fits(hs[hs.len() - 1].value));
        assert(headers_fit(init)) by {
            assert forall|i: int| 0 <= i < init.len() implies str_fits(#[trigger] init[i].name)
                && str_fits(init[i].value) by {
                assert(init[i] == hs[i]);
            }
        }
        let tail = enc_str(h.name) + (enc_str(h.value) + r);
        assert(enc_header_list(hs) + r =~= enc_header_list(init) + tail);
        lemma_parse_header_list(init, tail);
        lemma_parse_str(h.name, enc_str(h.value) + r);
        lemma_parse_str(h.value, r);
        assert(init.push(HeaderView { name: h.name, value: h.value }) =~= hs);
    }
}

proof fn lemma_parse_headers(hs: Seq<HeaderView>, r: Seq<u8>)
    requires
        headers_fit(hs),
    ensures
        parse_headers(enc_headers(hs) + r) == Ok::<
            (Seq<HeaderView>, Seq<u8>),
            crate::frame::DecodeError,
        >((hs, r)),
{
    assert(enc_headers(hs) + r =~= le16(hs.len() as u16) + (enc_header_list(hs)
        + r));
    lemma_parse_u16(hs.len() as u16, enc_header_list(hs) + r);
    lemma_parse_header_list(hs, r);
}

proof fn lemma_parse_string_list(ss: Seq<Seq<char>>, r: Seq<u8>)
    requires
        strings_fit(ss),
    ensures
        parse_string_list(enc_string_list(ss) + r, ss.len()) == Ok::<
            (Seq<Seq<char>>, Seq<u8>),
            crate::frame::DecodeError,
        >((ss, r)),
    decreases ss.len(),
{
    if ss.len() == 0 {
        assert(enc_string_list(ss) + r =~= r);
        assert(ss =~= Seq::<Seq<char>>::empty());
    } else {
        let init = ss.drop_last();
        let x = ss.last();
        assert(str_fits(ss[ss.len() - 1]));
        assert(strings_fit(init)) by {
            assert forall|i: int| 0 <= i < init.len() implies str_fits(#[trigger] init[i]) by {
                assert(init[i] == ss[i]);
            }
        }
        let tail = enc_str(x) + r;
        assert(enc_string_list(ss) + r =~= enc_string_list(init) + tail);
        lemma_parse_string_list(init, tail);
        lemma_parse_str(x, r);
        assert(init.push(x) =~= ss);
    }
}

proof fn lemma_parse_strings(ss: Seq<Seq<char>>, r: Seq<u8>)
    requires
        strings_fit(ss),
    ensures
        parse_strings(enc_strings(ss) + r) == Ok::<
            (Seq<Seq<char>>, Seq<u8>),
            crate::frame::DecodeError,
        >((ss, r)),
{
    assert(enc_strings(ss) + r =~= le16(ss.len() as u16) + (enc_string_list(ss)
        + r));
    lemma_parse_u16(ss.len() as u16, enc_string_list(ss) + r);
    lemma_parse_string_list(ss, r);
}

/// Reading a frame's payload back, with its type and request id, gives the frame.
#[verifier::spinoff_prover]
#[verifier::rlimit(40)]
proof fn lemma_parse_payload(f: FrameView)
    requires
        f.fits(),
    ensures
        parse_payload(f.frame_type(), f.request_id(), payload(f)) == Ok::<
            FrameView,
            crate::frame::DecodeError,
        >(f),
{
    let e = Seq::<u8>::empty();
    match f {
        FrameView::Register { request_id, tunnel_id, auth_token, tunnel_type } => {
            let p = payload(f);
            assert(p =~= tunnel_id + (auth_token + (seq![tunnel_type.spec_to_u8()] + e)));
            lemma_parse_bytes(tunnel_id, auth_token + (seq![tunnel_type.spec_to_u8()] + e));
            lemma_parse_bytes(auth_token, seq![tunnel_type.spec_to_u8()] + e);
            lemma_parse_u8(tunnel_type.spec_to_u8(), e);
        },
        FrameView::RegisterAck { request_id, tunnel_id, public_url } => {
            assert(payload(f) =~= tunnel_id + (enc_str(public_url) + e));
            lemma_parse_bytes(tunnel_id, enc_str(public_url) + e);
            lemma_parse_str(public_url, e);
        },
        FrameView::Request { request_id, method, url, headers, body } => {
            let r3 = enc_blob(body) + e;
            let r2 = enc_headers(headers) + r3;
            let r1 = enc_str(url) + r2;
            assert(payload(f) =~= seq![method.spec_to_u8()] + r1);
            lemma_parse_u8(method.spec_to_u8(), r1);
            lemma_parse_str(url, r2);
            lemma_parse_headers(headers, r3);
            lemma_parse_blob(body, e);
        },
        FrameView::Response { request_id, status, headers, body } => {
            let r2 = enc_blob(body) + e;
            let r1 = enc_headers(headers) + r2;
            assert(payload(f) =~= le16(status) + r1);
            lemma_parse_u16(status, r1);
            lemma_parse_headers(headers, r2);
            lemma_parse_blob(body, e);
        },
        FrameView::Error { request_id, code, message } => {
            let r1 = enc_str(message) + e;
            assert(payload(f) =~= le16(code) + r1);
            lemma_parse_u16(code, r1);
            lemma_parse_str(message, e);
        },
        FrameView::WsOpen { request_id, ws_id, url, headers, protocols } => {
            let r3 = enc_strings(protocols) + e;
            let r2 = enc_headers(headers) + r3;
            let r1 = enc_str(url) + r2;
            assert(payload(f) =~= le32(ws_id) + r1);
            lemma_parse_u32(ws_id, r1);
            lemma_parse_str(url, r2);
            lemma_parse_headers(headers, r3);
            lemma_parse_strings(protocols, e);
        },
        FrameView::WsData { request_id, ws_id, is_binary, data } => {
            let r2 = enc_blob(data) + e;
            let r1 = seq![bool_byte(is_binary)] + r2;
            assert(payload(f) =~= le32(ws_id) + r1);
            lemma_parse_u32(ws_id, r1);
            lemma_parse_u8(bool_byte(is_binary), r2);
            lemma_parse_blob(data, e);
        },
        FrameView::WsClose { request_id, ws_id, code, reason } => {
            let r2 = enc_str(reason) + e;
            let r1 = le16(code) + r2;
            assert(payload(f) =~= le32(ws_id) + r1);
            lemma_parse_u32(ws_id, r1);
            lemma_parse_u16(code, r2);
            lemma_parse_str(reason, e);
        },
        FrameView::StreamStart { request_id, status, headers } => {
            let r1 = enc_headers(headers) + e;
            assert(payload(f) =~= le16(status) + r1);
            lemma_parse_u16(status, r1);
            lemma_parse_headers(headers, e);
        },
        FrameView::StreamData { request_id, data } => {
            assert(payload(f) =~= enc_blob(data) + e);
            lemma_parse_blob(data, e);
        },
        FrameView::TcpOpen { request_id, stream_id, token } => {
            let r1 = enc_str(token) + e;
            assert(payload(f) =~= le32(stream_id) + r1);
            lemma_parse_u32(stream_id, r1);
            lemma_parse_str(token, e);
        },
        FrameView::TcpOpenAck { request_id, stream_id } => {
            assert(payload(f) =~= le32(stream_id) + e);
            lemma_parse_u32(stream_id, e);
        },
        FrameView::TcpData { request_id, stream_id, data } => {
            let r1 = enc_blob(data) + e;
            assert(payload(f) =~= le32(stream_id) + r1);
            lemma_parse_u32(stream_id, r1);
            lemma_parse_blob(data, e);
        },
        FrameView::TcpClose { request_id, stream_id, reason } => {
            let r1 = enc_str(reason) + e;
            assert(payload(f) =~= le32(stream_id) + r1);
            lemma_parse_u32(stream_id, r1);
            lemma_parse_str(reason, e);
        },
        _ => {},
    }
}

/// The bytes of a frame are the 9-byte header followed by its payload.
pub proof fn lemma_encoded_len(f: FrameView)
    ensures
        spec_encode(f).len() == 9 + payload(f).len(),
{
    lemma_le32(f.request_id());
    lemma_le32(payload(f).len() as u32);
}

/// Decoding what encoding wrote gives back the frame and consumes exactly the
/// bytes that were written, whatever bytes follow them (so frames can be sent
/// one after another on a stream). It holds for every frame whose lengths fit
/// their prefixes.
pub proof fn lemma_decode_encode(f: FrameView, rest: Seq<u8>)
    requires
        f.fits(),
    ensures
        spec_decode(spec_encode(f) + rest) == Ok::<(FrameView, nat), crate::frame::DecodeError>(
            (f, spec_encode(f).len()),
        ),
{
    let p = payload(f);
    lemma_le32(f.request_id());
    lemma_le32(p.len() as u32);
    let rid = le32(f.request_id());
    let plen = le32(p.len() as u32);
    let data = spec_encode(f) + rest;
    assert(data =~= seq![f.frame_type()] + rid + plen + p + rest);
    assert(data.subrange(1, 5) =~= rid);
    assert(data.subrange(5, 9) =~= plen);
    assert(declared_payload_len(data) == p.len());
    assert(data.subrange(9, 9 + p.len() as int) =~= p);
    lemma_parse_payload(f);
}

/// Every proper prefix of an encoded frame decodes as `Incomplete`: a reader
/// that has not yet received all of a frame is told to wait for more bytes.
pub proof fn lemma_prefix_incomplete(f: FrameView, k: nat)
    requires
        f.fits(),
        k < spec_encode(f).len(),
    ensures
        spec_decode(spec_encode(f).take(k as int)) == Err::<
            (FrameView, nat),
            crate::frame::DecodeError,
        >(crate::frame::DecodeError::Incomplete),
{
    let p = payload(f);
    lemma_le32(f.request_id());
    lemma_le32(p.len() as u32);
    let data = spec_encode(f).take(k as int);
    if k >= 9 {
        assert(data.subrange(5, 9) =~= le32(p.len() as u32));
        assert(declared_payload_len(data) == p.len());
    }
}

/// A method's byte reads back as the method.
pub proof fn lemma_method_byte(m: Method)
    ensures
        Method::spec_from_u8(m.spec_to_u8()) == Ok::<Method, crate::frame::DecodeError>(m),
{
}

/// A tunnel type's byte reads back as the tunnel type.
pub proof fn lemma_tunnel_type_byte(t: TunnelType)
    ensures
        TunnelType::spec_from_u8(t.spec_to_u8()) == Ok::<TunnelType, crate::frame::DecodeError>(t),
{
}

/// A decoded frame takes at least the 9 header bytes and no more bytes than
/// there are, so a reader can always advance its buffer by what it reports.
pub proof fn lemma_decode_consumes_within(data: Seq<u8>)
    ensures
        spec_decode(data) matches Ok((_, n)) ==> 9 <= n <= data.len(),
{
}

/// Decoding looks only at the bytes it reports as consumed: once a frame
/// decodes from `data`, it decodes the same from those bytes followed by
/// anything else.
pub proof fn lemma_decode_prefix_stable(data: Seq<u8>, rest: Seq<u8>)
    ensures
        spec_decode(data) matches Ok((f, n)) ==> spec_decode(data.take(n as int) + rest) == Ok::<
            (FrameView, nat),
            crate::frame::DecodeError,
        >((f, n)),
{
    if let Ok((f, n)) = spec_decode(data) {
        let d2 = data.take(n as int) + rest;
        assert(d2.subrange(1, 5) =~= data.subrange(1, 5));
        assert(d2.subrange(5, 9) =~= data.subrange(5, 9));
        assert(d2.subrange(9, n as int) =~= data.subrange(9, n as int));
        assert(d2[0] == data[0]);
    }
}

/// The methods in the order of their wire numbers: byte `i` stands for the
/// `i`-th of GET, POST, PUT, DELETE, PATCH, HEAD, OPTIONS, CONNECT, TRACE.
pub open spec fn method_numbering() -> Seq<Method> {
    seq![
        Method::Get,
        Method::Post,
        Method::Put,
        Method::Delete,
        Method::Patch,
        Method::Head,
        Method::Options,
        Method::Connect,
        Method::Trace,
    ]
}

/// Byte `v` reads as the `v`-th method of the numbering, and a byte past the
/// last method is refused with that byte.
pub proof fn lemma_method_numbering(v: u8)
    ensures
        v < 9 ==> Method::spec_from_u8(v) == Ok::<Method, DecodeError>(method_numbering()[v as int]),
        v >= 9 ==> Method::spec_from_u8(v) == Err::<Method, DecodeError>(DecodeError::InvalidMethod(v)),
{
}

/// A method is written as its position in the numbering.
pub proof fn lemma_method_written_as_position(m: Method)
    ensures
        m.spec_to_u8() < 9,
        method_numbering()[m.spec_to_u8() as int] == m,
{
}

/// The tunnel types in the order of their wire numbers: HTTP, HTTPS, TCP.
pub open spec fn tunnel_type_numbering() -> Seq<TunnelType> {
    seq![TunnelType::Http, TunnelType::Https, TunnelType::Tcp]
}

/// Byte `v` reads as the `v`-th tunnel type, and a larger byte is refused.
pub proof fn lemma_tunnel_type_numbering(v: u8)
    ensures
        v < 3 ==> TunnelType::spec_from_u8(v) == Ok::<TunnelType, DecodeError>(tunnel_type_numbering()[v as int]),
        v >= 3 ==> TunnelType::spec_from_u8(v) == Err::<TunnelType, DecodeError>(DecodeError::InvalidTunnelType(v)),
        forall|t: TunnelType| t.spec_to_u8() < 3 && #[trigger] tunnel_type_numbering()[t.spec_to_u8() as int] == t,
{
}

/// The type byte that the protocol assigns to each kind of frame:
/// REGISTER 0x01, REGISTER_ACK 0x02, REQUEST 0x03, RESPONSE 0x04, PING 0x05,
/// PONG 0x06, ERROR 0x07, WS_OPEN 0x08, WS_DATA 0x09, WS_CLOSE 0x0A,
/// STREAM_START 0x0B, STREAM_DATA 0x0C, STREAM_END 0x0D, TCP_OPEN 0x0E,
/// TCP_OPEN_ACK 0x0F, TCP_DATA 0x10, TCP_CLOSE 0x11.
pub open spec fn assigned_type_byte(f: FrameView) -> u8 {
    match f {
        FrameView::Register { .. } => 1,
        FrameView::RegisterAck { .. } => 2,
        FrameView::Request { .. } => 3,
        FrameView::Response { .. } => 4,
        FrameView::Ping { .. } => 5,
        FrameView::Pong { .. } => 6,
        FrameView::Error { .. } => 7,
        FrameView::WsOpen { .. } => 8,
        FrameView::WsData { .. } => 9,
        FrameView::WsClose { .. } => 10,
        FrameView::StreamStart { .. } => 11,
        FrameView::StreamData { .. } => 12,
        FrameView::StreamEnd { .. } => 13,
        FrameView::TcpOpen { .. } => 14,
        FrameView::TcpOpenAck { .. } => 15,
        FrameView::TcpData { .. } => 16,
        FrameView::TcpClose { .. } => 17,
    }
}

/// A frame's type accessor, and the first byte that encoding writes, is the
/// byte assigned to the frame's kind.
pub proof fn lemma_encoded_type_byte(f: FrameView)
    ensures
        f.frame_type() == assigned_type_byte(f),
        spec_encode(f)[0] == assigned_type_byte(f),
{
}

/// A frame that decoding gives is of the kind that the first byte is assigned to.
pub proof fn lemma_decoded_type_byte(data: Seq<u8>)
    ensures
        spec_decode(data) matches Ok((f, _)) ==> data[0] == assigned_type_byte(f),
{
}

} // verus!
