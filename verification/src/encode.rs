//! Writing frames as bytes.
use vstd::prelude::*;
use crate::frame::{headers_view, strings_view, Frame, Header};
use crate::wire::{
    le16, le32, enc_blob, enc_header_list, enc_headers, enc_str, enc_string_list, enc_strings, spec_encode,
    payload,
};

verus! {

/// Appends the bytes of `s` to `buf`.
fn extend_bytes(buf: &mut Vec<u8>, s: &[u8])
    ensures
        final(buf)@ == old(buf)@ + s@,
{
    let mut i: usize = 0;
    while i < s.len()
        invariant
            i <= s.len(),
            buf@ == old(buf)@ + s@.take(i as int),
        decreases s.len() - i,
    {
        buf.push(s[i]);
        assert(s@.take(i + 1) =~= s@.take(i as int).push(s@[i as int]));
        i += 1;
    }
    assert(s@.take(s@.len() as int) =~= s@);
}

fn write_u16_le(buf: &mut Vec<u8>, v: u16)
    ensures
        final(buf)@ == old(buf)@ + le16(v),
{
    reveal(le16);
    buf.push((v % 256) as u8);
    buf.push((v / 256) as u8);
    assert(buf@ =~= old(buf)@ + le16(v));
}

fn write_u32_le(buf: &mut Vec<u8>, v: u32)
    ensures
        final(buf)@ == old(buf)@ + le32(v),
{
    reveal(le32);
    buf.push((v % 256) as u8);
    buf.push(((v / 256) % 256) as u8);
    buf.push(((v / 65536) % 256) as u8);
    buf.push((v / 16777216) as u8);
    assert(buf@ =~= old(buf)@ + le32(v));
}

/// Writes a string as its UTF-8 length (a `u16`, truncated) and its bytes.
fn write_str(buf: &mut Vec<u8>, s: &str)
    ensures
        final(buf)@ == old(buf)@ + enc_str(s@),
{
    let bytes = s.as_bytes();
    write_u16_le(buf, bytes.len() as u16);
    extend_bytes(buf, bytes);
    assert(buf@ =~= old(buf)@ + enc_str(s@));
}

fn write_headers(buf: &mut Vec<u8>, headers: &Vec<Header>)
    ensures
        final(buf)@ == old(buf)@ + enc_headers(headers_view(headers@)),
{
    let ghost hv = headers_view(headers@);
    write_u16_le(buf, headers.len() as u16);
    let ghost start = buf@;
    let mut i: usize = 0;
    assert(enc_header_list(hv.take(0)) =~= Seq::<u8>::empty());
    assert(start =~= start + enc_header_list(hv.take(0)));
    while i < headers.len()
        invariant
            i <= headers.len(),
            hv == headers_view(headers@),
            buf@ == start + enc_header_list(hv.take(i as int)),
        decreases headers.len() - i,
    {
        let h = &headers[i];
        write_str(buf, h.name.as_str());
        write_str(buf, h.value.as_str());
        assert(hv.take(i + 1).drop_last() =~= hv.take(i as int));
        assert(hv.take(i + 1).last() == h@);
        i += 1;
    }
    assert(hv.take(headers.len() as int) =~= hv);
}

fn write_strings(buf: &mut Vec<u8>, values: &Vec<String>)
    ensures
        final(buf)@ == old(buf)@ + enc_strings(strings_view(values@)),
{
    let ghost sv = strings_view(values@);
    write_u16_le(buf, values.len() as u16);
    let ghost start = buf@;
    let mut i: usize = 0;
    assert(enc_string_list(sv.take(0)) =~= Seq::<u8>::empty());
    assert(start =~= start + enc_string_list(sv.take(0)));
    while i < values.len()
        invariant
            i <= values.len(),
            sv == strings_view(values@),
            buf@ == start + enc_string_list(sv.take(i as int)),
        decreases values.len() - i,
    {
        write_str(buf, values[i].as_str());
        assert(sv.take(i + 1).drop_last() =~= sv.take(i as int));
        assert(sv.take(i + 1).last() == values@[i as int]@);
        i += 1;
    }
    assert(sv.take(values.len() as int) =~= sv);
}

/// Writes a byte buffer as its length (a `u32`, truncated) and its bytes.
fn write_blob(buf: &mut Vec<u8>, data: &Vec<u8>)
    ensures
        final(buf)@ == old(buf)@ + enc_blob(data@),
{
    write_u32_le(buf, data.len() as u32);
    extend_bytes(buf, data.as_slice());
    assert(buf@ =~= old(buf)@ + enc_blob(data@));
}

/// Encode a frame into bytes.
pub fn encode(frame: &Frame) -> (r: Vec<u8>)
    ensures
        r@ == spec_encode(frame@),
{
    let mut p: Vec<u8> = Vec::new();
    match frame {
        Frame::Register { tunnel_id, auth_token, tunnel_type, .. } => {
            extend_bytes(&mut p, tunnel_id.as_slice());
            extend_bytes(&mut p, auth_token.as_slice());
            p.push(tunnel_type.to_u8());
        },
        Frame::RegisterAck { tunnel_id, public_url, .. } => {
            extend_bytes(&mut p, tunnel_id.as_slice());
            write_str(&mut p, public_url.as_str());
        },
        Frame::Request { method, url, headers, body, .. } => {
            p.push(method.to_u8());
            write_str(&mut p, url.as_str());
            write_headers(&mut p, headers);
            write_blob(&mut p, body);
        },
        Frame::Response { status, headers, body, .. } => {
            write_u16_le(&mut p, *status);
            write_headers(&mut p, headers);
            write_blob(&mut p, body);
        },
        Frame::Ping { .. } | Frame::Pong { .. } => {},
        Frame::Error { code, message, .. } => {
            write_u16_le(&mut p, *code);
            write_str(&mut p, message.as_str());
        },
        Frame::WsOpen { ws_id, url, headers, protocols, .. } => {
            write_u32_le(&mut p, *ws_id);
            write_str(&mut p, url.as_str());
            write_headers(&mut p, headers);
            write_strings(&mut p, protocols);
        },
        Frame::WsData { ws_id, is_binary, data, .. } => {
            write_u32_le(&mut p, *ws_id);
            p.push(if *is_binary { 1u8 } else { 0u8 });
            write_blob(&mut p, data);
        },
        Frame::WsClose { ws_id, code, reason, .. } => {
            write_u32_le(&mut p, *ws_id);
            write_u16_le(&mut p, *code);
            write_str(&mut p, reason.as_str());
        },
        Frame::StreamStart { status, headers, .. } => {
            write_u16_le(&mut p, *status);
            write_headers(&mut p, headers);
        },
        Frame::StreamData { data, .. } => {
            write_blob(&mut p, data);
        },
        Frame::StreamEnd { .. } => {},
        Frame::TcpOpen { stream_id, token, .. } => {
            write_u32_le(&mut p, *stream_id);
            write_str(&mut p, token.as_str());
        },
        Frame::TcpOpenAck { stream_id, .. } => {
            write_u32_le(&mut p, *stream_id);
        },
        Frame::TcpData { stream_id, data, .. } => {
            write_u32_le(&mut p, *stream_id);
            write_blob(&mut p, data);
        },
        Frame::TcpClose { stream_id, reason, .. } => {
            write_u32_le(&mut p, *stream_id);
            write_str(&mut p, reason.as_str());
        },
    }
    assert(p@ =~= payload(frame@));
    let mut buf: Vec<u8> = Vec::new();
    buf.push(frame.frame_type());
    write_u32_le(&mut buf, frame.request_id());
    write_u32_le(&mut buf, p.len() as u32);
    extend_bytes(&mut buf, p.as_slice());
    assert(buf@ =~= spec_encode(frame@));
    buf
}

} // verus!
