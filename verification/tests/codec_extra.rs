use rs_rok::worker::{
    encode_error, encode_ping, encode_pong, encode_register_ack, encode_request, encode_response,
    encode_stream_data, encode_stream_end, encode_stream_start, encode_tcp_close, encode_tcp_data,
    encode_tcp_open, encode_tcp_open_ack, encode_ws_close, encode_ws_data, encode_ws_open,
    zip_headers,
};
use rs_rok::{decode, encode, DecodeError, Frame, Header, Method, TunnelType, FRAME_REQUEST, FRAME_WS_DATA, HEADER_SIZE};

fn h(name: &str, value: &str) -> Header {
    Header { name: name.to_string(), value: value.to_string() }
}

#[test]
fn ping_bytes_exact() {
    assert_eq!(encode(&Frame::Ping { request_id: 0x0403_0201 }), vec![5, 1, 2, 3, 4, 0, 0, 0, 0]);
}

#[test]
fn error_bytes_exact() {
    let bytes = encode(&Frame::Error { request_id: 1, code: 0x0102, message: "hé".to_string() });
    // type, request id, payload length 7, code, string length 3, UTF-8 bytes
    assert_eq!(bytes, vec![7, 1, 0, 0, 0, 7, 0, 0, 0, 2, 1, 3, 0, b'h', 0xC3, 0xA9]);
}

#[test]
fn unicode_strings_round_trip() {
    let frame = Frame::WsOpen {
        request_id: 3,
        ws_id: 4,
        url: "/чат?q=日本".to_string(),
        headers: vec![h("x-emoji", "🚀")],
        protocols: vec!["один".to_string(), String::new()],
    };
    let bytes = encode(&frame);
    assert_eq!(decode(&bytes), Ok((frame, bytes.len())));
}

#[test]
fn invalid_utf8_is_refused() {
    // ERROR frame whose message bytes are not UTF-8
    let payload = vec![0, 0, 2, 0, 0xFF, 0xFE];
    let mut buf = vec![7, 0, 0, 0, 0, payload.len() as u8, 0, 0, 0];
    buf.extend_from_slice(&payload);
    assert_eq!(decode(&buf), Err(DecodeError::InvalidUtf8));
}

#[test]
fn trailing_payload_bytes_are_ignored() {
    // PING with a declared payload of 2 bytes: consumed, payload ignored
    let buf = vec![5, 9, 0, 0, 0, 2, 0, 0, 0, 0xAA, 0xBB, 0xCC];
    assert_eq!(decode(&buf), Ok((Frame::Ping { request_id: 9 }, 11)));
}

#[test]
fn payload_too_short_in_string() {
    // ERROR frame whose string says 5 bytes but holds 1
    let buf = vec![7, 0, 0, 0, 0, 5, 0, 0, 0, 1, 0, 5, 0, b'x'];
    assert_eq!(decode(&buf), Err(DecodeError::PayloadTooShort));
}

#[test]
fn ws_data_nonzero_flag_is_binary() {
    let buf = vec![FRAME_WS_DATA, 0, 0, 0, 0, 9, 0, 0, 0, 1, 0, 0, 0, 7, 0, 0, 0, 0];
    assert_eq!(
        decode(&buf),
        Ok((Frame::WsData { request_id: 0, ws_id: 1, is_binary: true, data: vec![] }, 18))
    );
}

#[test]
fn every_prefix_is_incomplete() {
    let frame = Frame::Request {
        request_id: 7,
        method: Method::Put,
        url: "/x".to_string(),
        headers: vec![h("a", "b")],
        body: vec![1, 2, 3],
    };
    let bytes = encode(&frame);
    for k in 0..bytes.len() {
        assert_eq!(decode(&bytes[..k]), Err(DecodeError::Incomplete));
    }
}

#[test]
fn frames_follow_each_other() {
    let f1 = Frame::TcpData { request_id: 1, stream_id: 2, data: vec![9; 10] };
    let f2 = Frame::StreamEnd { request_id: 3 };
    let mut buf = encode(&f1);
    let n1 = buf.len();
    buf.extend_from_slice(&encode(&f2));
    buf.extend_from_slice(&[0xEE]);
    assert_eq!(decode(&buf), Ok((f1, n1)));
    assert_eq!(decode(&buf[n1..]), Ok((f2, HEADER_SIZE)));
}

#[test]
fn method_and_tunnel_type_bytes() {
    for v in 0u8..=255 {
        match Method::from_u8(v) {
            Ok(m) => assert_eq!(m.to_u8(), v),
            Err(e) => {
                assert!(v > 8);
                assert_eq!(e, DecodeError::InvalidMethod(v));
            }
        }
        match TunnelType::from_u8(v) {
            Ok(t) => assert_eq!(t.to_u8(), v),
            Err(e) => {
                assert!(v > 2);
                assert_eq!(e, DecodeError::InvalidTunnelType(v));
            }
        }
    }
}

#[test]
fn worker_response_matches_frame() {
    let bytes = encode_response(
        5,
        404,
        vec!["a".to_string(), "b".to_string(), "extra".to_string()],
        vec!["1".to_string(), "2".to_string()],
        b"nope",
    );
    let frame = Frame::Response {
        request_id: 5,
        status: 404,
        headers: vec![h("a", "1"), h("b", "2")],
        body: b"nope".to_vec(),
    };
    assert_eq!(bytes, encode(&frame));
}

#[test]
fn worker_request_checks_method() {
    assert_eq!(
        encode_request(1, 9, "/", vec![], vec![], b""),
        Err(DecodeError::InvalidMethod(9))
    );
    let bytes = encode_request(1, 1, "/p", vec!["k".to_string()], vec!["v".to_string()], b"x").unwrap();
    assert_eq!(bytes[0], FRAME_REQUEST);
    assert_eq!(
        decode(&bytes).unwrap().0,
        Frame::Request {
            request_id: 1,
            method: Method::Post,
            url: "/p".to_string(),
            headers: vec![h("k", "v")],
            body: b"x".to_vec(),
        }
    );
}

#[test]
fn worker_register_ack_checks_length() {
    assert_eq!(encode_register_ack(1, &[0u8; 15], "u"), None);
    assert_eq!(encode_register_ack(1, &[0u8; 17], "u"), None);
    let bytes = encode_register_ack(2, &[7u8; 16], "https://x").unwrap();
    assert_eq!(
        bytes,
        encode(&Frame::RegisterAck { request_id: 2, tunnel_id: [7; 16], public_url: "https://x".to_string() })
    );
}

#[test]
fn worker_simple_frames() {
    assert_eq!(encode_ping(3), encode(&Frame::Ping { request_id: 3 }));
    assert_eq!(encode_pong(3), encode(&Frame::Pong { request_id: 3 }));
    assert_eq!(encode_stream_end(4), encode(&Frame::StreamEnd { request_id: 4 }));
    assert_eq!(
        encode_error(1, 500, "boom"),
        encode(&Frame::Error { request_id: 1, code: 500, message: "boom".to_string() })
    );
    assert_eq!(
        encode_ws_data(1, 2, false, &[1, 2]),
        encode(&Frame::WsData { request_id: 1, ws_id: 2, is_binary: false, data: vec![1, 2] })
    );
    assert_eq!(
        encode_ws_close(1, 2, 1000, "bye"),
        encode(&Frame::WsClose { request_id: 1, ws_id: 2, code: 1000, reason: "bye".to_string() })
    );
    assert_eq!(
        encode_stream_data(1, b"d"),
        encode(&Frame::StreamData { request_id: 1, data: b"d".to_vec() })
    );
    assert_eq!(
        encode_tcp_open(1, 2, "tok"),
        encode(&Frame::TcpOpen { request_id: 1, stream_id: 2, token: "tok".to_string() })
    );
    assert_eq!(
        encode_tcp_open_ack(1, 2),
        encode(&Frame::TcpOpenAck { request_id: 1, stream_id: 2 })
    );
    assert_eq!(
        encode_tcp_data(1, 2, &[5]),
        encode(&Frame::TcpData { request_id: 1, stream_id: 2, data: vec![5] })
    );
    assert_eq!(
        encode_tcp_close(1, 2, "r"),
        encode(&Frame::TcpClose { request_id: 1, stream_id: 2, reason: "r".to_string() })
    );
}

#[test]
fn worker_header_frames() {
    assert_eq!(
        encode_stream_start(1, 200, vec!["a".to_string()], vec!["b".to_string(), "c".to_string()]),
        encode(&Frame::StreamStart { request_id: 1, status: 200, headers: vec![h("a", "b")] })
    );
    assert_eq!(
        encode_ws_open(1, 2, "/s", vec![], vec!["x".to_string()], vec!["p".to_string()]),
        encode(&Frame::WsOpen {
            request_id: 1,
            ws_id: 2,
            url: "/s".to_string(),
            headers: vec![],
            protocols: vec!["p".to_string()],
        })
    );
    assert_eq!(zip_headers(vec!["n".to_string()], vec!["v".to_string()]), vec![h("n", "v")]);
}
