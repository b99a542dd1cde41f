use rs_rok::{
    decode, encode, DecodeError, Frame, Header, Method, TunnelType, FRAME_ERROR, FRAME_PING,
    FRAME_PONG, FRAME_REGISTER, FRAME_REQUEST, FRAME_TCP_CLOSE, FRAME_TCP_DATA, FRAME_TCP_OPEN,
    FRAME_TCP_OPEN_ACK, FRAME_WS_OPEN, HEADER_SIZE,
};

fn round_trip(frame: &Frame) {
    let bytes = encode(frame);
    let (decoded, consumed) = decode(&bytes).expect("decode should succeed");
    assert_eq!(consumed, bytes.len(), "should consume all bytes");
    assert_eq!(&decoded, frame, "round-trip mismatch");
}

#[test]
fn register_round_trip() {
    let frame = Frame::Register {
        request_id: 1,
        tunnel_id: [0xAA; 16],
        auth_token: [0xBB; 32],
        tunnel_type: TunnelType::Http,
    };
    round_trip(&frame);
}

#[test]
fn register_https_round_trip() {
    let frame = Frame::Register {
        request_id: 42,
        tunnel_id: [0x01; 16],
        auth_token: [0x02; 32],
        tunnel_type: TunnelType::Https,
    };
    round_trip(&frame);
}

#[test]
fn register_ack_round_trip() {
    let frame = Frame::RegisterAck {
        request_id: 2,
        tunnel_id: [0xCC; 16],
        public_url: "https://abc123.workers.dev".into(),
    };
    round_trip(&frame);
}

#[test]
fn request_round_trip() {
    let frame = Frame::Request {
        request_id: 100,
        method: Method::Post,
        url: "/api/data?foo=bar".into(),
        headers: vec![
            Header {
                name: "Content-Type".into(),
                value: "application/json".into(),
            },
            Header {
                name: "Authorization".into(),
                value: "Bearer tok123".into(),
            },
        ],
        body: b"{\"key\":\"value\"}".to_vec(),
    };
    round_trip(&frame);
}

#[test]
fn request_empty_body_round_trip() {
    let frame = Frame::Request {
        request_id: 101,
        method: Method::Get,
        url: "/health".into(),
        headers: vec![],
        body: vec![],
    };
    round_trip(&frame);
}

#[test]
fn response_round_trip() {
    let frame = Frame::Response {
        request_id: 100,
        status: 200,
        headers: vec![Header {
            name: "Content-Type".into(),
            value: "text/plain".into(),
        }],
        body: b"Hello, world!".to_vec(),
    };
    round_trip(&frame);
}

#[test]
fn response_empty_body_round_trip() {
    let frame = Frame::Response {
        request_id: 200,
        status: 204,
        headers: vec![],
        body: vec![],
    };
    round_trip(&frame);
}

#[test]
fn ping_round_trip() {
    round_trip(&Frame::Ping { request_id: 0 });
}

#[test]
fn pong_round_trip() {
    round_trip(&Frame::Pong { request_id: 0 });
}

#[test]
fn error_round_trip() {
    let frame = Frame::Error {
        request_id: 5,
        code: 401,
        message: "unauthorized".into(),
    };
    round_trip(&frame);
}

#[test]
fn error_empty_message_round_trip() {
    let frame = Frame::Error {
        request_id: 6,
        code: 500,
        message: String::new(),
    };
    round_trip(&frame);
}

#[test]
fn ws_open_round_trip() {
    let frame = Frame::WsOpen {
        request_id: 77,
        ws_id: 9001,
        url: "/socket.io/?EIO=4&transport=websocket".into(),
        headers: vec![Header {
            name: "cookie".into(),
            value: "sid=abc".into(),
        }],
        protocols: vec!["graphql-transport-ws".into(), "chat".into()],
    };
    round_trip(&frame);
}

#[test]
fn ws_data_round_trip() {
    let frame = Frame::WsData {
        request_id: 78,
        ws_id: 9001,
        is_binary: true,
        data: vec![1, 2, 3, 4, 5],
    };
    round_trip(&frame);
}

#[test]
fn ws_close_round_trip() {
    let frame = Frame::WsClose {
        request_id: 79,
        ws_id: 9001,
        code: 1000,
        reason: "normal closure".into(),
    };
    round_trip(&frame);
}

#[test]
fn incomplete_header() {
    let result = decode(&[0x01, 0x00, 0x00]);
    assert_eq!(result, Err(DecodeError::Incomplete));
}

#[test]
fn incomplete_payload() {
    // Valid header claiming 100 bytes of payload, but only 1 byte present
    let mut buf = vec![FRAME_PING, 0, 0, 0, 0];
    buf.extend_from_slice(&100u32.to_le_bytes());
    buf.push(0xFF);
    assert_eq!(decode(&buf), Err(DecodeError::Incomplete));
}

#[test]
fn unknown_frame_type() {
    let mut buf = vec![0xFF, 0, 0, 0, 0];
    buf.extend_from_slice(&0u32.to_le_bytes());
    assert_eq!(decode(&buf), Err(DecodeError::UnknownFrameType(0xFF)));
}

#[test]
fn invalid_method() {
    // Craft a REQUEST frame with an invalid method byte (0xFF)
    let mut payload = vec![0xFF]; // bad method
    // url: empty
    payload.extend_from_slice(&0u16.to_le_bytes());
    // headers: 0
    payload.extend_from_slice(&0u16.to_le_bytes());
    // body: 0 bytes
    payload.extend_from_slice(&0u32.to_le_bytes());

    let mut buf = vec![FRAME_REQUEST];
    buf.extend_from_slice(&0u32.to_le_bytes()); // request_id
    buf.extend_from_slice(&(payload.len() as u32).to_le_bytes());
    buf.extend_from_slice(&payload);

    assert_eq!(decode(&buf), Err(DecodeError::InvalidMethod(0xFF)));
}

#[test]
fn invalid_tunnel_type() {
    let mut payload = vec![0; 16]; // tunnel_id
    payload.extend_from_slice(&[0; 32]); // auth_token
    payload.push(0xFF); // bad tunnel_type

    let mut buf = vec![FRAME_REGISTER];
    buf.extend_from_slice(&0u32.to_le_bytes());
    buf.extend_from_slice(&(payload.len() as u32).to_le_bytes());
    buf.extend_from_slice(&payload);

    assert_eq!(decode(&buf), Err(DecodeError::InvalidTunnelType(0xFF)));
}

#[test]
fn payload_too_short_for_register() {
    // REGISTER requires 49 bytes payload but we only give 10
    let payload = vec![0u8; 10];
    let mut buf = vec![FRAME_REGISTER];
    buf.extend_from_slice(&1u32.to_le_bytes());
    buf.extend_from_slice(&(payload.len() as u32).to_le_bytes());
    buf.extend_from_slice(&payload);

    assert_eq!(decode(&buf), Err(DecodeError::PayloadTooShort));
}

#[test]
fn multiple_frames_in_buffer() {
    let f1 = Frame::Ping { request_id: 10 };
    let f2 = Frame::Pong { request_id: 11 };
    let mut buf = encode(&f1);
    buf.extend_from_slice(&encode(&f2));

    let (decoded1, consumed1) = decode(&buf).unwrap();
    assert_eq!(decoded1, f1);

    let (decoded2, consumed2) = decode(&buf[consumed1..]).unwrap();
    assert_eq!(decoded2, f2);
    assert_eq!(consumed1 + consumed2, buf.len());
}

#[test]
fn all_methods_round_trip() {
    let methods = [
        Method::Get,
        Method::Post,
        Method::Put,
        Method::Delete,
        Method::Patch,
        Method::Head,
        Method::Options,
        Method::Connect,
        Method::Trace,
    ];
    for (i, method) in methods.iter().enumerate() {
        let frame = Frame::Request {
            request_id: i as u32,
            method: *method,
            url: "/test".into(),
            headers: vec![],
            body: vec![],
        };
        round_trip(&frame);
    }
}

#[test]
fn frame_type_accessors() {
    assert_eq!(
        Frame::Ping { request_id: 0 }.frame_type(),
        FRAME_PING
    );
    assert_eq!(
        Frame::Pong { request_id: 0 }.frame_type(),
        FRAME_PONG
    );
    assert_eq!(
        Frame::Error {
            request_id: 0,
            code: 0,
            message: String::new()
        }
        .frame_type(),
        FRAME_ERROR
    );
    assert_eq!(
        Frame::WsOpen {
            request_id: 0,
            ws_id: 1,
            url: "/".into(),
            headers: vec![],
            protocols: vec![]
        }
        .frame_type(),
        FRAME_WS_OPEN
    );
}

#[test]
fn request_id_accessor() {
    let frame = Frame::Request {
        request_id: 12345,
        method: Method::Get,
        url: "/".into(),
        headers: vec![],
        body: vec![],
    };
    assert_eq!(frame.request_id(), 12345);
}

#[test]
fn large_body_round_trip() {
    let body = vec![0xAB; 65536];
    let frame = Frame::Response {
        request_id: 999,
        status: 200,
        headers: vec![],
        body,
    };
    round_trip(&frame);
}

#[test]
fn many_headers_round_trip() {
    let headers: Vec<Header> = (0..100)
        .map(|i| Header {
            name: format!("X-Header-{}", i),
            value: format!("value-{}", i),
        })
        .collect();
    let frame = Frame::Request {
        request_id: 50,
        method: Method::Get,
        url: "/test".into(),
        headers,
        body: vec![],
    };
    round_trip(&frame);
}

#[test]
fn zero_length_payload_frames() {
    // PING and PONG have zero-length payloads
    let ping_bytes = encode(&Frame::Ping { request_id: 0 });
    assert_eq!(ping_bytes.len(), HEADER_SIZE);

    let pong_bytes = encode(&Frame::Pong { request_id: 0 });
    assert_eq!(pong_bytes.len(), HEADER_SIZE);
}

#[test]
fn empty_buffer() {
    assert_eq!(decode(&[]), Err(DecodeError::Incomplete));
}

#[test]
fn stream_start_round_trip() {
    let frame = Frame::StreamStart {
        request_id: 80,
        status: 200,
        headers: vec![
            Header {
                name: "content-type".into(),
                value: "text/event-stream".into(),
            },
            Header {
                name: "cache-control".into(),
                value: "no-cache".into(),
            },
        ],
    };
    round_trip(&frame);
}

#[test]
fn stream_data_round_trip() {
    let frame = Frame::StreamData {
        request_id: 80,
        data: b"data: {\"event\":\"update\"}\n\n".to_vec(),
    };
    round_trip(&frame);
}

#[test]
fn stream_end_round_trip() {
    round_trip(&Frame::StreamEnd { request_id: 80 });
}

#[test]
fn register_tcp_round_trip() {
    let frame = Frame::Register {
        request_id: 50,
        tunnel_id: [0x03; 16],
        auth_token: [0x04; 32],
        tunnel_type: TunnelType::Tcp,
    };
    round_trip(&frame);
}

#[test]
fn tcp_open_round_trip() {
    let frame = Frame::TcpOpen {
        request_id: 90,
        stream_id: 1,
        token: "abc123secret".into(),
    };
    round_trip(&frame);
}

#[test]
fn tcp_open_empty_token() {
    let frame = Frame::TcpOpen {
        request_id: 91,
        stream_id: 0,
        token: String::new(),
    };
    round_trip(&frame);
}

#[test]
fn tcp_open_ack_round_trip() {
    let frame = Frame::TcpOpenAck {
        request_id: 92,
        stream_id: 42,
    };
    round_trip(&frame);
}

#[test]
fn tcp_data_round_trip() {
    let frame = Frame::TcpData {
        request_id: 93,
        stream_id: 42,
        data: vec![0xDE, 0xAD, 0xBE, 0xEF],
    };
    round_trip(&frame);
}

#[test]
fn tcp_data_empty() {
    let frame = Frame::TcpData {
        request_id: 94,
        stream_id: 1,
        data: vec![],
    };
    round_trip(&frame);
}

#[test]
fn tcp_data_large() {
    let frame = Frame::TcpData {
        request_id: 95,
        stream_id: 7,
        data: vec![0xAB; 65536],
    };
    round_trip(&frame);
}

#[test]
fn tcp_close_round_trip() {
    let frame = Frame::TcpClose {
        request_id: 96,
        stream_id: 42,
        reason: "connection reset".into(),
    };
    round_trip(&frame);
}

#[test]
fn tcp_close_empty_reason() {
    let frame = Frame::TcpClose {
        request_id: 97,
        stream_id: 0,
        reason: String::new(),
    };
    round_trip(&frame);
}

#[test]
fn tcp_frame_type_accessors() {
    assert_eq!(
        Frame::TcpOpen { request_id: 0, stream_id: 0, token: String::new() }.frame_type(),
        FRAME_TCP_OPEN
    );
    assert_eq!(
        Frame::TcpOpenAck { request_id: 0, stream_id: 0 }.frame_type(),
        FRAME_TCP_OPEN_ACK
    );
    assert_eq!(
        Frame::TcpData { request_id: 0, stream_id: 0, data: vec![] }.frame_type(),
        FRAME_TCP_DATA
    );
    assert_eq!(
        Frame::TcpClose { request_id: 0, stream_id: 0, reason: String::new() }.frame_type(),
        FRAME_TCP_CLOSE
    );
}
