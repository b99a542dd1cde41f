use rs_rok::deploy::{
    account_subdomain_url, check_reply, script_subdomain_url, script_url, subdomain_of, worker_url,
    ApiError, DeployError,
};
use rs_rok::proxy::{
    is_hop_by_hop, is_streaming_response, plan_forward, relayed_response_headers, str_eq,
    target_uri, ForwardScheme, ProxyError,
};
use rs_rok::tcp_client::{ack_step, frame_for_local_read, relay_step, tcp_ws_url, AckStep, RelayStep};
use rs_rok::text::{contains, eq_ignore_ascii_case, find, lower_starts_with, replace_first_str, to_hex, u32_to_decimal};
use rs_rok::tunnel::{
    auth_token_bytes, bridge_drops_header, bridge_headers, cli_ws_url, forward_scheme,
    generate_tcp_token, handle_frame, is_fatal_disconnect, join_protocols, next_backoff,
    outbound_message, register_frame, register_reply, LocalMessage, tunnel_slug, ws_base, ws_target, RegisterReply, TunnelAction, WsSessions,
};
use rs_rok::{decode, encode, DecodeError, Frame, Header, Method, TunnelType};

fn h(name: &str, value: &str) -> Header {
    Header { name: name.to_string(), value: value.to_string() }
}

#[test]
fn text_find_and_replace() {
    assert_eq!(find("abcabc", "ca"), Some(2));
    assert_eq!(find("abc", "d"), None);
    assert_eq!(find("abc", ""), Some(0));
    assert_eq!(find("ab", "abc"), None);
    assert_eq!(find("ééx", "x"), Some(2));
    assert!(contains("HTTP 409 Conflict", "409"));
    assert!(!contains("HTTP 500", "409"));
    assert_eq!(replace_first_str("a-b-c", "-", "+"), "a+b-c");
    assert_eq!(replace_first_str("abc", "x", "+"), "abc");
}

#[test]
fn text_case_and_numbers() {
    assert!(eq_ignore_ascii_case("Accept-Encoding", "accept-encoding"));
    assert!(!eq_ignore_ascii_case("Accept-Encodin", "accept-encoding"));
    assert!(lower_starts_with("Text/Event-Stream; charset=utf-8", "text/event-stream"));
    assert!(!lower_starts_with("text/html", "text/event-stream"));
    assert_eq!(u32_to_decimal(0), "0");
    assert_eq!(u32_to_decimal(1000), "1000");
    assert_eq!(u32_to_decimal(u32::MAX), "4294967295");
    assert_eq!(to_hex(&[0x00, 0x0f, 0xa5, 0xff]), "000fa5ff");
}

#[test]
fn ws_urls() {
    assert_eq!(ws_base("https://rs-rok.example.workers.dev"), "wss://rs-rok.example.workers.dev");
    assert_eq!(ws_base("http://localhost:8787"), "ws://localhost:8787");
    assert_eq!(ws_base("ftp://x"), "ftp://x");
    // only the first occurrence of each scheme is replaced, wherever it stands
    assert_eq!(ws_base("http://a?u=https://b"), "ws://a?u=wss://b");
    assert_eq!(cli_ws_url("https://e.dev", "myapp"), "wss://e.dev/__rsrok_cli__/myapp");
    assert_eq!(tcp_ws_url("http://e.dev", "db"), "ws://e.dev/__rsrok_tcp__/db");
    assert_eq!(tunnel_slug(&None), "__root__");
    assert_eq!(tunnel_slug(&Some("app".to_string())), "app");
    assert_eq!(ws_target(ForwardScheme::Https, "localhost:3000", "/ws"), "wss://localhost:3000/ws");
    assert_eq!(ws_target(ForwardScheme::Http, "h:1", "/"), "ws://h:1/");
}

#[test]
fn auth_token_padding() {
    let short = auth_token_bytes("abc");
    assert_eq!(&short[..3], b"abc");
    assert!(short[3..].iter().all(|b| *b == 0));
    let long = "x".repeat(40);
    assert_eq!(auth_token_bytes(&long), [b'x'; 32]);
}

#[test]
fn backoff_doubles_up_to_thirty() {
    assert_eq!(next_backoff(1), 2);
    assert_eq!(next_backoff(8), 16);
    assert_eq!(next_backoff(15), 30);
    assert_eq!(next_backoff(16), 30);
    assert_eq!(next_backoff(30), 30);
    assert_eq!(next_backoff(u64::MAX), 30);
    assert!(is_fatal_disconnect("HTTP error: 409 Conflict"));
    assert!(!is_fatal_disconnect("connection reset"));
    assert_eq!(forward_scheme(TunnelType::Http), Some(ForwardScheme::Http));
    assert_eq!(forward_scheme(TunnelType::Https), Some(ForwardScheme::Https));
    assert_eq!(forward_scheme(TunnelType::Tcp), None);
}

#[test]
fn tcp_token_is_hex() {
    let a = generate_tcp_token();
    let b = generate_tcp_token();
    assert_eq!(a.len(), 32);
    assert!(a.chars().all(|c| c.is_ascii_hexdigit() && !c.is_ascii_uppercase()));
    assert_ne!(a, b);
}

#[test]
fn register_replies() {
    let ack = Frame::RegisterAck { request_id: 1, tunnel_id: [0; 16], public_url: "https://u".to_string() };
    match register_reply(decode(&encode(&ack))) {
        RegisterReply::Registered(u) => assert_eq!(u, "https://u"),
        other => panic!("unexpected {other:?}"),
    }
    let err = Frame::Error { request_id: 1, code: 401, message: "bad token".to_string() };
    match register_reply(decode(&encode(&err))) {
        RegisterReply::Rejected { code, message } => {
            assert_eq!(code, 401);
            assert_eq!(message, "bad token");
        }
        other => panic!("unexpected {other:?}"),
    }
    assert!(matches!(register_reply(decode(&encode(&Frame::Ping { request_id: 1 }))), RegisterReply::Ignored));
    assert!(matches!(
        register_reply(decode(&[1])),
        RegisterReply::Malformed(DecodeError::Incomplete)
    ));
}

#[test]
fn sessions_follow_open_and_close() {
    let mut s = WsSessions::new();
    let open = |id: u32| Frame::WsOpen {
        request_id: 0,
        ws_id: id,
        url: "/".to_string(),
        headers: vec![],
        protocols: vec![],
    };
    match handle_frame(&mut s, open(7)) {
        TunnelAction::OpenWs { ws_id, replaced, .. } => {
            assert_eq!(ws_id, 7);
            assert!(!replaced);
        }
        other => panic!("unexpected {other:?}"),
    }
    assert!(s.contains(7));
    match handle_frame(&mut s, open(7)) {
        TunnelAction::OpenWs { replaced, .. } => assert!(replaced),
        other => panic!("unexpected {other:?}"),
    }
    match handle_frame(&mut s, Frame::WsData { request_id: 0, ws_id: 7, is_binary: true, data: vec![1] }) {
        TunnelAction::SendWs { ws_id, is_binary, data } => {
            assert_eq!((ws_id, is_binary, data), (7, true, vec![1]));
        }
        other => panic!("unexpected {other:?}"),
    }
    assert!(matches!(
        handle_frame(&mut s, Frame::WsData { request_id: 0, ws_id: 8, is_binary: true, data: vec![] }),
        TunnelAction::Ignore
    ));
    match handle_frame(&mut s, Frame::WsClose { request_id: 0, ws_id: 7, code: 1000, reason: "bye".to_string() }) {
        TunnelAction::CloseWs { ws_id, code, reason } => {
            assert_eq!((ws_id, code, reason.as_str()), (7, 1000, "bye"));
        }
        other => panic!("unexpected {other:?}"),
    }
    assert!(!s.contains(7));
    assert!(matches!(
        handle_frame(&mut s, Frame::WsClose { request_id: 0, ws_id: 7, code: 1000, reason: String::new() }),
        TunnelAction::Ignore
    ));
    handle_frame(&mut s, open(1));
    handle_frame(&mut s, open(2));
    let mut all = s.close_all();
    all.sort();
    assert_eq!(all, vec![1, 2]);
    assert!(!s.contains(1) && !s.contains(2));
    assert!(s.remove(3) == false);
}

#[test]
fn tunnel_dispatch_other_frames() {
    let mut s = WsSessions::new();
    match handle_frame(&mut s, Frame::Ping { request_id: 42 }) {
        TunnelAction::Reply(f) => assert_eq!(f, Frame::Pong { request_id: 42 }),
        other => panic!("unexpected {other:?}"),
    }
    let req = Frame::Request { request_id: 1, method: Method::Get, url: "/".to_string(), headers: vec![], body: vec![] };
    match handle_frame(&mut s, req.clone()) {
        TunnelAction::Forward(f) => assert_eq!(f, req),
        other => panic!("unexpected {other:?}"),
    }
    match handle_frame(&mut s, Frame::Error { request_id: 1, code: 500, message: "m".to_string() }) {
        TunnelAction::ReportError { code, message } => assert_eq!((code, message.as_str()), (500, "m")),
        other => panic!("unexpected {other:?}"),
    }
    assert!(matches!(
        handle_frame(&mut s, Frame::StreamEnd { request_id: 1 }),
        TunnelAction::Unexpected { frame_type: 0x0D }
    ));
}

#[test]
fn bridge_header_rules() {
    assert!(bridge_drops_header("Sec-WebSocket-Key"));
    assert!(bridge_drops_header("HOST"));
    assert!(!bridge_drops_header("cookie"));
    let kept = bridge_headers(&vec![h("Host", "x"), h("cookie", "sid=1"), h("Upgrade", "websocket"), h("x-a", "b")]);
    assert_eq!(kept, vec![h("cookie", "sid=1"), h("x-a", "b")]);
    assert_eq!(join_protocols(&vec![]), "");
    assert_eq!(join_protocols(&vec!["chat".to_string()]), "chat");
    assert_eq!(
        join_protocols(&vec!["graphql-transport-ws".to_string(), "chat".to_string()]),
        "graphql-transport-ws, chat"
    );
}

#[test]
fn proxy_planning() {
    let req = Frame::Request {
        request_id: 9,
        method: Method::Post,
        url: "/api?x=1".to_string(),
        headers: vec![h("Accept-Encoding", "gzip"), h("content-type", "a/b"), h("ACCEPT-ENCODING", "br")],
        body: b"hi".to_vec(),
    };
    let plan = plan_forward(&req, "localhost:3000", ForwardScheme::Http).unwrap();
    assert_eq!(plan.request_id, 9);
    assert_eq!(plan.method, Method::Post);
    assert_eq!(plan.uri, "http://localhost:3000/api?x=1");
    assert_eq!(plan.headers, vec![h("content-type", "a/b")]);
    assert_eq!(plan.body, b"hi".to_vec());
    match plan_forward(&Frame::Ping { request_id: 1 }, "h", ForwardScheme::Https) {
        Err(ProxyError::InvalidFrame(m)) => assert_eq!(m, "expected REQUEST frame"),
        _ => panic!("expected an error"),
    }
    assert_eq!(target_uri(ForwardScheme::Https, "h:1", "/"), "https://h:1/");
    assert_eq!(ProxyError::InvalidFrame("x").message(), "invalid frame: x");
    assert_eq!(ProxyError::Http("y".to_string()).message(), "HTTP error: y");
}

#[test]
fn proxy_response_headers() {
    assert!(is_hop_by_hop("transfer-encoding"));
    assert!(is_hop_by_hop("content-encoding"));
    assert!(!is_hop_by_hop("content-type"));
    assert!(str_eq("te", "te") && !str_eq("te", "tee"));
    let kept = relayed_response_headers(&vec![h("connection", "close"), h("content-type", "t"), h("te", "x"), h("x-y", "z")]);
    assert_eq!(kept, vec![h("content-type", "t"), h("x-y", "z")]);
    assert!(is_streaming_response(Some("text/event-stream")));
    assert!(is_streaming_response(Some("TEXT/EVENT-STREAM;charset=utf-8")));
    assert!(!is_streaming_response(Some("text/plain")));
    assert!(!is_streaming_response(None));
}

#[test]
fn tcp_client_steps() {
    let ack = encode(&Frame::TcpOpenAck { request_id: 1, stream_id: 5 });
    assert!(matches!(ack_step(decode(&ack), 5), AckStep::Acked));
    assert!(matches!(ack_step(decode(&ack), 6), AckStep::Continue));
    let err = encode(&Frame::Error { request_id: 1, code: 403, message: "bad".to_string() });
    assert!(matches!(ack_step(decode(&err), 5), AckStep::Rejected { code: 403, .. }));
    let close = encode(&Frame::TcpClose { request_id: 1, stream_id: 5, reason: "gone".to_string() });
    assert!(matches!(ack_step(decode(&close), 5), AckStep::Closed { .. }));
    assert!(matches!(ack_step(decode(&[0]), 5), AckStep::Continue));

    let (f, go) = frame_for_local_read(3, 5, Ok(&[1, 2]));
    assert_eq!(f, Frame::TcpData { request_id: 3, stream_id: 5, data: vec![1, 2] });
    assert!(go);
    let (f, go) = frame_for_local_read(3, 5, Ok(&[]));
    assert_eq!(f, Frame::TcpClose { request_id: 3, stream_id: 5, reason: String::new() });
    assert!(!go);
    let (f, go) = frame_for_local_read(3, 5, Err("reset"));
    assert_eq!(f, Frame::TcpClose { request_id: 3, stream_id: 5, reason: "local read error: reset".to_string() });
    assert!(!go);

    let data = encode(&Frame::TcpData { request_id: 1, stream_id: 5, data: vec![7] });
    assert!(matches!(relay_step(decode(&data)), RelayStep::Write(d) if d == vec![7]));
    assert!(matches!(relay_step(decode(&close)), RelayStep::RemoteClosed(r) if r == "gone"));
    assert!(matches!(relay_step(decode(&err)), RelayStep::ServerError { code: 403, .. }));
    assert!(matches!(relay_step(decode(&ack)), RelayStep::Ignore));
}

#[test]
fn deploy_urls_and_replies() {
    assert_eq!(
        script_url("acc", "rs-rok"),
        "https://api.cloudflare.com/client/v4/accounts/acc/workers/scripts/rs-rok"
    );
    assert_eq!(
        script_subdomain_url("acc", "w"),
        "https://api.cloudflare.com/client/v4/accounts/acc/workers/scripts/w/subdomain"
    );
    assert_eq!(
        account_subdomain_url("acc"),
        "https://api.cloudflare.com/client/v4/accounts/acc/workers/subdomain"
    );
    assert_eq!(worker_url("rs-rok", "me"), "https://rs-rok.me.workers.dev");
    assert!(check_reply(true, vec![]).is_ok());
    let e = check_reply(
        false,
        vec![ApiError { code: 10000, message: "auth".to_string() }, ApiError { code: 7, message: "x".to_string() }],
    )
    .unwrap_err();
    assert_eq!(e.message(), "Cloudflare API errors: [10000] auth; [7] x");
    assert_eq!(subdomain_of(Some("me".to_string())).unwrap(), "me");
    let e = subdomain_of(None).unwrap_err();
    assert!(matches!(e, DeployError::NoSubdomain));
    assert_eq!(e.message(), "could not determine workers.dev subdomain for this account");
}

#[test]
fn register_frame_fields() {
    let a = register_frame(4, "secret", TunnelType::Https);
    let b = register_frame(4, "secret", TunnelType::Https);
    match (&a, &b) {
        (
            Frame::Register { request_id, tunnel_id, auth_token, tunnel_type },
            Frame::Register { tunnel_id: other_id, .. },
        ) => {
            assert_eq!(*request_id, 4);
            assert_eq!(tunnel_id[6] >> 4, 4);
            assert_eq!(tunnel_id[8] >> 6, 2);
            assert_eq!(&auth_token[..6], b"secret");
            assert_eq!(*tunnel_type, TunnelType::Https);
            assert_ne!(tunnel_id, other_id);
        }
        _ => panic!("expected REGISTER frames"),
    }
    assert_eq!(decode(&encode(&a)), Ok((a.clone(), encode(&a).len())));
}

#[test]
fn outbound_messages() {
    assert_eq!(outbound_message(true, b"hi".to_vec()), LocalMessage::Binary(b"hi".to_vec()));
    assert_eq!(outbound_message(false, "héllo".as_bytes().to_vec()), LocalMessage::Text("héllo".to_string()));
    assert_eq!(outbound_message(false, vec![0xFF, 0x00]), LocalMessage::Binary(vec![0xFF, 0x00]));
}
