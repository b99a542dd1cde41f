//! The decisions of the local HTTP forwarder: where a REQUEST frame goes,
//! which request and response headers travel, and whether a response streams.
use vstd::prelude::*;
use vstd::string::{StringExecFns, StringSliceAdditionalSpecFns};
use vstd::utf8::{encode_utf8, encode_utf8_decode_utf8, is_ascii_chars, is_ascii_chars_encode_utf8};
use crate::frame::{headers_view, Frame, FrameView, Header, HeaderView, Method};
use crate::text::{ascii_lower, eq_ignore_ascii_case, eq_ignore_ascii_case_spec, lower_starts_with, lower_starts_with_spec};

verus! {

/// Which scheme to use when forwarding requests to the local service.
#[derive(Debug, Clone, Copy, PartialEq, Eq, Structural)]
pub enum ForwardScheme {
    Http,
    Https,
}

/// Why a request could not be forwarded.
#[derive(Debug)]
pub enum ProxyError {
    InvalidFrame(&'static str),
    Http(String),
}

impl ProxyError {
    /// The text that the error displays.
    pub fn message(&self) -> (r: String)
        ensures
            match self {
                ProxyError::InvalidFrame(m) => r@ == "invalid frame: "@ + m@,
                ProxyError::Http(m) => r@ == "HTTP error: "@ + m@,
            },
    {
        match self {
            ProxyError::InvalidFrame(m) => {
                let mut s = "invalid frame: ".to_owned();
                s.append(m);
                s
            },
            ProxyError::Http(m) => {
                let mut s = "HTTP error: ".to_owned();
                s.append(m.as_str());
                s
            },
        }
    }
}

/// Whether two strings are equal, compared by their bytes.
pub fn str_eq(a: &str, b: &str) -> (r: bool)
    ensures
        r == (a@ == b@),
{
    let x = a.as_bytes();
    let y = b.as_bytes();
    proof {
        encode_utf8_decode_utf8(a@);
        encode_utf8_decode_utf8(b@);
    }
    if x.len() != y.len() {
        return false;
    }
    let mut i: usize = 0;
    while i < x.len()
        invariant
            x@ == encode_utf8(a@),
            y@ == encode_utf8(b@),
            x@.len() == y@.len(),
            i <= x@.len(),
            forall|k: int| 0 <= k < i ==> x@[k] == y@[k],
        decreases x.len() - i,
    {
        if x[i] != y[i] {
            return false;
        }
        i += 1;
    }
    assert(x@ =~= y@);
    true
}

pub open spec fn spec_scheme_name(scheme: ForwardScheme) -> Seq<char> {
    match scheme {
        ForwardScheme::Http => "http"@,
        ForwardScheme::Https => "https"@,
    }
}

pub fn scheme_name(scheme: ForwardScheme) -> (r: &'static str)
    ensures
        r@ == spec_scheme_name(scheme),
{
    match scheme {
        ForwardScheme::Http => "http",
        ForwardScheme::Https => "https",
    }
}

/// `{scheme}://{local_addr}{url}`: where a request is forwarded.
pub open spec fn spec_target_uri(scheme: ForwardScheme, local_addr: Seq<char>, url: Seq<char>) -> Seq<char> {
    spec_scheme_name(scheme) + "://"@ + local_addr + url
}

pub fn target_uri(scheme: ForwardScheme, local_addr: &str, url: &str) -> (r: String)
    ensures
        r@ == spec_target_uri(scheme, local_addr@, url@),
{
    let mut s = scheme_name(scheme).to_owned();
    s.append("://");
    s.append(local_addr);
    s.append(url);
    s
}

/// The headers of `hs` that `keep` accepts, in their order.
pub open spec fn filter_headers(hs: Seq<HeaderView>, keep: spec_fn(HeaderView) -> bool) -> Seq<HeaderView>
    decreases hs.len(),
{
    if hs.len() == 0 {
        Seq::empty()
    } else if keep(hs.last()) {
        filter_headers(hs.drop_last(), keep).push(hs.last())
    } else {
        filter_headers(hs.drop_last(), keep)
    }
}

/// A request header travels to the local service unless it is
/// `accept-encoding` in any ASCII case: the tunnel carries raw bytes, so the
/// local server must not compress its reply.
pub open spec fn forwards_request_header_spec(h: HeaderView) -> bool {
    !eq_ignore_ascii_case_spec(encode_utf8(h.name), "accept-encoding".spec_bytes())
}

pub fn forwards_request_header(name: &str) -> (r: bool)
    ensures
        r == forwards_request_header_spec(HeaderView { name: name@, value: Seq::empty() }),
{
    !eq_ignore_ascii_case(name, "accept-encoding")
}

/// Hop-by-hop response headers describe the local connection and are not
/// relayed; neither is `content-encoding`, since the tunnel carries the body
/// as it was received.
pub open spec fn is_hop_by_hop_spec(name: Seq<char>) -> bool {
    ||| name == "connection"@
    ||| name == "keep-alive"@
    ||| name == "transfer-encoding"@
    ||| name == "upgrade"@
    ||| name == "proxy-connection"@
    ||| name == "proxy-authenticate"@
    ||| name == "proxy-authorization"@
    ||| name == "te"@
    ||| name == "trailers"@
    ||| name == "content-encoding"@
}

pub fn is_hop_by_hop(name: &str) -> (r: bool)
    ensures
        r == is_hop_by_hop_spec(name@),
{
    str_eq(name, "connection") || str_eq(name, "keep-alive") || str_eq(name, "transfer-encoding")
        || str_eq(name, "upgrade") || str_eq(name, "proxy-connection") || str_eq(
        name,
        "proxy-authenticate",
    ) || str_eq(name, "proxy-authorization") || str_eq(name, "te") || str_eq(name, "trailers")
        || str_eq(name, "content-encoding")
}

pub open spec fn relays_response_header_spec(h: HeaderView) -> bool {
    !is_hop_by_hop_spec(h.name)
}

/// The response headers that are relayed back through the tunnel, in order.
/// The names come from the HTTP client, which gives them in lower case.
pub fn relayed_response_headers(headers: &Vec<Header>) -> (r: Vec<Header>)
    ensures
        headers_view(r@) == filter_headers(headers_view(headers@), |h: HeaderView| relays_response_header_spec(h)),
{
    let ghost keep = |h: HeaderView| relays_response_header_spec(h);
    let ghost hv = headers_view(headers@);
    let mut out: Vec<Header> = Vec::new();
    let mut i: usize = 0;
    assert(hv.take(0) =~= Seq::<HeaderView>::empty());
    assert(headers_view(out@) =~= Seq::<HeaderView>::empty());
    while i < headers.len()
        invariant
            i <= headers.len(),
            hv == headers_view(headers@),
            keep == (|h: HeaderView| relays_response_header_spec(h)),
            headers_view(out@) == filter_headers(hv.take(i as int), keep),
        decreases headers.len() - i,
    {
        let ghost before = out@;
        let h = &headers[i];
        assert(hv.take(i + 1).drop_last() =~= hv.take(i as int));
        assert(hv.take(i + 1).last() == h@);
        if !is_hop_by_hop(h.name.as_str()) {
            out.push(Header { name: h.name.clone(), value: h.value.clone() });
            assert(headers_view(out@) =~= headers_view(before).push(h@));
        }
        i += 1;
    }
    assert(hv.take(headers.len() as int) =~= hv);
    out
}

/// What forwarding a REQUEST frame needs: the frame's id, method, body, the
/// target URI, and the request headers that travel.
pub struct ForwardPlan {
    pub request_id: u32,
    pub method: Method,
    pub uri: String,
    pub headers: Vec<Header>,
    pub body: Vec<u8>,
}

/// Plans the forwarding of a frame to the local service: only a REQUEST frame
/// can be forwarded; any other frame is refused as `InvalidFrame`.
pub fn plan_forward(frame: &Frame, local_addr: &str, scheme: ForwardScheme) -> (r: Result<ForwardPlan, ProxyError>)
    ensures
        r is Ok <==> frame@ is Request,
        r matches Err(e) ==> e == ProxyError::InvalidFrame("expected REQUEST frame"),
        r matches Ok(p) ==> (frame@ matches FrameView::Request { request_id, method, url, headers, body } && {
            &&& p.request_id == request_id
            &&& p.method == method
            &&& p.uri@ == spec_target_uri(scheme, local_addr@, url)
            &&& headers_view(p.headers@) == filter_headers(headers, |h: HeaderView| forwards_request_header_spec(h))
            &&& p.body@ == body
        }),
{
    match frame {
        Frame::Request { request_id, method, url, headers, body } => {
            let uri = target_uri(scheme, local_addr, url.as_str());
            let ghost keep = |h: HeaderView| forwards_request_header_spec(h);
            let ghost hv = headers_view(headers@);
            let mut out: Vec<Header> = Vec::new();
            let mut i: usize = 0;
            assert(hv.take(0) =~= Seq::<HeaderView>::empty());
            assert(headers_view(out@) =~= Seq::<HeaderView>::empty());
            while i < headers.len()
                invariant
                    i <= headers.len(),
                    hv == headers_view(headers@),
                    keep == (|h: HeaderView| forwards_request_header_spec(h)),
                    headers_view(out@) == filter_headers(hv.take(i as int), keep),
                decreases headers.len() - i,
            {
                let ghost before = out@;
                let h = &headers[i];
                assert(hv.take(i + 1).drop_last() =~= hv.take(i as int));
                assert(hv.take(i + 1).last() == h@);
                if forwards_request_header(h.name.as_str()) {
                    out.push(Header { name: h.name.clone(), value: h.value.clone() });
                    assert(headers_view(out@) =~= headers_view(before).push(h@));
                }
                i += 1;
            }
            assert(hv.take(headers.len() as int) =~= hv);
            Ok(ForwardPlan { request_id: *request_id, method: *method, uri, headers: out, body: body.clone() })
        },
        _ => Err(ProxyError::InvalidFrame("expected REQUEST frame")),
    }
}

/// Whether a content type, as bytes, marks a streamed response.
pub open spec fn streams_spec(content_type: Seq<u8>) -> bool {
    lower_starts_with_spec(content_type, "text/event-stream".spec_bytes())
}

/// Whether a response is streamed (server-sent events) rather than buffered:
/// its content type, in ASCII lower case, starts with `text/event-stream`. A
/// response without a readable content type is buffered.
pub fn is_streaming_response(content_type: Option<&str>) -> (r: bool)
    ensures
        r == match content_type {
            Some(ct) => streams_spec(ct.spec_bytes()),
            None => false,
        },
{
    match content_type {
        Some(ct) => lower_starts_with(ct, "text/event-stream"),
        None => false,
    }
}

// ---------------------------------------------------------------------------
// What travels through the forwarder
// ---------------------------------------------------------------------------

/// Filtering with two predicates that agree on every header gives the same list.
pub proof fn lemma_filter_headers_ext(
    hs: Seq<HeaderView>,
    p: spec_fn(HeaderView) -> bool,
    q: spec_fn(HeaderView) -> bool,
)
    requires
        forall|h: HeaderView| #[trigger] p(h) == q(h),
    ensures
        filter_headers(hs, p) == filter_headers(hs, q),
    decreases hs.len(),
{
    if hs.len() > 0 {
        lemma_filter_headers_ext(hs.drop_last(), p, q);
    }
}

/// The UTF-8 bytes of `accept-encoding`: a, c, c, e, p, t, -, e, n, c, o, d, i, n, g.
pub open spec fn accept_encoding_bytes() -> Seq<u8> {
    seq![97u8, 99, 99, 101, 112, 116, 45, 101, 110, 99, 111, 100, 105, 110, 103]
}

/// A header name that spells `accept-encoding` in some mix of ASCII cases.
pub open spec fn names_accept_encoding(name: Seq<u8>) -> bool {
    &&& name.len() == 15
    &&& forall|i: int| 0 <= i < 15 ==> ascii_lower(#[trigger] name[i]) == accept_encoding_bytes()[i]
}

proof fn lemma_accept_encoding_literal()
    ensures
        "accept-encoding".spec_bytes() == accept_encoding_bytes(),
{
    reveal_strlit("accept-encoding");
    let c = "accept-encoding"@;
    assert(is_ascii_chars(c));
    is_ascii_chars_encode_utf8(c);
    assert(encode_utf8(c) =~= accept_encoding_bytes());
}

/// A request header is forwarded to the local service exactly when its name
/// does not spell `accept-encoding` in any ASCII case: every other header,
/// `Accept` and `Accept-Language` among them, travels.
pub proof fn lemma_forwarded_request_header(h: HeaderView)
    ensures
        forwards_request_header_spec(h) <==> !names_accept_encoding(encode_utf8(h.name)),
{
    lemma_accept_encoding_literal();
    let a = accept_encoding_bytes();
    assert forall|i: int| 0 <= i < 15 implies ascii_lower(#[trigger] a[i]) == a[i] by {
        assert(a[i] < 65 || a[i] > 90);
    }
}

/// The headers that `plan_forward` forwards are, in their order, exactly the
/// request's headers whose name does not spell `accept-encoding`.
pub proof fn lemma_forwarded_request_headers(hs: Seq<HeaderView>)
    ensures
        filter_headers(hs, |h: HeaderView| forwards_request_header_spec(h)) == filter_headers(
            hs,
            |h: HeaderView| !names_accept_encoding(encode_utf8(h.name)),
        ),
{
    let p = |h: HeaderView| forwards_request_header_spec(h);
    let q = |h: HeaderView| !names_accept_encoding(encode_utf8(h.name));
    assert forall|h: HeaderView| #[trigger] p(h) == q(h) by {
        lemma_forwarded_request_header(h);
    }
    lemma_filter_headers_ext(hs, p, q);
}

/// The response headers that are not relayed: the hop-by-hop headers
/// connection, keep-alive, transfer-encoding, upgrade, proxy-connection,
/// proxy-authenticate, proxy-authorization, te and trailers, and
/// content-encoding.
pub open spec fn unrelayed_response_header_names() -> Seq<Seq<char>> {
    seq![
        "connection"@,
        "keep-alive"@,
        "transfer-encoding"@,
        "upgrade"@,
        "proxy-connection"@,
        "proxy-authenticate"@,
        "proxy-authorization"@,
        "te"@,
        "trailers"@,
        "content-encoding"@,
    ]
}

/// A response header is relayed exactly when its name is not one of the ten
/// listed names; `set-cookie`, `content-type` and every other header travel.
pub proof fn lemma_relayed_response_header(h: HeaderView)
    ensures
        relays_response_header_spec(h) <==> !unrelayed_response_header_names().contains(h.name),
{
    let l = unrelayed_response_header_names();
    if is_hop_by_hop_spec(h.name) {
        if h.name == "connection"@ {
            assert(l[0] == h.name);
        } else if h.name == "keep-alive"@ {
            assert(l[1] == h.name);
        } else if h.name == "transfer-encoding"@ {
            assert(l[2] == h.name);
        } else if h.name == "upgrade"@ {
            assert(l[3] == h.name);
        } else if h.name == "proxy-connection"@ {
            assert(l[4] == h.name);
        } else if h.name == "proxy-authenticate"@ {
            assert(l[5] == h.name);
        } else if h.name == "proxy-authorization"@ {
            assert(l[6] == h.name);
        } else if h.name == "te"@ {
            assert(l[7] == h.name);
        } else if h.name == "trailers"@ {
            assert(l[8] == h.name);
        } else {
            assert(l[9] == h.name);
        }
    }
    if l.contains(h.name) {
        let k = choose|k: int| 0 <= k < l.len() && l[k] == h.name;
        assert(0 <= k < 10);
        assert(is_hop_by_hop_spec(h.name));
    }
}

/// The headers that `relayed_response_headers` returns are, in their order,
/// exactly the response's headers whose name is not one of the ten listed.
pub proof fn lemma_relayed_response_headers(hs: Seq<HeaderView>)
    ensures
        filter_headers(hs, |h: HeaderView| relays_response_header_spec(h)) == filter_headers(
            hs,
            |h: HeaderView| !unrelayed_response_header_names().contains(h.name),
        ),
{
    let p = |h: HeaderView| relays_response_header_spec(h);
    let q = |h: HeaderView| !unrelayed_response_header_names().contains(h.name);
    assert forall|h: HeaderView| #[trigger] p(h) == q(h) by {
        lemma_relayed_response_header(h);
    }
    lemma_filter_headers_ext(hs, p, q);
}

/// The UTF-8 bytes of `text/event-stream`.
pub open spec fn event_stream_bytes() -> Seq<u8> {
    seq![116u8, 101, 120, 116, 47, 101, 118, 101, 110, 116, 45, 115, 116, 114, 101, 97, 109]
}

proof fn lemma_event_stream_literal()
    ensures
        "text/event-stream".spec_bytes() == event_stream_bytes(),
{
    reveal_strlit("text/event-stream");
    let c = "text/event-stream"@;
    assert(is_ascii_chars(c));
    is_ascii_chars_encode_utf8(c);
    assert(encode_utf8(c) =~= event_stream_bytes());
}

/// A response streams exactly when its content type's first 17 bytes, in
/// ASCII lower case, spell `text/event-stream` (parameters such as
/// `; charset=utf-8` may follow); any other content type is buffered.
pub proof fn lemma_streaming_content_type(ct: Seq<u8>)
    ensures
        streams_spec(ct) <==> (ct.len() >= 17 && forall|i: int|
            0 <= i < 17 ==> ascii_lower(#[trigger] ct[i]) == event_stream_bytes()[i]),
{
    lemma_event_stream_literal();
}

} // verus!
