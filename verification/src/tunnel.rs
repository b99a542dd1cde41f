//! The decisions of the tunnel client: where it connects, what it registers
//! with, how long it waits before reconnecting, and what it does with each
//! frame that the relay sends, given the websocket sessions it has open.
use vstd::prelude::*;
use vstd::string::{StringExecFns, StringSliceAdditionalSpecFns};
use crate::frame::{headers_view, strings_view, DecodeError, Frame, FrameView, Header, HeaderView, TunnelType};
use crate::proxy::{filter_headers, lemma_filter_headers_ext, ForwardScheme};
use crate::text::{contains, eq_ignore_ascii_case, eq_ignore_ascii_case_spec, find_from, replace_first, replace_first_str};
use vstd::utf8::encode_utf8;
use crate::text::{hex, to_hex};
use crate::decode::str_from_utf8;
use vstd::utf8::{decode_utf8, encode_utf8_decode_utf8, valid_utf8};
use rand::Rng;

verus! {

/// How the tunnel client is configured.
pub struct TunnelConfig {
    pub endpoint: String,
    pub auth_token: String,
    pub tunnel_type: TunnelType,
    pub local_addr: String,
    pub name: Option<String>,
}

/// The websocket base of an HTTP endpoint: the first `https://` becomes
/// `wss://`, then the first `http://` becomes `ws://`.
pub open spec fn spec_ws_base(endpoint: Seq<char>) -> Seq<char> {
    replace_first(replace_first(endpoint, "https://"@, "wss://"@), "http://"@, "ws://"@)
}

pub fn ws_base(endpoint: &str) -> (r: String)
    ensures
        r@ == spec_ws_base(endpoint@),
{
    let a = replace_first_str(endpoint, "https://", "wss://");
    replace_first_str(a.as_str(), "http://", "ws://")
}

/// The slug that the tunnel registers under: its name, or `__root__`.
pub open spec fn spec_tunnel_slug(name: Option<Seq<char>>) -> Seq<char> {
    match name {
        Some(n) => n,
        None => "__root__"@,
    }
}

pub fn tunnel_slug(name: &Option<String>) -> (r: String)
    ensures
        r@ == spec_tunnel_slug(match name {
            Some(n) => Some(n@),
            None => None,
        }),
{
    match name {
        Some(n) => n.clone(),
        None => "__root__".to_owned(),
    }
}

/// `{ws_base}/__rsrok_cli__/{slug}`: where the tunnel client connects.
pub fn cli_ws_url(endpoint: &str, slug: &str) -> (r: String)
    ensures
        r@ == spec_ws_base(endpoint@) + "/__rsrok_cli__/"@ + slug@,
{
    let mut s = ws_base(endpoint);
    s.append("/__rsrok_cli__/");
    s.append(slug);
    s
}

/// The auth token as the 32 bytes that REGISTER carries: its UTF-8 bytes,
/// cut after 32 or padded with zeros up to 32.
pub open spec fn spec_auth_token_bytes(token: Seq<u8>) -> Seq<u8> {
    Seq::new(32, |i: int| if i < token.len() { token[i] } else { 0u8 })
}

pub fn auth_token_bytes(token: &str) -> (r: [u8; 32])
    ensures
        r@ == spec_auth_token_bytes(token.spec_bytes()),
{
    let bytes = token.as_bytes();
    let copy_len = if bytes.len() < 32 { bytes.len() } else { 32 };
    let mut out = [0u8; 32];
    let mut i: usize = 0;
    while i < 32
        invariant
            i <= 32,
            out@.len() == 32,
            bytes@ == token.spec_bytes(),
            copy_len == if bytes@.len() < 32 { bytes@.len() } else { 32 },
            forall|j: int| 0 <= j < i ==> out@[j] == (if j < bytes@.len() { bytes@[j] } else { 0u8 }),
            forall|j: int| i <= j < 32 ==> out@[j] == 0u8,
        decreases 32 - i,
    {
        if i < copy_len {
            out[i] = bytes[i];
        }
        i += 1;
    }
    assert(out@ =~= spec_auth_token_bytes(token.spec_bytes()));
    out
}

/// `uuid::Uuid::new_v4().as_bytes()`: the sixteen bytes of a random
/// version-4 UUID. Claimed: the version nibble (high half of byte 6) is 4 and
/// the variant bits (top two of byte 8) are `10`; nothing of the other bits.
#[verifier::external_body]
fn new_v4_bytes() -> (r: [u8; 16])
    ensures
        r@[6] / 16 == 4,
        r@[8] / 64 == 2,
{
    *uuid::Uuid::new_v4().as_bytes()
}

/// The REGISTER frame that opens a tunnel: a fresh random version-4 UUID as
/// the tunnel id, the auth token cut or padded to 32 bytes, and the tunnel type.
pub fn register_frame(request_id: u32, auth_token: &str, tunnel_type: TunnelType) -> (r: Frame)
    ensures
        r@ matches FrameView::Register { request_id: rid, tunnel_id, auth_token: at, tunnel_type: tt }
            && rid == request_id && tunnel_id.len() == 16 && tunnel_id[6] / 16 == 4 && tunnel_id[8] / 64 == 2
            && at == spec_auth_token_bytes(auth_token.spec_bytes()) && tt == tunnel_type,
{
    let tunnel_id = new_v4_bytes();
    Frame::Register { request_id, tunnel_id, auth_token: auth_token_bytes(auth_token), tunnel_type }
}

/// The longest wait between two reconnection attempts, in seconds.
pub const MAX_BACKOFF_SECS: u64 = 30;

/// The wait before the next reconnection attempt: twice the last one, at most
/// 30 seconds.
pub fn next_backoff(delay_secs: u64) -> (r: u64)
    ensures
        r == if 2 * delay_secs <= 30 { 2 * delay_secs } else { 30 },
{
    if delay_secs >= 15 {
        MAX_BACKOFF_SECS
    } else {
        delay_secs * 2
    }
}

/// A disconnection whose message mentions `409` (the tunnel name is taken) is
/// final: the client stops instead of reconnecting.
pub fn is_fatal_disconnect(message: &str) -> (r: bool)
    ensures
        r == find_from(message@, "409"@, 0) is Some,
{
    contains(message, "409")
}

/// The scheme that requests to the local service use: `http` for an HTTP
/// tunnel, `https` for an HTTPS one; a TCP tunnel forwards no HTTP requests.
pub fn forward_scheme(tunnel_type: TunnelType) -> (r: Option<ForwardScheme>)
    ensures
        r == match tunnel_type {
            TunnelType::Http => Some(ForwardScheme::Http),
            TunnelType::Https => Some(ForwardScheme::Https),
            TunnelType::Tcp => None::<ForwardScheme>,
        },
{
    match tunnel_type {
        TunnelType::Http => Some(ForwardScheme::Http),
        TunnelType::Https => Some(ForwardScheme::Https),
        TunnelType::Tcp => None,
    }
}

/// What a message received while waiting for REGISTER_ACK means.
#[derive(Debug)]
pub enum RegisterReply {
    /// The relay accepted the tunnel, which is reachable at this URL.
    Registered(String),
    /// The relay refused the tunnel.
    Rejected { code: u16, message: String },
    /// Some other frame: keep waiting.
    Ignored,
    /// The message is not a frame.
    Malformed(DecodeError),
}

pub fn register_reply(decoded: Result<(Frame, usize), DecodeError>) -> (r: RegisterReply)
    ensures
        match decoded {
            Ok((f, _)) => match f@ {
                FrameView::RegisterAck { public_url, .. } => r matches RegisterReply::Registered(u) && u@ == public_url,
                FrameView::Error { code, message, .. } => r matches RegisterReply::Rejected { code: c, message: m } && c == code && m@ == message,
                _ => r is Ignored,
            },
            Err(e) => r == RegisterReply::Malformed(e),
        },
{
    match decoded {
        Ok((Frame::RegisterAck { public_url, .. }, _)) => RegisterReply::Registered(public_url),
        Ok((Frame::Error { code, message, .. }, _)) => RegisterReply::Rejected { code, message },
        Ok(_) => RegisterReply::Ignored,
        Err(e) => RegisterReply::Malformed(e),
    }
}

/// The websocket sessions that the client has open, by id.
pub struct WsSessions {
    ids: Vec<u32>,
}

impl View for WsSessions {
    type V = Set<u32>;

    closed spec fn view(&self) -> Set<u32> {
        self.ids@.to_set()
    }
}

impl WsSessions {
    /// No id is held twice.
    pub closed spec fn wf(&self) -> bool {
        self.ids@.no_duplicates()
    }

    pub fn new() -> (r: Self)
        ensures
            r.wf(),
            r@ == Set::<u32>::empty(),
    {
        let r = WsSessions { ids: Vec::new() };
        assert(r@ =~= Set::<u32>::empty());
        r
    }

    fn index_of(&self, ws_id: u32) -> (r: Option<usize>)
        ensures
            match r {
                Some(i) => i < self.ids@.len() && self.ids@[i as int] == ws_id,
                None => !self.ids@.contains(ws_id),
            },
    {
        let mut i: usize = 0;
        while i < self.ids.len()
            invariant
                i <= self.ids@.len(),
                forall|j: int| 0 <= j < i ==> self.ids@[j] != ws_id,
            decreases self.ids.len() - i,
        {
            if self.ids[i] == ws_id {
                return Some(i);
            }
            i += 1;
        }
        None
    }

    pub fn contains(&self, ws_id: u32) -> (r: bool)
        ensures
            r == self@.contains(ws_id),
    {
        self.index_of(ws_id).is_some()
    }

    /// Records `ws_id` as open; returns whether it was open already.
    pub fn insert(&mut self, ws_id: u32) -> (r: bool)
        requires
            old(self).wf(),
        ensures
            final(self).wf(),
            r == old(self)@.contains(ws_id),
            final(self)@ == old(self)@.insert(ws_id),
    {
        if self.contains(ws_id) {
            assert(self@ =~= old(self)@.insert(ws_id));
            true
        } else {
            let ghost before = self.ids@;
            self.ids.push(ws_id);
            assert(self.ids@[before.len() as int] == ws_id);
            assert forall|x: u32| self.ids@.contains(x) <==> (before.contains(x) || x == ws_id) by {
                if before.contains(x) {
                    let k = choose|k: int| 0 <= k < before.len() && before[k] == x;
                    assert(self.ids@[k] == x);
                }
                if self.ids@.contains(x) && x != ws_id {
                    let k = choose|k: int| 0 <= k < self.ids@.len() && self.ids@[k] == x;
                    assert(before[k] == x);
                }
            }
            assert(self@ =~= old(self)@.insert(ws_id));
            false
        }
    }

    /// Forgets `ws_id`; returns whether it was open.
    pub fn remove(&mut self, ws_id: u32) -> (r: bool)
        requires
            old(self).wf(),
        ensures
            final(self).wf(),
            r == old(self)@.contains(ws_id),
            final(self)@ == old(self)@.remove(ws_id),
    {
        match self.index_of(ws_id) {
            Some(i) => {
                let ghost before = self.ids@;
                self.ids.remove(i);
                assert(self.ids@ =~= before.remove(i as int));
                assert forall|x: u32| self@.contains(x) <==> old(self)@.remove(ws_id).contains(x) by {
                    if x != ws_id && before.contains(x) {
                        let k = choose|k: int| 0 <= k < before.len() && before[k] == x;
                        if k < i {
                            assert(self.ids@[k] == x);
                        } else {
                            assert(self.ids@[k - 1] == x);
                        }
                    }
                }
                assert(self@ =~= old(self)@.remove(ws_id));
                true
            },
            None => {
                assert(self@ =~= old(self)@.remove(ws_id));
                false
            },
        }
    }

    /// Forgets every session and returns their ids, each once.
    pub fn close_all(&mut self) -> (r: Vec<u32>)
        requires
            old(self).wf(),
        ensures
            final(self).wf(),
            final(self)@ == Set::<u32>::empty(),
            r@.no_duplicates(),
            r@.to_set() == old(self)@,
    {
        let mut taken: Vec<u32> = Vec::new();
        core::mem::swap(&mut taken, &mut self.ids);
        assert(self@ =~= Set::<u32>::empty());
        taken
    }
}

/// What the client does with a frame that the relay sent.
#[derive(Debug)]
pub enum TunnelAction {
    /// Forward this REQUEST frame to the local service.
    Forward(Frame),
    /// Open a local websocket for `ws_id`; when `replaced`, the session that
    /// had this id is closed first (code 1012, "session replaced").
    OpenWs { ws_id: u32, replaced: bool, url: String, headers: Vec<Header>, protocols: Vec<String> },
    /// Relay a message to the open local websocket `ws_id`.
    SendWs { ws_id: u32, is_binary: bool, data: Vec<u8> },
    /// Close the local websocket `ws_id`.
    CloseWs { ws_id: u32, code: u16, reason: String },
    /// Send this frame back to the relay.
    Reply(Frame),
    /// The relay reported an error.
    ReportError { code: u16, message: String },
    /// Data or close for a websocket that is not open: nothing to do.
    Ignore,
    /// A frame the client does not expect from the relay.
    Unexpected { frame_type: u8 },
}

/// Decides what to do with a frame from the relay, and updates the open
/// websocket sessions: WS_OPEN opens its id (replacing a session with that
/// id), WS_CLOSE closes its id when open; no other frame changes them.
pub fn handle_frame(sessions: &mut WsSessions, frame: Frame) -> (r: TunnelAction)
    requires
        old(sessions).wf(),
    ensures
        final(sessions).wf(),
        match frame@ {
            FrameView::Request { .. } => (r matches TunnelAction::Forward(f) && f@ == frame@)
                && final(sessions)@ == old(sessions)@,
            FrameView::WsOpen { ws_id, url, headers, protocols, .. } => (r matches TunnelAction::OpenWs {
                ws_id: id,
                replaced,
                url: u,
                headers: hs,
                protocols: ps,
            } && id == ws_id && replaced == old(sessions)@.contains(ws_id) && u@ == url
                && headers_view(hs@) == headers && strings_view(ps@) == protocols)
                && final(sessions)@ == old(sessions)@.insert(ws_id),
            FrameView::WsData { ws_id, is_binary, data, .. } => (if old(sessions)@.contains(ws_id) {
                r matches TunnelAction::SendWs { ws_id: id, is_binary: b, data: d } && id == ws_id
                    && b == is_binary && d@ == data
            } else {
                r is Ignore
            }) && final(sessions)@ == old(sessions)@,
            FrameView::WsClose { ws_id, code, reason, .. } => (if old(sessions)@.contains(ws_id) {
                r matches TunnelAction::CloseWs { ws_id: id, code: c, reason: s } && id == ws_id
                    && c == code && s@ == reason
            } else {
                r is Ignore
            }) && final(sessions)@ == old(sessions)@.remove(ws_id),
            FrameView::Ping { request_id } => (r matches TunnelAction::Reply(f) && f@
                == FrameView::Pong { request_id }) && final(sessions)@ == old(sessions)@,
            FrameView::Error { code, message, .. } => (r matches TunnelAction::ReportError {
                code: c,
                message: m,
            } && c == code && m@ == message) && final(sessions)@ == old(sessions)@,
            _ => r == TunnelAction::Unexpected { frame_type: frame@.frame_type() }
                && final(sessions)@ == old(sessions)@,
        },
{
    let frame_type = frame.frame_type();
    match frame {
        Frame::Request { request_id, method, url, headers, body } => TunnelAction::Forward(
            Frame::Request { request_id, method, url, headers, body },
        ),
        Frame::WsOpen { ws_id, url, headers, protocols, .. } => {
            let replaced = sessions.insert(ws_id);
            TunnelAction::OpenWs { ws_id, replaced, url, headers, protocols }
        },
        Frame::WsData { ws_id, is_binary, data, .. } => {
            if sessions.contains(ws_id) {
                TunnelAction::SendWs { ws_id, is_binary, data }
            } else {
                TunnelAction::Ignore
            }
        },
        Frame::WsClose { ws_id, code, reason, .. } => {
            if sessions.remove(ws_id) {
                TunnelAction::CloseWs { ws_id, code, reason }
            } else {
                TunnelAction::Ignore
            }
        },
        Frame::Ping { request_id } => TunnelAction::Reply(Frame::Pong { request_id }),
        Frame::Error { code, message, .. } => TunnelAction::ReportError { code, message },
        _ => TunnelAction::Unexpected { frame_type },
    }
}

// ---------------------------------------------------------------------------
// Local websocket bridge
// ---------------------------------------------------------------------------

pub open spec fn spec_ws_scheme_name(scheme: ForwardScheme) -> Seq<char> {
    match scheme {
        ForwardScheme::Http => "ws"@,
        ForwardScheme::Https => "wss"@,
    }
}

/// `{ws|wss}://{local_addr}{url}`: the local websocket that a WS_OPEN reaches.
pub fn ws_target(scheme: ForwardScheme, local_addr: &str, url: &str) -> (r: String)
    ensures
        r@ == spec_ws_scheme_name(scheme) + "://"@ + local_addr@ + url@,
{
    let mut s = match scheme {
        ForwardScheme::Http => "ws".to_owned(),
        ForwardScheme::Https => "wss".to_owned(),
    };
    s.append("://");
    s.append(local_addr);
    s.append(url);
    s
}

/// The headers that the bridge sets itself, or that describe the relay's own
/// connection, are not passed to the local websocket (any ASCII case).
pub open spec fn bridge_drops_spec(name: Seq<u8>) -> bool {
    ||| eq_ignore_ascii_case_spec(name, "connection".spec_bytes())
    ||| eq_ignore_ascii_case_spec(name, "keep-alive".spec_bytes())
    ||| eq_ignore_ascii_case_spec(name, "transfer-encoding".spec_bytes())
    ||| eq_ignore_ascii_case_spec(name, "upgrade".spec_bytes())
    ||| eq_ignore_ascii_case_spec(name, "host".spec_bytes())
    ||| eq_ignore_ascii_case_spec(name, "sec-websocket-key".spec_bytes())
    ||| eq_ignore_ascii_case_spec(name, "sec-websocket-version".spec_bytes())
    ||| eq_ignore_ascii_case_spec(name, "sec-websocket-extensions".spec_bytes())
    ||| eq_ignore_ascii_case_spec(name, "sec-websocket-protocol".spec_bytes())
}

pub open spec fn bridge_keeps_spec(h: HeaderView) -> bool {
    !bridge_drops_spec(encode_utf8(h.name))
}

pub fn bridge_drops_header(name: &str) -> (r: bool)
    ensures
        r == bridge_drops_spec(name.spec_bytes()),
{
    eq_ignore_ascii_case(name, "connection") || eq_ignore_ascii_case(name, "keep-alive")
        || eq_ignore_ascii_case(name, "transfer-encoding") || eq_ignore_ascii_case(name, "upgrade")
        || eq_ignore_ascii_case(name, "host") || eq_ignore_ascii_case(name, "sec-websocket-key")
        || eq_ignore_ascii_case(name, "sec-websocket-version") || eq_ignore_ascii_case(
        name,
        "sec-websocket-extensions",
    ) || eq_ignore_ascii_case(name, "sec-websocket-protocol")
}

/// The headers of a WS_OPEN that the bridge passes on, in order.
pub fn bridge_headers(headers: &Vec<Header>) -> (r: Vec<Header>)
    ensures
        headers_view(r@) == filter_headers(headers_view(headers@), |h: HeaderView| bridge_keeps_spec(h)),
{
    let ghost keep = |h: HeaderView| bridge_keeps_spec(h);
    let ghost hv = headers_view(headers@);
    let mut out: Vec<Header> = Vec::new();
    let mut i: usize = 0;
    assert(hv.take(0) =~= Seq::<HeaderView>::empty());
    assert(headers_view(out@) =~= Seq::<HeaderView>::empty());
    while i < headers.len()
        invariant
            i <= headers.len(),
            hv == headers_view(headers@),
            keep == (|h: HeaderView| bridge_keeps_spec(h)),
            headers_view(out@) == filter_headers(hv.take(i as int), keep),
        decreases headers.len() - i,
    {
        let ghost before = out@;
        let h = &headers[i];
        assert(hv.take(i + 1).drop_last() =~= hv.take(i as int));
        assert(hv.take(i + 1).last() == h@);
        if !bridge_drops_header(h.name.as_str()) {
            out.push(Header { name: h.name.clone(), value: h.value.clone() });
            assert(headers_view(out@) =~= headers_view(before).push(h@));
        }
        i += 1;
    }
    assert(hv.take(headers.len() as int) =~= hv);
    out
}

/// A message for the local websocket.
#[derive(Debug, PartialEq, Eq)]
pub enum LocalMessage {
    Binary(Vec<u8>),
    Text(String),
}

/// The message that a WS_DATA payload becomes on the local websocket: binary
/// data stays binary; text data becomes a text message when it is valid UTF-8,
/// and is sent as binary otherwise.
pub fn outbound_message(is_binary: bool, data: Vec<u8>) -> (r: LocalMessage)
    ensures
        if !is_binary && valid_utf8(data@) {
            r matches LocalMessage::Text(t) && t@ == decode_utf8(data@)
        } else {
            r matches LocalMessage::Binary(b) && b@ == data@
        },
{
    if is_binary {
        return LocalMessage::Binary(data);
    }
    let text = match str_from_utf8(data.as_slice()) {
        Some(s) => {
            proof {
                encode_utf8_decode_utf8(s@);
            }
            Some(s.to_owned())
        },
        None => None,
    };
    match text {
        Some(t) => LocalMessage::Text(t),
        None => LocalMessage::Binary(data),
    }
}

/// The headers that the bridge does not pass on, as UTF-8 bytes: connection,
/// keep-alive, transfer-encoding, upgrade, host, sec-websocket-key,
/// sec-websocket-version, sec-websocket-extensions, sec-websocket-protocol.
pub open spec fn bridge_withheld_names() -> Seq<Seq<u8>> {
    seq![
        "connection".spec_bytes(),
        "keep-alive".spec_bytes(),
        "transfer-encoding".spec_bytes(),
        "upgrade".spec_bytes(),
        "host".spec_bytes(),
        "sec-websocket-key".spec_bytes(),
        "sec-websocket-version".spec_bytes(),
        "sec-websocket-extensions".spec_bytes(),
        "sec-websocket-protocol".spec_bytes(),
    ]
}

/// A name that equals, up to ASCII case, one of the withheld names.
pub open spec fn is_withheld_name(name: Seq<u8>) -> bool {
    exists|k: int| 0 <= k < 9 && eq_ignore_ascii_case_spec(name, #[trigger] bridge_withheld_names()[k])
}

/// A header of a WS_OPEN reaches the local websocket exactly when its name is
/// not, up to ASCII case, one of the nine withheld names; `Authorization`,
/// `Cookie` and every other header are passed on.
pub proof fn lemma_bridge_passes_header(h: HeaderView)
    ensures
        bridge_keeps_spec(h) <==> !is_withheld_name(encode_utf8(h.name)),
{
    let n = encode_utf8(h.name);
    let l = bridge_withheld_names();
    if bridge_drops_spec(n) {
        if eq_ignore_ascii_case_spec(n, "connection".spec_bytes()) {
            assert(eq_ignore_ascii_case_spec(n, l[0]));
        } else if eq_ignore_ascii_case_spec(n, "keep-alive".spec_bytes()) {
            assert(eq_ignore_ascii_case_spec(n, l[1]));
        } else if eq_ignore_ascii_case_spec(n, "transfer-encoding".spec_bytes()) {
            assert(eq_ignore_ascii_case_spec(n, l[2]));
        } else if eq_ignore_ascii_case_spec(n, "upgrade".spec_bytes()) {
            assert(eq_ignore_ascii_case_spec(n, l[3]));
        } else if eq_ignore_ascii_case_spec(n, "host".spec_bytes()) {
            assert(eq_ignore_ascii_case_spec(n, l[4]));
        } else if eq_ignore_ascii_case_spec(n, "sec-websocket-key".spec_bytes()) {
            assert(eq_ignore_ascii_case_spec(n, l[5]));
        } else if eq_ignore_ascii_case_spec(n, "sec-websocket-version".spec_bytes()) {
            assert(eq_ignore_ascii_case_spec(n, l[6]));
        } else if eq_ignore_ascii_case_spec(n, "sec-websocket-extensions".spec_bytes()) {
            assert(eq_ignore_ascii_case_spec(n, l[7]));
        } else {
            assert(eq_ignore_ascii_case_spec(n, l[8]));
        }
    }
    if is_withheld_name(n) {
        let k = choose|k: int| 0 <= k < 9 && eq_ignore_ascii_case_spec(n, #[trigger] l[k]);
        assert(bridge_drops_spec(n));
    }
}

/// The headers that `bridge_headers` passes on are, in their order, exactly
/// the WS_OPEN's headers whose name is not one of the withheld names.
pub proof fn lemma_bridge_headers(hs: Seq<HeaderView>)
    ensures
        filter_headers(hs, |h: HeaderView| bridge_keeps_spec(h)) == filter_headers(
            hs,
            |h: HeaderView| !is_withheld_name(encode_utf8(h.name)),
        ),
{
    let p = |h: HeaderView| bridge_keeps_spec(h);
    let q = |h: HeaderView| !is_withheld_name(encode_utf8(h.name));
    assert forall|h: HeaderView| #[trigger] p(h) == q(h) by {
        lemma_bridge_passes_header(h);
    }
    lemma_filter_headers_ext(hs, p, q);
}

/// The strings joined with `", "` between each two.
pub open spec fn join_with_comma(ss: Seq<Seq<char>>) -> Seq<char>
    decreases ss.len(),
{
    if ss.len() == 0 {
        Seq::empty()
    } else if ss.len() == 1 {
        ss[0]
    } else {
        join_with_comma(ss.drop_last()) + ", "@ + ss.last()
    }
}

/// The `Sec-WebSocket-Protocol` value that a WS_OPEN's protocols give.
pub fn join_protocols(protocols: &Vec<String>) -> (r: String)
    ensures
        r@ == join_with_comma(strings_view(protocols@)),
{
    let ghost sv = strings_view(protocols@);
    let mut s = String::new();
    let mut i: usize = 0;
    assert(sv.take(0) =~= Seq::<Seq<char>>::empty());
    while i < protocols.len()
        invariant
            i <= protocols.len(),
            sv == strings_view(protocols@),
            s@ == join_with_comma(sv.take(i as int)),
        decreases protocols.len() - i,
    {
        assert(sv.take(i + 1).drop_last() =~= sv.take(i as int));
        if i > 0 {
            s.append(", ");
        } else {
            assert(sv.take(1) =~= seq![sv[0]]);
        }
        s.append(protocols[i].as_str());
        i += 1;
    }
    assert(sv.take(protocols.len() as int) =~= sv);
    s
}

// ---------------------------------------------------------------------------
// TCP tunnel token
// ---------------------------------------------------------------------------

/// `rand::thread_rng().gen::<[u8; 16]>()`: sixteen bytes from the thread's
/// random generator. Nothing is claimed of their values.
#[verifier::external_body]
fn random_bytes_16() -> [u8; 16] {
    let mut rng = rand::thread_rng();
    rng.gen()
}

/// A fresh secret for a TCP tunnel: sixteen random bytes written as 32
/// lower-case hexadecimal digits.
pub fn generate_tcp_token() -> (r: String)
    ensures
        exists|b: Seq<u8>| b.len() == 16 && r@ == hex(b),
{
    let bytes = random_bytes_16();
    let r = to_hex(bytes.as_slice());
    assert(bytes@.len() == 16);
    r
}

} // verus!
