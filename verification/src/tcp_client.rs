//! The decisions of `connect`, the client side of a TCP tunnel: where it
//! connects, when its stream is open, and what each side of the relay turns
//! into.
use vstd::prelude::*;
use vstd::string::StringExecFns;
use vstd::slice::slice_to_vec;
use crate::frame::{DecodeError, Frame, FrameView};
use crate::tunnel::{spec_ws_base, ws_base};

verus! {

/// How the TCP client is configured.
pub struct TcpClientConfig {
    pub endpoint: String,
    pub slug: String,
    pub token: String,
    pub local_addr: String,
}

/// `{ws_base}/__rsrok_tcp__/{slug}`: where the TCP client connects.
pub fn tcp_ws_url(endpoint: &str, slug: &str) -> (r: String)
    ensures
        r@ == spec_ws_base(endpoint@) + "/__rsrok_tcp__/"@ + slug@,
{
    let mut s = ws_base(endpoint);
    s.append("/__rsrok_tcp__/");
    s.append(slug);
    s
}

/// What a message received while waiting for TCP_OPEN_ACK means.
#[derive(Debug)]
pub enum AckStep {
    /// The relay opened our stream.
    Acked,
    /// The relay refused the connection.
    Rejected { code: u16, message: String },
    /// The relay closed the stream.
    Closed { reason: String },
    /// Anything else: keep waiting.
    Continue,
}

pub fn ack_step(decoded: Result<(Frame, usize), DecodeError>, stream_id: u32) -> (r: AckStep)
    ensures
        match decoded {
            Ok((f, _)) => match f@ {
                FrameView::TcpOpenAck { stream_id: sid, .. } => if sid == stream_id {
                    r is Acked
                } else {
                    r is Continue
                },
                FrameView::Error { code, message, .. } => r matches AckStep::Rejected { code: c, message: m } && c == code && m@ == message,
                FrameView::TcpClose { reason, .. } => r matches AckStep::Closed { reason: s } && s@ == reason,
                _ => r is Continue,
            },
            Err(_) => r is Continue,
        },
{
    match decoded {
        Ok((Frame::TcpOpenAck { stream_id: sid, .. }, _)) => {
            if sid == stream_id {
                AckStep::Acked
            } else {
                AckStep::Continue
            }
        },
        Ok((Frame::Error { code, message, .. }, _)) => AckStep::Rejected { code, message },
        Ok((Frame::TcpClose { reason, .. }, _)) => AckStep::Closed { reason },
        _ => AckStep::Continue,
    }
}

/// The frame that a read from the local TCP connection turns into, and
/// whether the relay goes on: bytes become TCP_DATA; end of stream (no bytes)
/// becomes a TCP_CLOSE with an empty reason; a failed read becomes a TCP_CLOSE
/// whose reason is `local read error: ` and the failure's text.
pub fn frame_for_local_read(request_id: u32, stream_id: u32, read: Result<&[u8], &str>) -> (r: (Frame, bool))
    ensures
        match read {
            Ok(data) => if data@.len() > 0 {
                r.0@ == (FrameView::TcpData { request_id, stream_id, data: data@ }) && r.1
            } else {
                r.0@ == (FrameView::TcpClose { request_id, stream_id, reason: Seq::empty() }) && !r.1
            },
            Err(e) => r.0@ == (FrameView::TcpClose { request_id, stream_id, reason: "local read error: "@ + e@ })
                && !r.1,
        },
{
    match read {
        Ok(data) => {
            if data.len() > 0 {
                (Frame::TcpData { request_id, stream_id, data: slice_to_vec(data) }, true)
            } else {
                (Frame::TcpClose { request_id, stream_id, reason: String::new() }, false)
            }
        },
        Err(e) => {
            let mut reason = "local read error: ".to_owned();
            reason.append(e);
            (Frame::TcpClose { request_id, stream_id, reason }, false)
        },
    }
}

/// What a message from the relay means for an open TCP stream.
#[derive(Debug)]
pub enum RelayStep {
    /// Write these bytes to the local connection.
    Write(Vec<u8>),
    /// The relay closed the stream.
    RemoteClosed(String),
    /// The relay reported an error; the stream ends.
    ServerError { code: u16, message: String },
    /// Anything else: nothing to do.
    Ignore,
}

pub fn relay_step(decoded: Result<(Frame, usize), DecodeError>) -> (r: RelayStep)
    ensures
        match decoded {
            Ok((f, _)) => match f@ {
                FrameView::TcpData { data, .. } => r matches RelayStep::Write(d) && d@ == data,
                FrameView::TcpClose { reason, .. } => r matches RelayStep::RemoteClosed(s) && s@ == reason,
                FrameView::Error { code, message, .. } => r matches RelayStep::ServerError { code: c, message: m } && c == code && m@ == message,
                _ => r is Ignore,
            },
            Err(_) => r is Ignore,
        },
{
    match decoded {
        Ok((Frame::TcpData { data, .. }, _)) => RelayStep::Write(data),
        Ok((Frame::TcpClose { reason, .. }, _)) => RelayStep::RemoteClosed(reason),
        Ok((Frame::Error { code, message, .. }, _)) => RelayStep::ServerError { code, message },
        _ => RelayStep::Ignore,
    }
}

} // verus!
