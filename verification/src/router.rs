//! Dispatching requests, and the decisions of a connection: each request arrives as a
//! length-prefixed frame, is decoded, routed and answered.

use vstd::prelude::*;
use crate::protocol::{Request, Response, be_value, error_response, is_error_response};
use crate::text::push_str;
use crate::{instagram, telegram, whatsapp};

verus! {

/// Server settings.
#[derive(Debug, Clone, Copy)]
pub struct ServerConfig {
    /// Image quality (1-100).
    pub image_quality: u8,
    /// Image maximum width in pixels.
    pub image_max_width: u32,
    /// Maximum number of concurrent page renders.
    pub max_renders: usize,
}

/// Where a request goes.
#[derive(Debug)]
pub enum Route {
    /// Render the page at this URL.
    Browse { url: String },
    /// Search for this query.
    Search { query: String },
    /// Answer at once with this response.
    Reply(Response),
}

/// The answer to an image request: the full-size image cache is not kept.
pub open spec fn image_not_cached(r: Response) -> bool {
    is_error_response(r, 404, "Image not in cache"@)
}

/// The answer to a raw connection request in standalone mode.
pub open spec fn raw_connect_refused(r: Response) -> bool {
    is_error_response(r, 501, "Raw connect not available in standalone mode"@)
}

/// How each request is routed: browsing and searching go to their engines; image
/// requests get "not in cache"; the Instagram, Telegram and WhatsApp requests get their
/// "coming soon" answers; a ping gets a pong with the client's timestamp and the server
/// time; a raw connection is refused.
pub open spec fn routed(req: Request, now_ms: u64, r: Route) -> bool {
    match req {
        Request::Browse { url } => r matches Route::Browse { url: u } && u@ == url@,
        Request::Search { query } => r matches Route::Search { query: q } && q@ == query@,
        Request::ImageFull { .. } => r matches Route::Reply(resp) && image_not_cached(resp),
        Request::IgLogin { .. } | Request::IgFeed { .. } | Request::IgPost { .. }
        | Request::IgSearch { .. } | Request::IgChallenge { .. } | Request::IgExplore { .. }
        | Request::IgUserProfile { .. } | Request::IgStories { .. } | Request::IgLike { .. }
        | Request::IgUnlike { .. } | Request::IgComment { .. } | Request::IgDmList
        | Request::IgDmThread { .. } | Request::IgDmSend { .. } => r matches Route::Reply(resp)
            && instagram::coming_soon(resp),
        Request::TgAuth { .. } | Request::TgGetChats { .. } | Request::TgSendMessage { .. }
        | Request::TgAuthCode { .. } | Request::TgAuthPassword { .. }
        | Request::TgGetMessages { .. } | Request::TgGetChat { .. }
        | Request::TgSearchChats { .. } | Request::TgMarkRead { .. } => r matches Route::Reply(
            resp,
        ) && telegram::coming_soon(resp),
        Request::WaLinkRequest | Request::WaGetChats | Request::WaGetMessages { .. }
        | Request::WaSendMessage { .. } => r matches Route::Reply(resp) && whatsapp::coming_soon(
            resp,
        ),
        Request::Ping { ts } => r matches Route::Reply(Response::Pong { client_ts, server_ts })
            && client_ts == ts && server_ts == now_ms,
        Request::RawConnect { .. } => r matches Route::Reply(resp) && raw_connect_refused(resp),
    }
}

/// The answer to a request for a full-size image.
pub fn cached_image_response(_hash: &[u8], _quality: u8) -> (r: Response)
    ensures
        image_not_cached(r),
{
    error_response(404, "Image not in cache")
}

/// Routes a request; `now_ms` is the server time in milliseconds since the Unix epoch,
/// used for pongs.
pub fn route_request(req: Request, now_ms: u64) -> (r: Route)
    ensures
        routed(req, now_ms, r),
{
    match req {
        Request::Browse { url } => Route::Browse { url },
        Request::Search { query } => Route::Search { query },
        Request::ImageFull { hash, quality } => Route::Reply(
            cached_image_response(hash.as_slice(), quality),
        ),
        Request::IgLogin { .. } => Route::Reply(instagram::handle_login()),
        Request::IgFeed { .. } => Route::Reply(instagram::handle_feed()),
        Request::IgPost { shortcode } => Route::Reply(instagram::handle_post(shortcode.as_str())),
        Request::IgSearch { query } => Route::Reply(instagram::handle_search(query.as_str())),
        Request::IgChallenge { .. } | Request::IgExplore { .. } | Request::IgUserProfile { .. }
        | Request::IgStories { .. } | Request::IgLike { .. } | Request::IgUnlike { .. }
        | Request::IgComment { .. } | Request::IgDmList | Request::IgDmThread { .. }
        | Request::IgDmSend { .. } => Route::Reply(instagram::handle_stub()),
        Request::TgAuth { .. } => Route::Reply(telegram::handle_auth_stub()),
        Request::TgGetChats { .. } => Route::Reply(telegram::handle_chats_stub()),
        Request::TgSendMessage { .. } => Route::Reply(telegram::handle_send_stub()),
        Request::TgAuthCode { .. } | Request::TgAuthPassword { .. }
        | Request::TgGetMessages { .. } | Request::TgGetChat { .. }
        | Request::TgSearchChats { .. } | Request::TgMarkRead { .. } => Route::Reply(
            telegram::handle_stub(),
        ),
        Request::WaLinkRequest => Route::Reply(whatsapp::handle_link_stub()),
        Request::WaGetChats => Route::Reply(whatsapp::handle_chats_stub()),
        Request::WaGetMessages { .. } | Request::WaSendMessage { .. } => Route::Reply(
            whatsapp::handle_stub(),
        ),
        Request::Ping { ts } => Route::Reply(Response::Pong { client_ts: ts, server_ts: now_ms }),
        Request::RawConnect { .. } => Route::Reply(
            error_response(501, "Raw connect not available in standalone mode"),
        ),
    }
}

// ---------------------------------------------------------------------------
// A connection

/// The size of a connection's read buffer: the largest request payload accepted.
pub const MAX_REQUEST_LEN: u32 = 262144;

/// What a connection does after reading a length prefix.
#[derive(Debug)]
pub enum ConnAction {
    /// Read a payload of this many bytes.
    ReadPayload { len: usize },
    /// Skip the payload's `skip` bytes unread, then answer with `reply`.
    Refuse { reply: Response, skip: usize },
}

/// The answer to a request larger than the read buffer.
pub open spec fn too_large(r: Response) -> bool {
    is_error_response(r, 413, "Request too large"@)
}

/// After a length prefix: a payload above the read buffer's size is skipped, all of
/// its announced bytes, and refused with 413; any other is read.
pub fn on_length_prefix(header: [u8; 4]) -> (a: ConnAction)
    ensures
        be_value(header@) > 262144 ==> (a matches ConnAction::Refuse { reply, skip } && too_large(
            reply,
        ) && skip == be_value(header@)),
        be_value(header@) <= 262144 ==> (a matches ConnAction::ReadPayload { len } && len
            == be_value(header@)),
{
    let b0 = header[0];
    let b1 = header[1];
    let b2 = header[2];
    let b3 = header[3];
    let len: u32 = ((b0 as u32) << 24u32) | ((b1 as u32) << 16u32) | ((b2 as u32) << 8u32) | (
    b3 as u32);
    assert(len == b0 as nat * 0x100_0000 + b1 as nat * 0x1_0000 + b2 as nat * 0x100 + b3 as nat)
        by (bit_vector)
        requires
            len == ((b0 as u32) << 24u32) | ((b1 as u32) << 16u32) | ((b2 as u32) << 8u32) | (
            b3 as u32),
    ;
    if len > MAX_REQUEST_LEN {
        ConnAction::Refuse { reply: error_response(413, "Request too large"), skip: len as usize }
    } else {
        ConnAction::ReadPayload { len: len as usize }
    }
}

/// The answer to a payload that does not decode.
pub open spec fn decode_failed(r: Response, err: Seq<char>) -> bool {
    is_error_response(r, 400, "Decode error: "@ + err)
}

/// After a payload was decoded (or failed to): a decoding error is answered with 400,
/// a request is routed.
pub fn on_payload(decoded: Result<Request, String>, now_ms: u64) -> (r: Route)
    ensures
        match decoded {
            Ok(req) => routed(req, now_ms, r),
            Err(e) => r matches Route::Reply(resp) && decode_failed(resp, e@),
        },
{
    match decoded {
        Ok(req) => route_request(req, now_ms),
        Err(e) => {
            let mut message = String::new();
            push_str(&mut message, "Decode error: ");
            push_str(&mut message, e.as_str());
            Route::Reply(Response::Error { code: 400, message })
        },
    }
}


/// Law: the length prefix of a frame carrying at most `MAX_REQUEST_LEN` bytes is
/// accepted, and announces exactly the payload's length.
pub proof fn lemma_small_frames_are_read(payload: Seq<u8>)
    requires
        payload.len() <= MAX_REQUEST_LEN,
    ensures
        be_value(crate::protocol::frame_of(payload).take(4)) == payload.len(),
        be_value(crate::protocol::frame_of(payload).take(4)) <= MAX_REQUEST_LEN,
{
    crate::protocol::lemma_be_roundtrip(payload.len() as u32);
    assert(crate::protocol::frame_of(payload).take(4) == crate::protocol::be_bytes(
        payload.len() as u32,
    ));
}

} // verus!
