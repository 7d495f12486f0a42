//! Compact binary messages exchanged over the DNS tunnel, and their framing:
//! every message travels as a big-endian `u32` length followed by its payload.

use vstd::prelude::*;

verus! {

/// Client -> server request.
#[derive(Debug, Clone)]
#[allow(inconsistent_fields)]
pub enum Request {
    Browse { url: String },
    Search { query: String },
    ImageFull { hash: Vec<u8>, quality: u8 },
    IgLogin { username: String, enc_password: Vec<u8> },
    IgChallenge { code: String },
    IgFeed { cursor: Option<String> },
    IgExplore { cursor: Option<String> },
    IgUserProfile { username: String },
    IgPost { shortcode: String },
    IgStories { user_id: u64 },
    IgLike { media_id: String },
    IgUnlike { media_id: String },
    IgComment { media_id: String, text: String },
    IgDmList,
    IgDmThread { thread_id: String, cursor: Option<String> },
    IgDmSend { thread_id: String, text: String },
    IgSearch { query: String },
    TgAuth { phone: String },
    TgAuthCode { code: String },
    TgAuthPassword { password: String },
    TgGetChats { offset: i32, limit: u8 },
    TgGetMessages { chat_id: i64, from_message_id: i64, limit: u8 },
    TgSendMessage { chat_id: i64, text: String },
    TgGetChat { chat_id: i64 },
    TgSearchChats { query: String },
    TgMarkRead { chat_id: i64, message_id: i64 },
    WaLinkRequest,
    WaGetChats,
    WaGetMessages { chat_id: String, count: u8 },
    WaSendMessage { chat_id: String, text: String },
    RawConnect { host: String, port: u16 },
    Ping { ts: u64 },
}

/// Server -> client response.
#[derive(Debug, Clone)]
#[allow(inconsistent_fields)]
pub enum Response {
    /// A rendered page; `html` is gzip-compressed.
    Page { url: String, title: String, html: Vec<u8>, original_size: u32 },
    SearchResults { query: String, html: Vec<u8> },
    /// `data` holds WebP bytes.
    ImageData { hash: Vec<u8>, data: Vec<u8> },
    IgLoginOk { username: String },
    IgChallengeRequired { challenge_type: String },
    IgFeedResult { posts: Vec<IgPost>, next_cursor: Option<String> },
    IgExploreResult { posts: Vec<IgPost>, next_cursor: Option<String> },
    IgUserResult { user: IgUser },
    IgPostResult { post: IgPostFull },
    IgStoriesResult { stories: Vec<IgStory> },
    IgDmListResult { threads: Vec<IgDmThread> },
    IgDmThreadResult { messages: Vec<IgDmMessage>, cursor: Option<String> },
    IgSearchResult { users: Vec<IgUserBrief>, tags: Vec<String> },
    TgAuthOk { user_name: String },
    TgAuthCodeNeeded,
    TgAuthPasswordNeeded { hint: String },
    TgChatsResult { chats: Vec<TgChat> },
    TgMessagesResult { messages: Vec<TgMessage> },
    TgChatResult { chat: TgChatFull },
    /// Pushed by the server.
    TgNewMessage { message: TgMessage },
    WaQrCode { png_data: Vec<u8> },
    WaLinked { phone: String },
    WaChatsResult { chats: Vec<WaChat> },
    WaMessagesResult { messages: Vec<WaMessage> },
    /// Pushed by the server.
    WaNewMessage { message: WaMessage },
    RawConnected,
    RawData { data: Vec<u8> },
    Pong { client_ts: u64, server_ts: u64 },
    Error { code: u16, message: String },
    /// A bare acknowledgement (`Ok` on the wire).
    Okay,
}

#[derive(Debug, Clone)]
pub struct IgPost {
    pub shortcode: String,
    pub username: String,
    /// Truncated to 200 characters in feeds.
    pub caption: String,
    /// A WebP thumbnail of about 3 KB.
    pub thumbnail: Vec<u8>,
    pub like_count: u32,
    pub comment_count: u32,
    pub is_video: bool,
    pub timestamp: u64,
}

#[derive(Debug, Clone)]
pub struct IgPostFull {
    pub shortcode: String,
    pub username: String,
    pub caption: String,
    /// A WebP image of about 30 KB (800 px wide).
    pub image: Vec<u8>,
    pub like_count: u32,
    pub comment_count: u32,
    pub comments: Vec<IgComment>,
    pub is_video: bool,
    pub video_thumbnail: Option<Vec<u8>>,
    pub timestamp: u64,
}

#[derive(Debug, Clone)]
pub struct IgComment {
    pub username: String,
    pub text: String,
    pub timestamp: u64,
}

#[derive(Debug, Clone)]
pub struct IgUser {
    pub username: String,
    pub full_name: String,
    pub bio: String,
    /// A WebP avatar of about 5 KB.
    pub avatar: Vec<u8>,
    pub follower_count: u32,
    pub following_count: u32,
    pub post_count: u32,
    /// The latest twelve posts.
    pub posts: Vec<IgPost>,
    pub is_private: bool,
}

#[derive(Debug, Clone)]
pub struct IgUserBrief {
    pub username: String,
    pub full_name: String,
    pub avatar: Vec<u8>,
}

#[derive(Debug, Clone)]
pub struct IgStory {
    pub user_id: u64,
    pub username: String,
    pub image: Vec<u8>,
    pub timestamp: u64,
    pub is_video: bool,
}

#[derive(Debug, Clone)]
pub struct IgDmThread {
    pub thread_id: String,
    pub participants: Vec<String>,
    pub last_message: String,
    pub timestamp: u64,
    pub unread_count: u32,
}

#[derive(Debug, Clone)]
pub struct IgDmMessage {
    pub sender: String,
    pub text: Option<String>,
    pub image: Option<Vec<u8>>,
    pub timestamp: u64,
}

#[derive(Debug, Clone)]
pub struct TgChat {
    pub id: i64,
    pub title: String,
    pub chat_type: TgChatType,
    pub last_message: Option<TgMessagePreview>,
    pub unread_count: u32,
    /// A tiny thumbnail.
    pub avatar: Option<Vec<u8>>,
}

#[derive(Debug, Clone, Copy, PartialEq, Eq)]
pub enum TgChatType {
    Private,
    Group,
    Supergroup,
    Channel,
}

#[derive(Debug, Clone)]
pub struct TgMessagePreview {
    pub sender: String,
    /// Truncated.
    pub text: String,
    pub timestamp: u64,
}

#[derive(Debug, Clone)]
pub struct TgMessage {
    pub id: i64,
    pub chat_id: i64,
    pub sender: String,
    pub text: Option<String>,
    /// A WebP thumbnail.
    pub photo: Option<Vec<u8>>,
    pub timestamp: u64,
    pub is_outgoing: bool,
}

#[derive(Debug, Clone)]
pub struct TgChatFull {
    pub id: i64,
    pub title: String,
    pub description: Option<String>,
    pub member_count: Option<u32>,
    pub avatar: Option<Vec<u8>>,
}

#[derive(Debug, Clone)]
pub struct WaChat {
    pub id: String,
    pub name: String,
    pub last_message: String,
    pub timestamp: u64,
    pub unread_count: u32,
    pub is_group: bool,
}

#[derive(Debug, Clone)]
pub struct WaMessage {
    pub id: String,
    pub chat_id: String,
    pub sender: String,
    pub text: Option<String>,
    pub image: Option<Vec<u8>>,
    pub timestamp: u64,
    pub is_outgoing: bool,
}

/// `r` is the error response with this code and message.
pub open spec fn is_error_response(r: Response, code: u16, message: Seq<char>) -> bool {
    r matches Response::Error { code: c, message: m } && c == code && m@ == message
}

/// The error response with this code and message.
pub fn error_response(code: u16, message: &str) -> (r: Response)
    ensures
        is_error_response(r, code, message@),
{
    Response::Error { code, message: message.to_owned() }
}

// ---------------------------------------------------------------------------
// Wire framing: [u32 big-endian length][payload]

/// The four big-endian bytes of `n`.
pub open spec fn be_bytes(n: u32) -> Seq<u8> {
    seq![(n >> 24u32) as u8, (n >> 16u32) as u8, (n >> 8u32) as u8, n as u8]
}

/// The number that four big-endian bytes stand for.
pub open spec fn be_value(b: Seq<u8>) -> nat
    recommends
        b.len() >= 4,
{
    b[0] as nat * 0x100_0000 + b[1] as nat * 0x1_0000 + b[2] as nat * 0x100 + b[3] as nat
}

/// The frame that carries `payload`: its length, truncated to 32 bits, then the payload.
pub open spec fn frame_of(payload: Seq<u8>) -> Seq<u8> {
    be_bytes(payload.len() as u32) + payload
}

/// Law: a frame starts with its payload's length as a big-endian 32-bit number, most
/// significant byte first, then holds the payload unchanged.
pub proof fn lemma_frame_is_big_endian_length_then_payload(payload: Seq<u8>)
    requires
        payload.len() <= 0xffff_ffff,
    ensures
        frame_of(payload).len() == payload.len() + 4,
        frame_of(payload)[0] as int * 16777216 + frame_of(payload)[1] as int * 65536
            + frame_of(payload)[2] as int * 256 + frame_of(payload)[3] as int == payload.len(),
        frame_of(payload).skip(4) == payload,
{
    lemma_be_roundtrip(payload.len() as u32);
    assert(frame_of(payload).skip(4) =~= payload);
}

/// What reading a frame at the start of `data` gives: `None` while the header or the
/// payload it announces is incomplete, else the bytes consumed and the payload.
pub open spec fn read_frame_of(data: Seq<u8>) -> Option<(nat, Seq<u8>)> {
    if data.len() < 4 {
        None
    } else if data.len() < 4 + be_value(data) {
        None
    } else {
        Some(((4 + be_value(data)) as nat, data.subrange(4, 4 + be_value(data) as int)))
    }
}

/// The big-endian bytes of a `u32` read back give the number.
pub proof fn lemma_be_roundtrip(n: u32)
    ensures
        be_value(be_bytes(n)) == n,
{
    let b0 = (n >> 24u32) as u8;
    let b1 = (n >> 16u32) as u8;
    let b2 = (n >> 8u32) as u8;
    let b3 = n as u8;
    assert(b0 as nat * 0x100_0000 + b1 as nat * 0x1_0000 + b2 as nat * 0x100 + b3 as nat == n)
        by (bit_vector)
        requires
            b0 == (n >> 24u32) as u8,
            b1 == (n >> 16u32) as u8,
            b2 == (n >> 8u32) as u8,
            b3 == n as u8,
    ;
}

/// Wraps a payload in a frame: the payload's length as a big-endian `u32`, then the payload.
/// As in the wire format, a length above `u32::MAX` is truncated to 32 bits.
pub fn frame_message(cbor: &[u8]) -> (framed: Vec<u8>)
    requires
        cbor@.len() + 4 <= usize::MAX,
    ensures
        framed@ == frame_of(cbor@),
{
    #[verifier::truncate]
    let n: u32 = cbor.len() as u32;
    let mut framed: Vec<u8> = Vec::with_capacity(4 + cbor.len());
    framed.push((n >> 24u32) as u8);
    framed.push((n >> 16u32) as u8);
    framed.push((n >> 8u32) as u8);
    framed.push(n as u8);
    let mut i: usize = 0;
    while i < cbor.len()
        invariant
            i <= cbor@.len(),
            framed@ == be_bytes(n) + cbor@.subrange(0, i as int),
        decreases cbor@.len() - i,
    {
        framed.push(cbor[i]);
        i = i + 1;
        assert(cbor@.subrange(0, i as int) == cbor@.subrange(0, i - 1) + seq![cbor@[i - 1]]);
    }
    assert(cbor@.subrange(0, cbor@.len() as int) == cbor@);
    framed
}

/// Reads one frame at the start of `data`: `None` while fewer than four header bytes
/// or fewer payload bytes than the header announces are there; otherwise the number of
/// bytes the frame takes and its payload.
pub fn read_frame(data: &[u8]) -> (res: Option<(usize, &[u8])>)
    ensures
        match res {
            None => read_frame_of(data@) is None,
            Some((consumed, payload)) => read_frame_of(data@) == Some(
                (consumed as nat, payload@),
            ),
        },
{
    if data.len() < 4 {
        return None;
    }
    let len: u32 = ((data[0] as u32) << 24u32) | ((data[1] as u32) << 16u32) | ((data[2] as u32)
        << 8u32) | (data[3] as u32);
    let b0 = data[0];
    let b1 = data[1];
    let b2 = data[2];
    let b3 = data[3];
    assert(len == b0 as nat * 0x100_0000 + b1 as nat * 0x1_0000 + b2 as nat * 0x100 + b3 as nat)
        by (bit_vector)
        requires
            len == ((b0 as u32) << 24u32) | ((b1 as u32) << 16u32) | ((b2 as u32) << 8u32) | (
            b3 as u32),
    ;
    if ((data.len() - 4) as u64) < (len as u64) {
        return None;
    }
    let end: usize = 4 + len as usize;
    Some((end, &data[4..end]))
}

/// Law: a frame read back gives the payload it was made from, and consumes the whole frame.
pub proof fn lemma_frame_roundtrip(payload: Seq<u8>)
    requires
        payload.len() <= u32::MAX,
    ensures
        read_frame_of(frame_of(payload)) == Some(
            ((payload.len() + 4) as nat, payload),
        ),
{
    lemma_frame_prefix(payload, Seq::empty());
    assert(frame_of(payload) + Seq::<u8>::empty() == frame_of(payload));
}

/// Law: a frame at the start of a stream is read back whatever bytes follow it, so
/// consecutive frames can be read one after another.
pub proof fn lemma_frame_prefix(payload: Seq<u8>, rest: Seq<u8>)
    requires
        payload.len() <= u32::MAX,
    ensures
        read_frame_of(frame_of(payload) + rest) == Some(
            ((payload.len() + 4) as nat, payload),
        ),
{
    let n = payload.len() as u32;
    lemma_be_roundtrip(n);
    let data = frame_of(payload) + rest;
    assert(data.subrange(0, 4) == be_bytes(n));
    assert(be_value(data) == be_value(be_bytes(n)));
    assert(data.subrange(4, 4 + payload.len() as int) == payload);
}


/// Law: a frame that is read lies within the data: it consumes the header and the
/// announced payload, and the payload is the bytes after the header.
pub proof fn lemma_read_frame_within(data: Seq<u8>)
    ensures
        read_frame_of(data) matches Some((n, p)) ==> 4 <= n <= data.len() && p == data.subrange(
            4,
            n as int,
        ) && p.len() + 4 == n,
{
}

} // verus!
