use red_browser::protocol::{frame_message, read_frame, Request, Response};
use red_browser::router::{
    on_length_prefix, on_payload, route_request, ConnAction, Route, MAX_REQUEST_LEN,
};
use red_browser::{instagram, telegram, whatsapp};

#[test]
fn test_frame_roundtrip() {
    let data = b"hello world";
    let framed = frame_message(data);
    let (consumed, payload) = read_frame(&framed).unwrap();
    assert_eq!(consumed, framed.len());
    assert_eq!(payload, data);
}

#[test]
fn frame_header_is_big_endian_length() {
    let framed = frame_message(&[7u8; 300]);
    assert_eq!(&framed[..4], &[0, 0, 1, 44]);
    assert_eq!(framed.len(), 304);
    assert_eq!(frame_message(&[]), vec![0, 0, 0, 0]);
}

#[test]
fn read_frame_waits_for_complete_frames() {
    assert!(read_frame(&[]).is_none());
    assert!(read_frame(&[0, 0, 0]).is_none());
    assert!(read_frame(&[0, 0, 0, 5, 1, 2, 3]).is_none());
    let (consumed, payload) = read_frame(&[0, 0, 0, 0]).unwrap();
    assert_eq!(consumed, 4);
    assert!(payload.is_empty());
}

#[test]
fn consecutive_frames_are_read_one_after_another() {
    let mut stream = frame_message(b"first");
    stream.extend_from_slice(&frame_message(b"second"));
    let (n1, p1) = read_frame(&stream).unwrap();
    assert_eq!(p1, b"first");
    let (n2, p2) = read_frame(&stream[n1..]).unwrap();
    assert_eq!(p2, b"second");
    assert_eq!(n1 + n2, stream.len());
}

fn error_of(r: &Response) -> (u16, String) {
    match r {
        Response::Error { code, message } => (*code, message.clone()),
        other => panic!("not an error: {:?}", other),
    }
}

#[test]
fn stubs_answer_coming_soon() {
    assert_eq!(error_of(&instagram::handle_login()), (501, "Instagram integration coming soon".to_string()));
    assert_eq!(error_of(&instagram::handle_post("abc")).0, 501);
    assert_eq!(error_of(&telegram::handle_chats_stub()), (501, "Telegram integration coming soon".to_string()));
    assert_eq!(error_of(&whatsapp::handle_stub()), (501, "WhatsApp integration coming soon".to_string()));
}

#[test]
fn requests_are_routed() {
    match route_request(Request::Browse { url: "https://example.com".into() }, 0) {
        Route::Browse { url } => assert_eq!(url, "https://example.com"),
        other => panic!("wrong route: {:?}", other),
    }
    match route_request(Request::Search { query: "rust".into() }, 0) {
        Route::Search { query } => assert_eq!(query, "rust"),
        other => panic!("wrong route: {:?}", other),
    }
    match route_request(Request::Ping { ts: 42 }, 1000) {
        Route::Reply(Response::Pong { client_ts, server_ts }) => {
            assert_eq!(client_ts, 42);
            assert_eq!(server_ts, 1000);
        }
        other => panic!("wrong route: {:?}", other),
    }
    match route_request(Request::ImageFull { hash: vec![1, 2], quality: 50 }, 0) {
        Route::Reply(r) => assert_eq!(error_of(&r), (404, "Image not in cache".to_string())),
        other => panic!("wrong route: {:?}", other),
    }
    match route_request(Request::TgGetChats { offset: 0, limit: 10 }, 0) {
        Route::Reply(r) => assert_eq!(error_of(&r).1, "Telegram integration coming soon"),
        other => panic!("wrong route: {:?}", other),
    }
    match route_request(Request::RawConnect { host: "h".into(), port: 1 }, 0) {
        Route::Reply(r) => assert_eq!(
            error_of(&r),
            (501, "Raw connect not available in standalone mode".to_string())
        ),
        other => panic!("wrong route: {:?}", other),
    }
    match route_request(Request::IgDmList, 0) {
        Route::Reply(r) => assert_eq!(error_of(&r).1, "Instagram integration coming soon"),
        other => panic!("wrong route: {:?}", other),
    }
}

#[test]
fn oversized_requests_are_refused() {
    match on_length_prefix([0, 4, 0, 1]) {
        ConnAction::Refuse { reply, skip } => {
            assert_eq!(error_of(&reply), (413, "Request too large".to_string()));
            assert_eq!(skip, 262145);
        }
        other => panic!("wrong action: {:?}", other),
    }
    match on_length_prefix(MAX_REQUEST_LEN.to_be_bytes()) {
        ConnAction::ReadPayload { len } => assert_eq!(len, 262144),
        other => panic!("wrong action: {:?}", other),
    }
    match on_length_prefix([0, 0, 1, 0]) {
        ConnAction::ReadPayload { len } => assert_eq!(len, 256),
        other => panic!("wrong action: {:?}", other),
    }
}

#[test]
fn undecodable_requests_get_400() {
    match on_payload(Err("bad cbor".to_string()), 0) {
        Route::Reply(r) => assert_eq!(error_of(&r), (400, "Decode error: bad cbor".to_string())),
        other => panic!("wrong route: {:?}", other),
    }
    match on_payload(Ok(Request::WaGetChats), 0) {
        Route::Reply(r) => assert_eq!(error_of(&r).1, "WhatsApp integration coming soon"),
        other => panic!("wrong route: {:?}", other),
    }
}

#[test]
fn allowed_frames_pass_the_length_check() {
    let framed = frame_message(&[9u8; 300]);
    let header = [framed[0], framed[1], framed[2], framed[3]];
    match on_length_prefix(header) {
        ConnAction::ReadPayload { len } => assert_eq!(len, 300),
        other => panic!("wrong action: {:?}", other),
    }
}
