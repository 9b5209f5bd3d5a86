use wenmeng::ws::{first_protocol_of, HandshakePoll, WsAnswer, WsHandshaking, WsStateHandshake};
use wenmeng::{CloseData, ProtError, WsHandshake, WsState};

#[test]
fn accept_value_of_the_rfc_example() {
    let accept = WsHandshake::build_accept(b"dGhlIHNhbXBsZSBub25jZQ==").unwrap();
    assert_eq!(accept, b"s3pPLMBiTxaQ9kYGzzhZRbK+xOo=".to_vec());
}

#[test]
fn keys_that_are_not_sixteen_bytes_are_refused() {
    assert!(matches!(
        WsHandshake::build_accept(b"c2hvcnQ="),
        Err(ProtError::Extension("Sec-WebSocket-Key must be 16 bytes"))
    ));
    assert!(matches!(WsHandshake::build_accept(b"***"), Err(ProtError::Extension("Invalid Sec-WebSocket-Accept"))));
}

#[test]
fn opening_requests_are_answered() {
    let key: &[u8] = b"dGhlIHNhbXBsZSBub25jZQ==";
    match WsHandshake::build_request(Some(key), Some(b"superchat, chat"), Some(b"13")).unwrap() {
        WsAnswer::Accept { accept, protocol } => {
            assert_eq!(accept, b"s3pPLMBiTxaQ9kYGzzhZRbK+xOo=".to_vec());
            assert_eq!(protocol, b"superchat".to_vec());
        },
        WsAnswer::Reject => panic!("expected an accept"),
    }
    match WsHandshake::build_request(Some(key), None, Some(b"13")).unwrap() {
        WsAnswer::Accept { protocol, .. } => assert_eq!(protocol, b"chat".to_vec()),
        WsAnswer::Reject => panic!("expected an accept"),
    }
    assert!(matches!(WsHandshake::build_request(Some(key), None, Some(b"8")).unwrap(), WsAnswer::Reject));
    assert!(matches!(WsHandshake::build_request(None, None, Some(b"13")).unwrap(), WsAnswer::Reject));
}

#[test]
fn first_protocol_is_the_first_token() {
    assert_eq!(first_protocol_of(b"a,b"), b"a".to_vec());
    assert_eq!(first_protocol_of(b"chat"), b"chat".to_vec());
}

#[test]
fn closing_keeps_the_first_close_data() {
    let mut s = WsState::Open;
    s.set_closing(CloseData { status_code: 1001, reason: "going away".to_string() });
    s.set_closing(CloseData { status_code: 1002, reason: String::new() });
    s.set_closed(Some(CloseData { status_code: 1003, reason: String::new() }));
    match &s {
        WsState::Closed(d) => {
            assert_eq!(d.status_code, 1001);
            assert_eq!(d.reason, "going away");
        },
        _ => panic!("expected closed"),
    }
    s.set_closed(None);
    assert!(matches!(&s, WsState::Closed(d) if d.status_code == 1001));
}

#[test]
fn closing_an_open_connection_without_data_is_normal() {
    let mut s = WsState::Open;
    s.set_closed(None);
    assert!(matches!(&s, WsState::Closed(d) if d.status_code == 1000 && d.reason.is_empty()));
    let mut t = WsState::Open;
    assert!(t.receiver_close(None).is_ok());
    assert!(matches!(&t, WsState::Closing(d) if d.status_code == 1000));
    assert_eq!(CloseData::normal(), CloseData { status_code: 1000, reason: String::new() });
}

#[test]
fn handshake_answer_is_written_before_ready() {
    let mut h = WsStateHandshake::new_server();
    assert!(!h.is_client);
    assert_eq!(h.poll_handle(), HandshakePoll::Pending);
    h.set_handshake_status(b"HTTP/1.1 101".to_vec(), false);
    assert_eq!(h.poll_handle(), HandshakePoll::Write);
    assert_eq!(h.remaining(), b"HTTP/1.1 101");
    h.advance(5);
    assert_eq!(h.remaining(), b"1.1 101");
    h.advance(7);
    assert!(matches!(h.state, WsHandshaking::Done));
    assert_eq!(h.poll_handle(), HandshakePoll::Ready);
    let mut c = WsStateHandshake::new_client();
    assert!(c.is_client);
    c.set_handshake_status(Vec::new(), true);
    assert_eq!(c.poll_handle(), HandshakePoll::Ready);
}
