use wenmeng::client::{
    check_split, ClientAction, ClientEvent, ClientLoop, ClientOption, ClientProtocol,
};
use wenmeng::http1::{build_recv_stream, receive_body_len, ConnectionInfo, WritePlan};
use wenmeng::http2::{
    ConnAction,
    frame_action, handle_poll_result, idle_action, is_write_end, library_go_away, take_error, BodyAssembly,
    BodyCounter, ConnState, FrameAction, FrameType, IdleAction, InnerStream, LocalState, PingStep,
    PriorityWeights, SendRequest, StateSettings, StatePingPong, StreamBook, StreamIds, NO_ERROR,
    FrameInfo, IdleStep, RecvControl,
    PROTOCOL_ERROR,
};
use wenmeng::priority_queue::PriorityQueue;
use wenmeng::server::{
    ws_action, MessageKind, ServerAction, ServerEvent, ServerProtocol, ServerState, Upgrade, WsAction,
    WsEvent,
};
use wenmeng::client::HeaderPair;
use wenmeng::{Builder, FlowControl, Initiator, ProtError, SendStatus, SendStream};

#[test]
fn send_status_clears_each_side() {
    let mut s = SendStatus::new();
    s.is_send_body = true;
    s.is_send_header = true;
    s.is_send_finish = true;
    s.is_read_finish = true;
    s.is_read_header_end = true;
    s.left_read_body_len = 7;
    s.is_chunked = true;
    let mut w = s;
    w.clear_write();
    assert!(!w.is_send_body && !w.is_send_header && !w.is_send_finish);
    assert!(w.is_read_finish && w.left_read_body_len == 7);
    let mut r = s;
    r.clear_read();
    assert!(!r.is_read_finish && !r.is_read_header_end && r.left_read_body_len == 0 && !r.is_chunked);
    assert!(r.is_send_finish);
    let mut c = s;
    c.clear();
    assert_eq!(c, SendStatus::default());
}

#[test]
fn request_head_plans_the_body() {
    let mut c = ConnectionInfo::new();
    c.on_request_head(true, 12, true, false);
    assert!(c.is_keep_alive);
    assert_eq!(c.req_status.left_read_body_len, 12);
    assert!(c.req_status.is_read_header_end);
    let mut d = ConnectionInfo::new();
    d.on_request_head(false, 0, true, true);
    assert_eq!(d.req_status.left_read_body_len, usize::MAX);
    assert!(d.req_status.is_chunked);
    let mut e = ConnectionInfo::new();
    e.on_request_head(false, 0, false, false);
    assert_eq!(e.req_status.left_read_body_len, 0);
}

#[test]
fn response_head_without_length_reads_to_the_end() {
    let mut c = ConnectionInfo::new();
    c.on_response_head(-1, true, false);
    assert_eq!(c.res_status.left_read_body_len, usize::MAX);
    c.on_response_head(5, true, false);
    assert_eq!(c.res_status.left_read_body_len, 5);
}

#[test]
fn body_length_is_counted_down() {
    let mut s = SendStatus::new();
    s.left_read_body_len = 10;
    assert!(!receive_body_len(&mut s, 4));
    assert_eq!(s.left_read_body_len, 6);
    assert!(receive_body_len(&mut s, 6));
    assert_eq!(s.left_read_body_len, 0);
}

#[test]
fn message_head_goes_out_once() {
    let mut c = ConnectionInfo::new();
    let first = c.begin_write(true, true, false);
    assert_eq!(first, WritePlan { send_header: true, send_body: true });
    assert!(c.res_status.is_chunked);
    let second = c.begin_write(true, false, true);
    assert_eq!(second, WritePlan { send_header: false, send_body: false });
    assert!(c.end_write(true, true, true));
    assert_eq!(c.deal_req, 1);
    assert!(!c.res_status.is_send_header);
    assert!(!c.end_write(false, false, false));
}

#[test]
fn finished_exchange_starts_afresh() {
    let mut c = ConnectionInfo::new();
    c.req_status.is_send_finish = true;
    c.res_status.is_send_finish = true;
    c.req_status.left_read_body_len = 3;
    c.check_finish_status();
    assert_eq!(c.req_status, SendStatus::new());
    assert_eq!(c.res_status, SendStatus::new());
    c.queue_response();
    assert!(!c.res_status.is_send_finish);
}

#[test]
fn connection_closes_when_not_kept_alive() {
    let mut c = ConnectionInfo::new();
    c.req_status.is_send_finish = true;
    assert!(c.is_active_close());
    assert!(c.should_close(true));
    assert!(!c.should_close(false));
    c.is_keep_alive = true;
    assert!(!c.should_close(true));
    c.is_delay_close = true;
    assert!(c.should_close(false));
}

#[test]
fn received_body_starts_from_the_decoder() {
    let mut status = SendStatus::new();
    status.left_read_body_len = 3;
    let mut decoder = SendStream::empty();
    decoder.set_end_headers(true);
    decoder.put_slice(b"abcdef");
    let (mut body, needs_sender) = build_recv_stream(&status, &mut decoder).unwrap();
    assert!(needs_sender);
    assert!(body.is_end());
    assert_eq!(body.binary(), b"abc".to_vec());
    let empty_status = SendStatus::new();
    let (body, needs_sender) = build_recv_stream(&empty_status, &mut decoder).unwrap();
    assert!(!needs_sender);
    assert!(body.is_end());
}

#[test]
fn flow_control_is_available_while_window_is_open() {
    let f = FlowControl::new(65535);
    assert!(f.is_available());
    let g = FlowControl { window_size: 10, available: 0 };
    assert!(!g.is_available());
}

#[test]
fn stream_ids_go_up_by_two() {
    let mut ids = StreamIds { next: 1 };
    assert_eq!(ids.next_id(), 1);
    assert_eq!(ids.next_id(), 3);
    assert_eq!(ids.next, 5);
}

#[test]
fn depended_on_stream_gets_highest_weight() {
    let mut w = PriorityWeights::new();
    assert_eq!(w.weight(0), 255);
    assert_eq!(w.weight(3), 0);
    w.priority_recv(3, 0, 16);
    assert_eq!(w.weight(3), 16);
    w.priority_recv(5, 3, 7);
    assert_eq!(w.weight(5), 7);
    assert_eq!(w.weight(3), 255);
}

#[test]
fn frames_leave_lightest_stream_first_in_queue_order() {
    let mut q = PriorityQueue::new(65535);
    assert!(q.is_empty());
    q.weights.priority_recv(1, 0, 200);
    q.weights.priority_recv(3, 0, 10);
    let a = q.send_frames(1, &[false, true]);
    let b = q.send_frames(3, &[false, true]);
    assert_eq!(a, vec![0, 1]);
    assert_eq!(b, vec![2, 3]);
    assert_eq!(q.next_to_send(), Some(2));
    assert_eq!(q.next_to_send(), Some(3));
    assert_eq!(q.next_to_send(), Some(0));
    assert_eq!(q.next_to_send(), Some(1));
    assert_eq!(q.next_to_send(), None);
    assert!(q.is_empty());
}

#[test]
fn data_frames_wait_for_a_closed_window() {
    let mut q = PriorityQueue::new(0);
    let ids = q.send_frames(1, &[false, true, false]);
    assert_eq!(ids, vec![0, 1, 2]);
    assert_eq!(q.next_to_send(), Some(0));
    // the DATA frame is next and the window is closed
    assert_eq!(q.next_to_send(), None);
    assert!(!q.is_empty());
}

#[test]
fn settings_exchange_completes_once() {
    let mut st: StateSettings<u32> = StateSettings::new(7);
    let step = st.poll_handle(true);
    assert_eq!(step.send, Some(7));
    assert!(step.is_wait);
    assert!(matches!(st.state, LocalState::WaitAck(7)));
    let r = st.recv_setting(true, 0).unwrap();
    assert_eq!(r, (true, Some(7)));
    assert!(matches!(st.state, LocalState::Done));
    let again = st.recv_setting(true, 0);
    assert!(matches!(again, Err(ProtError::GoAway(_, PROTOCOL_ERROR, Initiator::Library))));
    assert!(st.send_settings(9).is_ok());
    assert!(matches!(st.send_settings(10), Err(ProtError::Extension(_))));
}

#[test]
fn peer_settings_wait_for_a_ready_connection() {
    let mut st: StateSettings<u32> = StateSettings::new(1);
    st.set_settings_done();
    assert_eq!(st.recv_setting(false, 42).unwrap(), (true, None));
    let blocked = st.poll_handle(false);
    assert!(blocked.pending);
    assert_eq!(blocked.ack_remote, None);
    let ready = st.poll_handle(true);
    assert!(!ready.pending);
    assert_eq!(ready.ack_remote, Some(42));
    assert!(!ready.is_wait);
}

#[test]
fn poll_results_close_or_answer_the_connection() {
    let end = handle_poll_result(ConnState::Open, None, NO_ERROR);
    assert_eq!(end.state, ConnState::Closing(NO_ERROR, Initiator::Library));
    assert!(end.result.is_ok());
    let first = handle_poll_result(ConnState::Open, Some(library_go_away(PROTOCOL_ERROR)), NO_ERROR);
    assert_eq!(first.state, ConnState::Open);
    assert_eq!(first.go_away, Some((PROTOCOL_ERROR, Vec::new())));
    let repeat = handle_poll_result(ConnState::Open, Some(library_go_away(PROTOCOL_ERROR)), PROTOCOL_ERROR);
    assert_eq!(repeat.state, ConnState::Closing(PROTOCOL_ERROR, Initiator::Library));
    let other = handle_poll_result(ConnState::Open, Some(ProtError::Io), NO_ERROR);
    assert!(matches!(other.result, Err(ProtError::Io)));
}

#[test]
fn closed_connection_reports_the_right_error() {
    assert!(take_error(NO_ERROR, Initiator::Library, None).is_ok());
    assert!(matches!(take_error(2, Initiator::User, None), Err(ProtError::GoAway(_, 2, Initiator::User))));
    match take_error(NO_ERROR, Initiator::Library, Some((b"bye".to_vec(), 5))) {
        Err(ProtError::GoAway(d, 5, Initiator::Remote)) => assert_eq!(d, b"bye".to_vec()),
        _ => panic!("expected the peer's error"),
    }
}

#[test]
fn body_counter_refuses_more_than_announced() {
    let mut c = BodyCounter::new(4);
    assert!(c.receive(3).is_ok());
    assert!(matches!(c.receive(2), Err(ProtError::Extension(_))));
    let unknown = BodyCounter::new(0);
    assert_eq!(unknown.content_len, usize::MAX);
}

fn frame(kind: FrameType, id: u32, end_headers: bool, end_stream: bool) -> FrameInfo {
    FrameInfo { kind, stream_id: id, end_headers, end_stream, payload: Vec::new(), reason: 0 }
}

#[test]
fn stream_book_tracks_ready_and_finished_streams() {
    let mut b = StreamBook::new();
    assert!(b.record_frame(frame(FrameType::Headers, 1, true, false), false));
    assert!(!b.record_frame(frame(FrameType::Headers, 3, false, false), true));
    assert!(!b.is_read_end());
    assert_eq!(b.streams.get(&3).map(|f| f.len()), Some(1));
    assert!(!b.record_frame(frame(FrameType::Data, 3, false, true), true));
    assert_eq!(b.last_stream_id, 3);
    assert!(b.is_read_end());
    assert!(b.streams.get(&3).is_none());
    assert_eq!(b.streams.get(&1).map(|f| f.len()), Some(1));
    assert_eq!(b.pop_ready(), Some(1));
    assert_eq!(b.pop_ready(), None);
    b.finish_stream(3);
    assert_eq!(b.finish_streams, vec![3]);
}

#[test]
fn connection_frames_belong_to_no_stream() {
    let mut b = StreamBook::new();
    assert!(!b.record_frame(frame(FrameType::Headers, 0, true, true), true));
    assert_eq!(b.last_stream_id, 0);
    assert!(b.ready_queue.is_empty());
    assert!(b.finish_streams.is_empty());
    assert!(b.streams.is_empty());
}

#[test]
fn frames_are_stored_with_their_stream_in_order() {
    let mut b = StreamBook::new();
    b.record_frame(frame(FrameType::Headers, 5, false, false), false);
    let mut data = frame(FrameType::Data, 5, true, false);
    data.payload = b"xy".to_vec();
    assert!(b.record_frame(data, false));
    let stored = b.streams.get(&5).unwrap();
    assert_eq!(stored.len(), 2);
    assert_eq!(stored[0].kind, FrameType::Headers);
    assert_eq!(stored[1].payload, b"xy".to_vec());
}

#[test]
fn a_peer_goaway_is_kept_and_ends_the_loop_with_its_reason() {
    let mut c = RecvControl::new();
    let mut g = frame(FrameType::GoAway, 0, false, false);
    g.reason = 2;
    assert_eq!(c.recv_frame(g, false), (FrameAction::RememberGoAway, false));
    assert_eq!(c.goaway.as_ref().map(|g| g.reason), Some(2));
    assert!(matches!(c.idle(true, false, false), IdleStep::Deliver));
    match c.idle(false, true, true) {
        IdleStep::Fail(ProtError::GoAway(d, 2, Initiator::Library)) => assert!(d.is_empty()),
        _ => panic!("expected the peer's go-away"),
    }
    let quiet = RecvControl::new();
    assert!(matches!(quiet.idle(false, true, true), IdleStep::Retry));
    assert!(matches!(quiet.idle(false, true, false), IdleStep::Wait));
}

#[test]
fn frames_of_a_stream_become_one_body() {
    let mut a = BodyAssembly::new();
    a.on_headers(false);
    a.on_data(false, b"ab");
    a.on_data(true, b"cd");
    assert!(!a.is_nobody);
    assert!(a.is_end_stream);
    assert_eq!(a.body, b"abcd".to_vec());
    assert!(matches!(a.on_other(), ProtError::GoAway(_, PROTOCOL_ERROR, Initiator::Library)));
    let mut h = BodyAssembly::new();
    h.on_headers(true);
    assert!(h.is_nobody);
}

#[test]
fn inner_stream_accounts_forwarded_data() {
    let mut s = InnerStream::new(5);
    s.note_frame(true, false);
    assert!(s.end_headers && !s.end_stream);
    assert!(!s.finish_build(true, false, 4));
    assert_eq!(s.counter.content_len, 4);
    assert!(s.forward_frame(true, 4).is_ok());
    assert!(matches!(s.forward_frame(true, 1), Err(ProtError::Extension("content len must not more"))));
    assert!(matches!(s.forward_frame(false, 0), Err(ProtError::Extension("must be data frame"))));
    assert!(!s.is_end(true));
    s.note_frame(false, true);
    assert!(s.is_end(true));
    assert!(!s.is_end(false));
}

#[test]
fn request_fields_put_pseudo_headers_first_and_drop_host() {
    let headers = vec![
        HeaderPair { name: b"host".to_vec(), value: b"example.com".to_vec() },
        HeaderPair { name: b"Accept".to_vec(), value: b"*/*".to_vec() },
    ];
    let fields = SendRequest::encode_headers(b"GET", b"/index", b"https", b"example.com", &headers);
    let names: Vec<Vec<u8>> = fields.iter().map(|p| p.name.clone()).collect();
    assert_eq!(
        names,
        vec![b":method".to_vec(), b":path".to_vec(), b":scheme".to_vec(), b":authority".to_vec(), b"Accept".to_vec()]
    );
    assert_eq!(fields[0].value, b"GET".to_vec());
    let bare = SendRequest::encode_headers(b"GET", b"/", b"", b"", &Vec::new());
    assert_eq!(bare.len(), 2);
}

#[test]
fn request_frames_send_headers_once() {
    let mut r = SendRequest::new(1, false);
    let first = r.begin_frames(true, true);
    assert_eq!(first.headers, Some(true));
    assert!(first.encode_body);
    assert_eq!(r.end_frames(0, true), (None, false));
    let second = r.begin_frames(true, true);
    assert_eq!(second.headers, None);
    assert!(!second.encode_body);
    assert_eq!(r.end_frames(5, true), (Some(true), true));
}

#[test]
fn received_frames_are_dispatched_by_type() {
    assert_eq!(frame_action(FrameType::Settings), FrameAction::ApplySettings);
    assert_eq!(frame_action(FrameType::Data), FrameAction::RecordStream);
    assert_eq!(frame_action(FrameType::Headers), FrameAction::RecordStream);
    assert_eq!(frame_action(FrameType::Priority), FrameAction::Reprioritize);
    assert_eq!(frame_action(FrameType::Ping), FrameAction::AnswerPing);
    assert_eq!(frame_action(FrameType::GoAway), FrameAction::RememberGoAway);
    assert_eq!(frame_action(FrameType::WindowUpdate), FrameAction::Ignore);
}

#[test]
fn idle_loop_delivers_fails_retries_or_waits() {
    assert_eq!(idle_action(true, Some(1), true, true), IdleAction::Deliver);
    assert_eq!(idle_action(false, Some(1), true, true), IdleAction::FailGoAway(1));
    assert_eq!(idle_action(false, None, true, true), IdleAction::Retry);
    assert_eq!(idle_action(false, None, true, false), IdleAction::Wait);
    assert!(is_write_end(true, true, true, true, false));
    assert!(!is_write_end(false, true, true, true, false));
}

#[test]
fn ping_is_answered_when_connection_is_ready() {
    let mut p: StatePingPong<u64> = StatePingPong::new();
    assert!(matches!(p.poll_handle(true), PingStep::Idle));
    p.receive(8);
    assert!(matches!(p.poll_handle(false), PingStep::Pending));
    assert!(matches!(p.poll_handle(true), PingStep::Answer(8)));
    assert!(matches!(p.poll_handle(true), PingStep::Idle));
}

#[test]
fn client_alpn_follows_its_option() {
    let default = ClientOption::default();
    assert_eq!(default.get_alpn_protocol(), vec![b"http/1.1".to_vec(), b"h2".to_vec()]);
    let only = Builder::new().http2_only(true).value().unwrap();
    assert_eq!(only.get_alpn_protocol(), vec![b"h2".to_vec()]);
    let plain = Builder::new().http2(false).value().unwrap();
    assert_eq!(plain.get_alpn_protocol(), vec![b"http/1.1".to_vec()]);
    assert_eq!(ClientOption::H2_PROTOCOL, [104, 50]);
}

#[test]
fn client_upgrades_to_http2_once() {
    let option = ClientOption::default();
    let mut l = ClientLoop::new(&option);
    assert_eq!(l.protocol, ClientProtocol::Http1);
    let headers = l.rebuild_request(&option);
    assert_eq!(headers.len(), 3);
    assert_eq!(headers[0].name, b"Connection".to_vec());
    assert_eq!(headers[0].value, b"Upgrade, HTTP2-Settings".to_vec());
    assert_eq!(headers[1].value, b"h2c".to_vec());
    assert_eq!(headers[2].name, b"HTTP2-Settings".to_vec());
    assert_eq!(l.step(ClientEvent::UpgradeHttp2), ClientAction::SwitchToHttp2);
    assert_eq!(l.protocol, ClientProtocol::Http2);
    assert!(l.rebuild_request(&option).is_empty());
    assert_eq!(l.step(ClientEvent::UpgradeHttp2), ClientAction::Fail);
    assert_eq!(l.step(ClientEvent::Response), ClientAction::Forward);
    assert_eq!(l.step(ClientEvent::Finished), ClientAction::Stop);
    l.open_requests();
    assert!(l.listens_requests);
    assert_eq!(l.step(ClientEvent::RequestsClosed), ClientAction::CloseRequests);
    assert!(!l.listens_requests);
    let h2 = ClientLoop::new(&Builder::new().http2_only(true).value().unwrap());
    assert_eq!(h2.protocol, ClientProtocol::Http2);
    assert!(check_split(true).is_ok());
    assert!(matches!(check_split(false), Err(ProtError::Extension("receiver error"))));
}

#[test]
fn upgrade_protocol_names_are_matched_exactly() {
    assert_eq!(Upgrade::from_protocol(Some(b"h2c")), Upgrade::H2c);
    assert_eq!(Upgrade::from_protocol(Some(b"websocket")), Upgrade::Websocket);
    assert_eq!(Upgrade::from_protocol(Some(b"WebSocket")), Upgrade::Stay);
    assert_eq!(Upgrade::from_protocol(None), Upgrade::Stay);
}

#[test]
fn server_counts_requests_and_stops_at_its_limit() {
    let mut s = ServerState::new(true, true);
    s.set_max_req(2);
    assert_eq!(s.step(ServerEvent::Request(Upgrade::Stay)), ServerAction::HandleRequest);
    assert_eq!(s.get_req_num(), 1);
    assert!(!s.should_stop(Some(true)));
    assert!(s.should_stop(Some(false)));
    assert_eq!(s.step(ServerEvent::Request(Upgrade::Stay)), ServerAction::HandleRequest);
    assert!(s.should_stop(None));
    assert_eq!(s.step(ServerEvent::Closed), ServerAction::Finish);
}

#[test]
fn server_request_counter_wraps() {
    let mut s = ServerState::new(true, false);
    s.req_num = usize::MAX;
    s.count_request();
    assert_eq!(s.req_num, 0);
}

#[test]
fn server_switches_protocols_as_asked() {
    let mut s = ServerState::new(true, true);
    assert_eq!(s.step(ServerEvent::Request(Upgrade::H2c)), ServerAction::SwitchToHttp2 { with_request: true });
    assert_eq!(s.protocol, ServerProtocol::Http2);
    assert_eq!(s.req_num, 0);
    assert_eq!(s.step(ServerEvent::UpgradeHttp2 { has_request: false }), ServerAction::Fail);
    let mut w = ServerState::new(true, true);
    assert_eq!(w.step(ServerEvent::Request(Upgrade::Websocket)), ServerAction::OpenWebsocket);
    assert!(!w.websocket_answer(400));
    assert_eq!(w.protocol, ServerProtocol::Http1);
    assert!(w.websocket_answer(101));
    assert_eq!(w.protocol, ServerProtocol::Websocket);
}

#[test]
fn server_without_callbacks_fails() {
    let mut s = ServerState::new(false, false);
    assert_eq!(s.step(ServerEvent::Request(Upgrade::Stay)), ServerAction::FailWith("http callback is none"));
    assert_eq!(s.step(ServerEvent::Request(Upgrade::Websocket)), ServerAction::FailWith("websocket callback is none"));
    assert_eq!(s.step(ServerEvent::Failed), ServerAction::Fail);
    let mut t = ServerState::new(true, false);
    assert_eq!(t.step(ServerEvent::Failed), ServerAction::ReportAndFail);
}

#[test]
fn websocket_loop_dispatches_messages() {
    assert_eq!(ws_action(WsEvent::FromPeer(MessageKind::Text)), WsAction::Deliver);
    assert_eq!(ws_action(WsEvent::FromPeer(MessageKind::Binary)), WsAction::Deliver);
    assert_eq!(ws_action(WsEvent::FromPeer(MessageKind::Close)), WsAction::CloseByPeer);
    assert_eq!(ws_action(WsEvent::FromPeer(MessageKind::Ping)), WsAction::AnswerPing);
    assert_eq!(ws_action(WsEvent::FromPeer(MessageKind::Pong)), WsAction::NotePong);
    assert_eq!(ws_action(WsEvent::FromUser(MessageKind::Close)), WsAction::CloseByUser);
    assert_eq!(ws_action(WsEvent::FromUser(MessageKind::Text)), WsAction::Send);
    assert_eq!(ws_action(WsEvent::PeerEnded), WsAction::Finish);
    assert_eq!(ws_action(WsEvent::UserEnded), WsAction::Finish);
    assert_eq!(ws_action(WsEvent::PeerFailed), WsAction::Fail);
    assert_eq!(ws_action(WsEvent::Interval), WsAction::Tick);
}

#[test]
fn negotiated_protocol_settles_the_client() {
    let mut o = ClientOption::default();
    assert!(o.apply_alpn(Some(b"http/1.1")).is_ok());
    assert!(!o.http2_only);
    assert!(o.apply_alpn(Some(b"h2")).is_ok());
    assert!(o.http2_only);
    let mut p = ClientOption::default();
    assert!(matches!(p.apply_alpn(None), Err(ProtError::Extension("not support protocol"))));
    assert!(!p.http2_only);
    let copy = o.duplicate();
    assert!(copy.http2_only && copy.http2);
}

#[test]
fn http2_preface_is_recognised() {
    assert!(wenmeng::http1::is_http2_preface(b"PRI * HTTP/2.0\r\n\r\nSM\r\n\r\nrest"));
    assert!(!wenmeng::http1::is_http2_preface(b"PRI * HTTP/2.0\r\n\r\nSM\r\n"));
    assert!(!wenmeng::http1::is_http2_preface(b"GET / HTTP/1.1\r\nHost: a\r\n\r\n"));
}

#[test]
fn finished_read_makes_room_for_the_next_head() {
    let mut c = ConnectionInfo::new();
    c.on_request_head(true, 5, true, false);
    let mut decoder = SendStream::empty();
    decoder.set_end_headers(true);
    c.read_finished(true, &mut decoder);
    assert!(!c.req_status.is_read_header_end);
    assert_eq!(c.req_status.left_read_body_len, 0);
    assert!(c.is_keep_alive);
}

#[test]
fn connection_states_lead_to_the_end() {
    assert_eq!(ConnState::Open.next_action(), ConnAction::Poll);
    assert_eq!(
        ConnState::Closing(2, Initiator::Remote).next_action(),
        ConnAction::Shutdown(ConnState::Closed(2, Initiator::Remote))
    );
    assert_eq!(ConnState::Closed(0, Initiator::Library).next_action(), ConnAction::Finish(0, Initiator::Library));
}

#[test]
fn http2_settings_text_is_url_safe_base64() {
    let text = ClientOption::default().get_http2_setting();
    assert!(text.chars().all(|c| c.is_ascii_alphanumeric() || c == '-' || c == '_'));
    assert_ne!(text.len() % 4, 1);
}

#[test]
fn announced_settings_are_encoded_in_the_upgrade_header() {
    let mut o = ClientOption::default();
    assert_eq!(o.settings, wenmeng::Http2Settings::new());
    assert_eq!(o.get_http2_setting(), "");
    o.settings.initial_window_size = Some(65535);
    // one entry: id 4, value 65535, base64 without padding
    assert_eq!(o.get_http2_setting(), "AAQAAP__");
    let l = ClientLoop::new(&o);
    let headers = l.rebuild_request(&o);
    assert_eq!(headers[2].value, b"AAQAAP__".to_vec());
}

#[test]
fn h2c_switch_is_answered_with_101() {
    let (status, headers) = wenmeng::server::h2c_switch_answer();
    assert_eq!(status, 101);
    assert_eq!(headers.len(), 2);
    assert_eq!(headers[0].name, b"Connection".to_vec());
    assert_eq!(headers[0].value, b"Upgrade".to_vec());
    assert_eq!(headers[1].name, b"Upgrade".to_vec());
    assert_eq!(headers[1].value, b"h2c".to_vec());
}

#[test]
fn request_headers_go_out_once_and_data_ends_with_the_body() {
    let mut r = SendRequest::new(5, false);
    let first = r.begin_frames(false, false);
    assert_eq!(first.headers, Some(false));
    assert!(first.encode_body);
    assert_eq!(r.end_frames(3, false), (Some(false), false));
    let second = r.begin_frames(false, false);
    assert_eq!(second.headers, None);
    assert_eq!(r.end_frames(4, true), (Some(true), true));
    let third = r.begin_frames(false, true);
    assert_eq!(third.headers, None);
    assert!(!third.encode_body);
    assert_eq!(r.end_frames(0, true), (None, true));
}

#[test]
fn websocket_loop_needs_a_callback() {
    let without = ServerState::new(true, false);
    assert!(matches!(without.ws_loop_start(), Err(ProtError::Extension("websocket callback is none"))));
    let with = ServerState::new(true, true);
    assert!(with.ws_loop_start().is_ok());
}

#[test]
fn every_middleware_hears_of_an_error_once_in_order() {
    let mut report = wenmeng::server::ErrorReport::new(ProtError::Extension("boom"), 3);
    let mut told = Vec::new();
    while let Some(i) = report.next_middleware() {
        assert!(matches!(report.error(), ProtError::Extension("boom")));
        told.push(i);
    }
    assert_eq!(told, vec![0, 1, 2]);
    assert_eq!(report.next_middleware(), None);
    assert!(matches!(report.finish(), ProtError::Extension("boom")));
}
