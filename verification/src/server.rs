use vstd::prelude::*;

use crate::client::HeaderPair;
use crate::error::{ProtError, ProtResult};
use crate::http1_read::headers_view;
use crate::http2::pair_of;

verus! {

/// `h2c`
pub open spec fn h2c_bytes() -> Seq<u8> {
    seq![104u8, 50u8, 99u8]
}

/// `websocket`
pub open spec fn websocket_bytes() -> Seq<u8> {
    seq![119u8, 101u8, 98u8, 115u8, 111u8, 99u8, 107u8, 101u8, 116u8]
}

/// The protocol a request asks to switch to.
#[derive(Debug, Clone, Copy, PartialEq, Eq, Structural)]
pub enum Upgrade {
    /// No switch (or one the server does not know).
    Stay,
    /// HTTP/2 over cleartext.
    H2c,
    /// WebSocket.
    Websocket,
}

pub open spec fn spec_upgrade(protocol: Option<Seq<u8>>) -> Upgrade {
    match protocol {
        Some(p) => if p == h2c_bytes() {
            Upgrade::H2c
        } else if p == websocket_bytes() {
            Upgrade::Websocket
        } else {
            Upgrade::Stay
        },
        None => Upgrade::Stay,
    }
}

pub(crate) fn bytes_equal(a: &[u8], b: &[u8]) -> (r: bool)
    ensures
        r == (a@ == b@),
{
    if a.len() != b.len() {
        return false;
    }
    let mut i: usize = 0;
    while i < a.len()
        invariant
            a@.len() == b@.len(),
            i <= a@.len(),
            forall|j: int| 0 <= j < i ==> a@[j] == b@[j],
        decreases a@.len() - i,
    {
        if a[i] != b[i] {
            return false;
        }
        i = i + 1;
    }
    assert(a@ =~= b@);
    true
}

impl Upgrade {
    /// The switch that the `Upgrade` header of a request (taken only when
    /// `Connection` names `Upgrade`) asks for; the names are matched exactly.
    pub fn from_protocol(protocol: Option<&[u8]>) -> (r: Upgrade)
        ensures
            r == spec_upgrade(
                match protocol {
                    Some(p) => Some(p@),
                    None => None,
                },
            ),
    {
        let h2c: [u8; 3] = [104, 50, 99];
        let ws: [u8; 9] = [119, 101, 98, 115, 111, 99, 107, 101, 116];
        proof {
            assert(h2c@ =~= h2c_bytes());
            assert(ws@ =~= websocket_bytes());
        }
        match protocol {
            Some(p) => {
                if bytes_equal(p, &h2c) {
                    Upgrade::H2c
                } else if bytes_equal(p, &ws) {
                    Upgrade::Websocket
                } else {
                    Upgrade::Stay
                }
            },
            None => Upgrade::Stay,
        }
    }
}

/// `Connection`
pub open spec fn connection_name() -> Seq<u8> {
    seq![67u8, 111u8, 110u8, 110u8, 101u8, 99u8, 116u8, 105u8, 111u8, 110u8]
}

/// `Upgrade`
pub open spec fn upgrade_name() -> Seq<u8> {
    seq![85u8, 112u8, 103u8, 114u8, 97u8, 100u8, 101u8]
}

/// The answer that accepts a request's switch to HTTP/2 over cleartext:
/// status 101 (Switching Protocols) with `Connection: Upgrade` and
/// `Upgrade: h2c`, in that order.
pub fn h2c_switch_answer() -> (r: (u16, Vec<HeaderPair>))
    ensures
        r.0 == 101,
        headers_view(r.1@) == seq![(connection_name(), upgrade_name()), (upgrade_name(), h2c_bytes())],
{
    let connection: [u8; 10] = [67, 111, 110, 110, 101, 99, 116, 105, 111, 110];
    let upgrade: [u8; 7] = [85, 112, 103, 114, 97, 100, 101];
    let h2c: [u8; 3] = [104, 50, 99];
    let mut headers: Vec<HeaderPair> = Vec::new();
    headers.push(pair_of(&connection, &upgrade));
    headers.push(pair_of(&upgrade, &h2c));
    proof {
        assert(connection@ =~= connection_name());
        assert(upgrade@ =~= upgrade_name());
        assert(h2c@ =~= h2c_bytes());
        assert(headers_view(headers@) =~= seq![(connection_name(), upgrade_name()), (upgrade_name(), h2c_bytes())]);
    }
    (101, headers)
}

/// What a server connection speaks now.
#[derive(Debug, Clone, Copy, PartialEq, Eq, Structural)]
pub enum ServerProtocol {
    Http1,
    Http2,
    Websocket,
}

/// What the connection reported to the server loop.
#[derive(Debug, Clone, Copy, PartialEq, Eq, Structural)]
pub enum ServerEvent {
    /// The peer closed the connection.
    Closed,
    /// A request arrived, asking for the given switch.
    Request(Upgrade),
    /// The connection asks to switch to HTTP/2 (with the request that asked
    /// for it, when there is one).
    UpgradeHttp2 { has_request: bool },
    /// The connection failed.
    Failed,
}

/// What the server loop does next.
#[derive(Debug, Clone, Copy, PartialEq, Eq)]
pub enum ServerAction {
    /// Flush what is pending and end the loop successfully.
    Finish,
    /// Hand the request to the HTTP callback.
    HandleRequest,
    /// Turn the HTTP/1.1 connection into an HTTP/2 one; hand the request
    /// that asked for it to the callback when `with_request`.
    SwitchToHttp2 { with_request: bool },
    /// Ask the WebSocket callback about the request and, if it accepts,
    /// switch the connection to WebSocket.
    OpenWebsocket,
    /// Tell the middlewares about the error, then end the loop with it.
    ReportAndFail,
    /// End the loop with the connection's error.
    Fail,
    /// End the loop with an error of the server's own.
    FailWith(&'static str),
}

/// The part of a server's state that its loop decides on.
#[derive(Debug, Clone, Copy, PartialEq, Eq, Structural)]
pub struct ServerState {
    pub protocol: ServerProtocol,
    pub req_num: usize,
    pub max_req_num: usize,
    pub has_http_callback: bool,
    pub has_ws_callback: bool,
}

/// The request counter moves on by one, wrapping at the top.
pub open spec fn next_count(n: usize) -> usize {
    if n == usize::MAX { 0 } else { (n + 1) as usize }
}

pub open spec fn spec_upgrade_h2(s: ServerState, has_request: bool) -> (ServerState, ServerAction) {
    if !s.has_http_callback {
        (s, ServerAction::Fail)
    } else if s.protocol == ServerProtocol::Http1 {
        (ServerState { protocol: ServerProtocol::Http2, ..s }, ServerAction::SwitchToHttp2 { with_request: has_request })
    } else {
        (s, ServerAction::Fail)
    }
}

pub open spec fn spec_server_step(s: ServerState, ev: ServerEvent) -> (ServerState, ServerAction) {
    match ev {
        ServerEvent::Closed => (s, ServerAction::Finish),
        ServerEvent::Request(Upgrade::H2c) => spec_upgrade_h2(s, true),
        ServerEvent::Request(Upgrade::Websocket) => if !s.has_ws_callback {
            (s, ServerAction::FailWith("websocket callback is none"))
        } else {
            (s, ServerAction::OpenWebsocket)
        },
        ServerEvent::Request(Upgrade::Stay) => {
            let t = ServerState { req_num: next_count(s.req_num), ..s };
            if !s.has_http_callback {
                (t, ServerAction::FailWith("http callback is none"))
            } else {
                (t, ServerAction::HandleRequest)
            }
        },
        ServerEvent::UpgradeHttp2 { has_request } => spec_upgrade_h2(s, has_request),
        ServerEvent::Failed => if !s.has_http_callback {
            (s, ServerAction::Fail)
        } else {
            (s, ServerAction::ReportAndFail)
        },
    }
}

/// The server loop never returns to HTTP/1.1 once it switched, switches to
/// HTTP/2 at most once, and counts exactly the plain requests it hands to
/// the HTTP callback.
pub proof fn law_server_step(s: ServerState, ev: ServerEvent)
    ensures
        ({
            let (t, a) = spec_server_step(s, ev);
            &&& (s.protocol != ServerProtocol::Http1 ==> t.protocol == s.protocol)
            &&& (a matches ServerAction::SwitchToHttp2 { .. } ==> s.protocol == ServerProtocol::Http1
                && t.protocol == ServerProtocol::Http2
                && !(spec_server_step(t, ServerEvent::UpgradeHttp2 { has_request: true }).1 matches ServerAction::SwitchToHttp2 { .. }))
            &&& t.req_num == (if ev == ServerEvent::Request(Upgrade::Stay) { next_count(s.req_num) } else { s.req_num })
            &&& t.max_req_num == s.max_req_num
        }),
{
}

impl ServerState {
    /// A new server speaks HTTP/1.1, has served no request and has no limit
    /// on how many it serves.
    pub fn new(has_http_callback: bool, has_ws_callback: bool) -> (r: ServerState)
        ensures
            r == (ServerState {
                protocol: ServerProtocol::Http1,
                req_num: 0,
                max_req_num: usize::MAX,
                has_http_callback,
                has_ws_callback,
            }),
    {
        ServerState { protocol: ServerProtocol::Http1, req_num: 0, max_req_num: usize::MAX, has_http_callback, has_ws_callback }
    }

    /// How many requests were served (modulo the word size).
    pub fn get_req_num(&self) -> (r: usize)
        ensures
            r == self.req_num,
    {
        self.req_num
    }

    /// Serve at most `num` requests on this connection.
    pub fn set_max_req(&mut self, num: usize)
        ensures
            *final(self) == (ServerState { max_req_num: num, ..*old(self) }),
    {
        self.max_req_num = num;
    }

    /// Counts a request served after the switch to HTTP/2.
    pub fn count_request(&mut self)
        ensures
            *final(self) == (ServerState { req_num: next_count(old(self).req_num), ..*old(self) }),
    {
        self.req_num = self.req_num.wrapping_add(1);
    }

    /// The decision on one event of the loop.
    pub fn step(&mut self, ev: ServerEvent) -> (r: ServerAction)
        ensures
            (*final(self), r) == spec_server_step(*old(self), ev),
    {
        match ev {
            ServerEvent::Closed => ServerAction::Finish,
            ServerEvent::Request(Upgrade::H2c) => self.upgrade_h2(true),
            ServerEvent::Request(Upgrade::Websocket) => {
                if !self.has_ws_callback {
                    ServerAction::FailWith("websocket callback is none")
                } else {
                    ServerAction::OpenWebsocket
                }
            },
            ServerEvent::Request(Upgrade::Stay) => {
                self.req_num = self.req_num.wrapping_add(1);
                if !self.has_http_callback {
                    ServerAction::FailWith("http callback is none")
                } else {
                    ServerAction::HandleRequest
                }
            },
            ServerEvent::UpgradeHttp2 { has_request } => self.upgrade_h2(has_request),
            ServerEvent::Failed => {
                if !self.has_http_callback {
                    ServerAction::Fail
                } else {
                    ServerAction::ReportAndFail
                }
            },
        }
    }

    fn upgrade_h2(&mut self, has_request: bool) -> (r: ServerAction)
        ensures
            (*final(self), r) == spec_upgrade_h2(*old(self), has_request),
    {
        if !self.has_http_callback {
            ServerAction::Fail
        } else if self.protocol == ServerProtocol::Http1 {
            self.protocol = ServerProtocol::Http2;
            ServerAction::SwitchToHttp2 { with_request: has_request }
        } else {
            ServerAction::Fail
        }
    }

    /// The WebSocket callback answered the upgrade request with `status`:
    /// anything but 101 is sent back as a plain response and ends the loop;
    /// 101 switches the connection to WebSocket.
    pub fn websocket_answer(&mut self, status: u16) -> (r: bool)
        ensures
            r == (status == 101),
            r ==> *final(self) == (ServerState { protocol: ServerProtocol::Websocket, ..*old(self) }),
            !r ==> *final(self) == *old(self),
    {
        if status != 101 {
            return false;
        }
        self.protocol = ServerProtocol::Websocket;
        true
    }

    /// After a request: the loop ends once the limit of requests is reached
    /// or the HTTP callback declines to go on (`continue_next`, when there is
    /// a callback to ask).
    pub fn should_stop(&self, continue_next: Option<bool>) -> (r: bool)
        ensures
            r == (self.req_num >= self.max_req_num || continue_next == Some(false)),
    {
        if self.req_num >= self.max_req_num {
            return true;
        }
        match continue_next {
            Some(false) => true,
            _ => false,
        }
    }
}

impl ServerState {
    /// The WebSocket loop starts only when there is a WebSocket callback to
    /// hand its events to.
    pub fn ws_loop_start(&self) -> (r: ProtResult<()>)
        ensures
            self.has_ws_callback ==> r is Ok,
            !self.has_ws_callback ==> r == Err::<(), ProtError>(ProtError::Extension("websocket callback is none")),
    {
        if !self.has_ws_callback {
            return Err(ProtError::Extension("websocket callback is none"));
        }
        Ok(())
    }
}

/// An error on its way out of the server loop: the first `count`
/// middlewares hear of it, one at a time from the first, and then it is
/// returned as it came.
pub struct ErrorReport {
    pub error: ProtError,
    pub next: usize,
    pub count: usize,
}

/// One turn of [`ErrorReport::next_middleware`] on the counter `next` of
/// `count`: the middleware to tell, if any is left, and the counter after.
pub open spec fn spec_next_report(next: usize, count: usize) -> (usize, Option<usize>) {
    if next < count {
        ((next + 1) as usize, Some(next))
    } else {
        (next, None)
    }
}

/// The middlewares told over `steps` turns.
pub open spec fn reports_from(next: usize, count: usize, steps: nat) -> Seq<Option<usize>>
    decreases steps,
{
    if steps == 0 {
        Seq::empty()
    } else {
        let (n, r) = spec_next_report(next, count);
        seq![r] + reports_from(n, count, (steps - 1) as nat)
    }
}

impl ErrorReport {
    /// The error `error`, to be told to `count` middlewares (none when the
    /// server has no HTTP callback: see [`ServerAction::ReportAndFail`]).
    pub fn new(error: ProtError, count: usize) -> (r: ErrorReport)
        ensures
            r.error == error,
            r.next == 0,
            r.count == count,
    {
        ErrorReport { error, next: 0, count }
    }

    /// The next middleware to tell of the error, if any is left.
    pub fn next_middleware(&mut self) -> (r: Option<usize>)
        ensures
            (final(self).next, r) == spec_next_report(old(self).next, old(self).count),
            final(self).error == old(self).error,
            final(self).count == old(self).count,
    {
        if self.next < self.count {
            let i = self.next;
            self.next = i + 1;
            Some(i)
        } else {
            None
        }
    }

    /// The error, to tell a middleware of it.
    pub fn error(&self) -> (r: &ProtError)
        ensures
            *r == self.error,
    {
        &self.error
    }

    /// The error itself, once every middleware heard of it.
    pub fn finish(self) -> (r: ProtError)
        ensures
            r == self.error,
    {
        self.error
    }
}

/// Every middleware hears of the error exactly once, in order from the
/// first, and then no more are told: from the start, `count + 1` turns
/// name the middlewares `0, 1, ..., count - 1` and then none.
pub proof fn law_error_reported_once_each(count: usize)
    ensures
        reports_from(0, count, (count + 1) as nat) == Seq::new((count + 1) as nat, |j: int| if j < count { Some(j as usize) } else { None }),
{
    lemma_reports_from(0, count);
}

proof fn lemma_reports_from(next: usize, count: usize)
    requires
        next <= count,
    ensures
        reports_from(next, count, (count - next + 1) as nat) == Seq::new(
            (count - next + 1) as nat,
            |j: int| if j < count - next { Some((next + j) as usize) } else { None },
        ),
    decreases count - next,
{
    let k = (count - next + 1) as nat;
    let expected = Seq::new(k, |j: int| if j < count - next { Some((next + j) as usize) } else { None });
    let (n, r) = spec_next_report(next, count);
    if next == count {
        assert(reports_from(n, count, 0) == Seq::<Option<usize>>::empty());
        assert(reports_from(next, count, k) == seq![r] + Seq::<Option<usize>>::empty());
        assert(reports_from(next, count, k) =~= expected);
    } else {
        lemma_reports_from(n, count);
        let rest = reports_from(n, count, (k - 1) as nat);
        assert(reports_from(next, count, k) == seq![r] + rest);
        assert forall|j: int| 0 <= j < expected.len() implies (seq![r] + rest)[j] == expected[j] by {
            if j > 0 {
                assert((seq![r] + rest)[j] == rest[j - 1]);
            }
        }
        assert(reports_from(next, count, k) =~= expected);
    }
}

// ---------------------------------------------------------------------------
// The WebSocket phase
// ---------------------------------------------------------------------------

/// The kinds of WebSocket message.
#[derive(Debug, Clone, Copy, PartialEq, Eq, Structural)]
pub enum MessageKind {
    Text,
    Binary,
    Close,
    Ping,
    Pong,
}

/// What the WebSocket loop saw.
#[derive(Debug, Clone, Copy, PartialEq, Eq, Structural)]
pub enum WsEvent {
    /// The peer's stream ended.
    PeerEnded,
    /// The peer sent a message.
    FromPeer(MessageKind),
    /// Reading from the peer failed.
    PeerFailed,
    /// The user's sending channel closed.
    UserEnded,
    /// The user handed a message to send.
    FromUser(MessageKind),
    /// The interval timer fired.
    Interval,
}

/// What the WebSocket loop does next.
#[derive(Debug, Clone, Copy, PartialEq, Eq, Structural)]
pub enum WsAction {
    /// End the loop successfully.
    Finish,
    /// End the loop with the error.
    Fail,
    /// Give the message to `on_message`.
    Deliver,
    /// Give the close data to `on_close`, then start closing.
    CloseByPeer,
    /// Ask `on_ping` for the answer and send it.
    AnswerPing,
    /// Give the payload to `on_pong`.
    NotePong,
    /// Start closing, then send the user's close frame.
    CloseByUser,
    /// Send the user's message.
    Send,
    /// Call `on_interval`.
    Tick,
}

pub open spec fn spec_ws_action(ev: WsEvent) -> WsAction {
    match ev {
        WsEvent::PeerEnded => WsAction::Finish,
        WsEvent::FromPeer(k) => match k {
            MessageKind::Text => WsAction::Deliver,
            MessageKind::Binary => WsAction::Deliver,
            MessageKind::Close => WsAction::CloseByPeer,
            MessageKind::Ping => WsAction::AnswerPing,
            MessageKind::Pong => WsAction::NotePong,
        },
        WsEvent::PeerFailed => WsAction::Fail,
        WsEvent::UserEnded => WsAction::Finish,
        WsEvent::FromUser(k) => if k == MessageKind::Close {
            WsAction::CloseByUser
        } else {
            WsAction::Send
        },
        WsEvent::Interval => WsAction::Tick,
    }
}

/// The decision on one event of the WebSocket loop.
pub fn ws_action(ev: WsEvent) -> (r: WsAction)
    ensures
        r == spec_ws_action(ev),
{
    match ev {
        WsEvent::PeerEnded => WsAction::Finish,
        WsEvent::FromPeer(k) => match k {
            MessageKind::Text => WsAction::Deliver,
            MessageKind::Binary => WsAction::Deliver,
            MessageKind::Close => WsAction::CloseByPeer,
            MessageKind::Ping => WsAction::AnswerPing,
            MessageKind::Pong => WsAction::NotePong,
        },
        WsEvent::PeerFailed => WsAction::Fail,
        WsEvent::UserEnded => WsAction::Finish,
        WsEvent::FromUser(k) => match k {
            MessageKind::Close => WsAction::CloseByUser,
            _ => WsAction::Send,
        },
        WsEvent::Interval => WsAction::Tick,
    }
}

} // verus!
