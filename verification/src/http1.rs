use vstd::prelude::*;

use crate::error::{ProtError, ProtResult};
use crate::recv_stream::{empty_view, RecvStream, RecvView};
use crate::send_stream::{outcome_of, spec_process, DecodeOutcome, SendStream, SendView};

verus! {

/// Progress of one direction of an HTTP/1 exchange: sending a message and
/// reading one.
#[derive(Debug, Clone, Copy, PartialEq, Eq)]
pub struct SendStatus {
    pub is_send_body: bool,
    pub is_send_header: bool,
    pub is_send_finish: bool,
    pub is_read_header_end: bool,
    pub is_read_finish: bool,
    pub left_read_body_len: usize,
    pub is_chunked: bool,
}

impl SendStatus {
    /// Nothing sent, nothing read.
    pub fn new() -> (r: SendStatus)
        ensures
            r == (SendStatus {
                is_send_body: false,
                is_send_header: false,
                is_send_finish: false,
                is_read_header_end: false,
                is_read_finish: false,
                left_read_body_len: 0,
                is_chunked: false,
            }),
    {
        SendStatus {
            is_send_body: false,
            is_send_header: false,
            is_send_finish: false,
            is_read_header_end: false,
            is_read_finish: false,
            left_read_body_len: 0,
            is_chunked: false,
        }
    }

    /// Forgets both the sending and the reading progress.
    pub fn clear(&mut self)
        ensures
            *final(self) == SendStatus::spec_new(),
    {
        self.clear_read();
        self.clear_write();
    }

    /// Forgets the sending progress.
    pub fn clear_write(&mut self)
        ensures
            *final(self) == (SendStatus {
                is_send_body: false,
                is_send_header: false,
                is_send_finish: false,
                ..*old(self)
            }),
    {
        self.is_send_body = false;
        self.is_send_header = false;
        self.is_send_finish = false;
    }

    /// Forgets the reading progress.
    pub fn clear_read(&mut self)
        ensures
            *final(self) == (SendStatus {
                is_read_finish: false,
                is_read_header_end: false,
                left_read_body_len: 0,
                is_chunked: false,
                ..*old(self)
            }),
    {
        self.is_read_finish = false;
        self.is_read_header_end = false;
        self.left_read_body_len = 0;
        self.is_chunked = false;
    }

    pub open spec fn spec_new() -> SendStatus {
        SendStatus {
            is_send_body: false,
            is_send_header: false,
            is_send_finish: false,
            is_read_header_end: false,
            is_read_finish: false,
            left_read_body_len: 0,
            is_chunked: false,
        }
    }
}

impl Default for SendStatus {
    fn default() -> (r: SendStatus)
        ensures
            r == SendStatus::spec_new(),
    {
        SendStatus::new()
    }
}

/// The body to expect after a message head: how many bytes (all of them,
/// `usize::MAX`, when the length is unknown) and whether they come chunked.
pub open spec fn spec_body_plan(body_len: isize, may_have_body: bool, headers_chunked: bool) -> (usize, bool) {
    if may_have_body && body_len == 0 {
        (usize::MAX, headers_chunked)
    } else if body_len < 0 {
        (usize::MAX, false)
    } else {
        (body_len as usize, false)
    }
}

/// Bookkeeping of an HTTP/1 connection: the progress of the request and of
/// the response, and whether the connection stays open.
#[derive(Debug, Clone, Copy, PartialEq, Eq)]
pub struct ConnectionInfo {
    pub deal_req: usize,
    pub is_keep_alive: bool,
    pub is_delay_close: bool,
    pub req_status: SendStatus,
    pub res_status: SendStatus,
}

/// A message's reading progress once its head was read: the body plan of
/// its head, nothing sent yet.
pub open spec fn spec_head_read(s: SendStatus, body_len: isize, may_have_body: bool, headers_chunked: bool) -> SendStatus {
    let (left, chunked) = spec_body_plan(body_len, may_have_body, headers_chunked);
    SendStatus {
        is_send_body: false,
        is_send_finish: false,
        is_read_header_end: true,
        left_read_body_len: left,
        is_chunked: if may_have_body && body_len == 0 { chunked || s.is_chunked } else { s.is_chunked },
        ..s
    }
}

/// The connection after the head of a request was read.
pub open spec fn spec_on_request_head(c: ConnectionInfo, keep_alive: bool, body_len: isize, has_body_method: bool, headers_chunked: bool) -> ConnectionInfo {
    ConnectionInfo {
        is_keep_alive: keep_alive,
        req_status: spec_head_read(c.req_status, body_len, has_body_method, headers_chunked),
        ..c
    }
}

/// The connection after the head of a response was read.
pub open spec fn spec_on_response_head(c: ConnectionInfo, body_len: isize, status_success: bool, headers_chunked: bool) -> ConnectionInfo {
    ConnectionInfo { res_status: spec_head_read(c.res_status, body_len, status_success, headers_chunked), ..c }
}

impl ConnectionInfo {
    pub fn new() -> (r: ConnectionInfo)
        ensures
            r == (ConnectionInfo {
                deal_req: 0,
                is_keep_alive: false,
                is_delay_close: false,
                req_status: SendStatus::spec_new(),
                res_status: SendStatus::spec_new(),
            }),
    {
        ConnectionInfo {
            deal_req: 0,
            is_keep_alive: false,
            is_delay_close: false,
            req_status: SendStatus::new(),
            res_status: SendStatus::new(),
        }
    }

    /// The connection closes on our side: the request went out in full and
    /// the peer did not ask to keep the connection alive.
    pub fn is_active_close(&self) -> (r: bool)
        ensures
            r == (self.req_status.is_send_finish && !self.is_keep_alive),
    {
        self.req_status.is_send_finish && self.req_status.is_send_finish && !self.is_keep_alive
    }

    /// When both the request and the response went out in full, a new
    /// exchange begins.
    pub fn check_finish_status(&mut self)
        ensures
            if old(self).req_status.is_send_finish && old(self).res_status.is_send_finish {
                *final(self) == (ConnectionInfo {
                    req_status: SendStatus::spec_new(),
                    res_status: SendStatus::spec_new(),
                    ..*old(self)
                })
            } else {
                *final(self) == *old(self)
            },
    {
        if self.req_status.is_send_finish && self.res_status.is_send_finish {
            self.req_status.clear();
            self.res_status.clear();
        }
    }

    /// A message was handed over for sending: its sending is not finished.
    pub fn queue_response(&mut self)
        ensures
            final(self).res_status.is_send_finish == false,
            *final(self) == (ConnectionInfo {
                res_status: SendStatus { is_send_finish: false, ..old(self).res_status },
                ..*old(self)
            }) || (old(self).req_status.is_send_finish && old(self).res_status.is_send_finish
                && *final(self) == (ConnectionInfo {
                req_status: SendStatus::spec_new(),
                res_status: SendStatus::spec_new(),
                ..*old(self)
            })),
    {
        self.check_finish_status();
        self.res_status.is_send_finish = false;
    }

    /// A request was handed over for sending: its sending is not finished.
    pub fn queue_request(&mut self)
        ensures
            final(self).req_status.is_send_finish == false,
            *final(self) == (ConnectionInfo {
                req_status: SendStatus { is_send_finish: false, ..old(self).req_status },
                ..*old(self)
            }) || (old(self).req_status.is_send_finish && old(self).res_status.is_send_finish
                && *final(self) == (ConnectionInfo {
                req_status: SendStatus { is_send_finish: false, ..SendStatus::spec_new() },
                res_status: SendStatus::spec_new(),
                ..*old(self)
            })),
    {
        self.check_finish_status();
        self.req_status.is_send_finish = false;
    }

    /// The head of a request was read: the request's reading starts with the
    /// body it announces, and the connection stays open if it asked so.
    pub fn on_request_head(&mut self, keep_alive: bool, body_len: isize, has_body_method: bool, headers_chunked: bool)
        ensures
            *final(self) == spec_on_request_head(*old(self), keep_alive, body_len, has_body_method, headers_chunked),
    {
        self.req_status.is_send_body = false;
        self.req_status.is_send_finish = false;
        self.req_status.is_read_header_end = true;
        self.is_keep_alive = keep_alive;
        self.req_status.left_read_body_len = if body_len < 0 {
            usize::MAX
        } else {
            body_len as usize
        };
        if has_body_method && body_len == 0 {
            self.req_status.left_read_body_len = usize::MAX;
            if headers_chunked {
                self.req_status.is_chunked = true;
            }
        }
    }

    /// The head of a response was read: the response's reading starts with
    /// the body it announces (a successful response without a length is
    /// read to the end of the connection, or chunked).
    pub fn on_response_head(&mut self, body_len: isize, status_success: bool, headers_chunked: bool)
        ensures
            *final(self) == spec_on_response_head(*old(self), body_len, status_success, headers_chunked),
    {
        self.res_status.is_send_body = false;
        self.res_status.is_send_finish = false;
        self.res_status.is_read_header_end = true;
        self.res_status.left_read_body_len = if body_len < 0 {
            usize::MAX
        } else {
            body_len as usize
        };
        if status_success && body_len == 0 {
            self.res_status.left_read_body_len = usize::MAX;
            if headers_chunked {
                self.res_status.is_chunked = true;
            }
        }
    }
}

/// What to put on the wire for the message at the front of a queue.
#[derive(Debug, Clone, Copy, PartialEq, Eq, Structural)]
pub struct WritePlan {
    /// Encode the head now.
    pub send_header: bool,
    /// Encode (more of) the body now.
    pub send_body: bool,
}

pub open spec fn spec_begin_write(s: SendStatus, headers_chunked: bool, body_end: bool, is_response: bool) -> (SendStatus, WritePlan) {
    let plan = WritePlan { send_header: !s.is_send_header, send_body: !body_end || !s.is_send_body };
    let t = SendStatus {
        is_send_header: true,
        is_send_body: s.is_send_body || plan.send_body,
        is_chunked: if is_response && !s.is_send_header { headers_chunked } else { s.is_chunked },
        ..s
    };
    (t, plan)
}

pub open spec fn spec_end_write(s: SendStatus, deal_req: usize, has_message: bool, body_end: bool) -> (SendStatus, usize, bool) {
    let finished = s.is_send_finish || (has_message && body_end);
    let count = if has_message && body_end { (deal_req + 1) as usize } else { deal_req };
    if finished {
        (SendStatus { is_send_body: false, is_send_header: false, is_send_finish: false, ..s }, count, true)
    } else {
        (s, count, false)
    }
}

/// The head of a message goes out exactly once: after a first pass, later
/// passes never send it again, and once the body was finished and sent no
/// further pass sends body either.
pub proof fn law_head_sent_once(s: SendStatus, headers_chunked: bool, body_end: bool, is_response: bool, later_chunked: bool)
    ensures
        ({
            let (t, p) = spec_begin_write(s, headers_chunked, body_end, is_response);
            &&& p.send_header == !s.is_send_header
            &&& !spec_begin_write(t, later_chunked, true, is_response).1.send_header
            &&& !spec_begin_write(t, later_chunked, true, is_response).1.send_body
        }),
{
}

impl ConnectionInfo {
    /// Before writing the message at the front of the response queue (or
    /// of the request queue): its head goes out once (a response first
    /// takes its chunked flag from its headers), its body while it is not
    /// finished or has not been started.
    pub fn begin_write(&mut self, is_response: bool, headers_chunked: bool, body_end: bool) -> (r: WritePlan)
        ensures
            is_response ==> {
                let (t, plan) = spec_begin_write(old(self).res_status, headers_chunked, body_end, true);
                &&& r == plan
                &&& *final(self) == (ConnectionInfo { res_status: t, ..*old(self) })
            },
            !is_response ==> {
                let (t, plan) = spec_begin_write(old(self).req_status, headers_chunked, body_end, false);
                &&& r == plan
                &&& *final(self) == (ConnectionInfo { req_status: t, ..*old(self) })
            },
    {
        let mut status = if is_response { self.res_status } else { self.req_status };
        let send_header = !status.is_send_header;
        if send_header {
            if is_response {
                status.is_chunked = headers_chunked;
            }
            status.is_send_header = true;
        }
        let send_body = !body_end || !status.is_send_body;
        if send_body {
            status.is_send_body = true;
        }
        if is_response {
            self.res_status = status;
        } else {
            self.req_status = status;
        }
        WritePlan { send_header, send_body }
    }

    /// After writing: a message whose body is complete is finished and
    /// counted; a finished message leaves its queue (the answer) and the
    /// sending progress starts afresh.
    pub fn end_write(&mut self, is_response: bool, has_message: bool, body_end: bool) -> (r: bool)
        requires
            has_message && body_end ==> old(self).deal_req < usize::MAX,
        ensures
            is_response ==> {
                let (t, n, pop) = spec_end_write(old(self).res_status, old(self).deal_req, has_message, body_end);
                &&& r == pop
                &&& *final(self) == (ConnectionInfo { res_status: t, deal_req: n, ..*old(self) })
            },
            !is_response ==> {
                let (t, n, pop) = spec_end_write(old(self).req_status, old(self).deal_req, has_message, body_end);
                &&& r == pop
                &&& *final(self) == (ConnectionInfo { req_status: t, deal_req: n, ..*old(self) })
            },
    {
        let mut status = if is_response { self.res_status } else { self.req_status };
        if has_message && body_end {
            status.is_send_finish = true;
            self.deal_req = self.deal_req + 1;
        }
        let pop = status.is_send_finish;
        if pop {
            status.clear_write();
        }
        if is_response {
            self.res_status = status;
        } else {
            self.req_status = status;
        }
        pop
    }

    /// Whether the connection ends after its reads were forwarded: when it
    /// closes on our side and nothing is left to write, or when a close
    /// was put off until now.
    pub fn should_close(&self, write_buf_empty: bool) -> (r: bool)
        ensures
            r == ((self.req_status.is_send_finish && !self.is_keep_alive && write_buf_empty) || self.is_delay_close),
    {
        if self.is_active_close() && write_buf_empty {
            return true;
        }
        self.is_delay_close
    }
}

/// The connection preface of HTTP/2 (`PRI * HTTP/2.0\r\n\r\nSM\r\n\r\n`).
pub open spec fn http2_magic() -> Seq<u8> {
    seq![
        80u8, 82u8, 73u8, 32u8, 42u8, 32u8, 72u8, 84u8, 84u8, 80u8, 47u8, 50u8, 46u8, 48u8, 13u8, 10u8,
        13u8, 10u8, 83u8, 77u8, 13u8, 10u8, 13u8, 10u8,
    ]
}

/// Does what an HTTP/1 server received start with the HTTP/2 preface (a
/// client that speaks HTTP/2 from the start)?
pub fn is_http2_preface(buf: &[u8]) -> (r: bool)
    ensures
        r == (buf@.len() >= 24 && buf@.take(24) == http2_magic()),
{
    let magic: [u8; 24] = [80, 82, 73, 32, 42, 32, 72, 84, 84, 80, 47, 50, 46, 48, 13, 10, 13, 10, 83, 77, 13, 10, 13, 10];
    assert(magic@ =~= http2_magic());
    if buf.len() < 24 {
        return false;
    }
    let mut i: usize = 0;
    while i < 24
        invariant
            buf@.len() >= 24,
            magic@ == http2_magic(),
            i <= 24,
            forall|j: int| 0 <= j < i ==> buf@[j] == magic@[j],
        decreases 24 - i,
    {
        if buf[i] != magic[i] {
            assert(buf@.take(24)[i as int] != http2_magic()[i as int]);
            return false;
        }
        i = i + 1;
    }
    assert(buf@.take(24) =~= http2_magic());
    true
}

impl ConnectionInfo {
    /// The body being read (of the request, or of the response) was read in
    /// full: its reading progress is forgotten so that the next message
    /// head can be read.
    pub fn read_finished(&mut self, is_request: bool, send_stream: &mut SendStream)
        ensures
            is_request ==> *final(self) == (ConnectionInfo {
                req_status: SendStatus {
                    is_read_finish: false,
                    is_read_header_end: false,
                    left_read_body_len: 0,
                    is_chunked: false,
                    ..old(self).req_status
                },
                ..*old(self)
            }),
            !is_request ==> *final(self) == (ConnectionInfo {
                res_status: SendStatus {
                    is_read_finish: false,
                    is_read_header_end: false,
                    left_read_body_len: 0,
                    is_chunked: false,
                    ..old(self).res_status
                },
                ..*old(self)
            }),
            final(send_stream)@ == (SendView { end_headers: false, ..old(send_stream)@ }),
    {
        if is_request {
            self.req_status.clear_read();
        } else {
            self.res_status.clear_read();
        }
        send_stream.set_end_headers(false);
    }
}

/// Counts `body_len` received bytes against what `status` still expects;
/// `true` when the body is complete.
pub fn receive_body_len(status: &mut SendStatus, body_len: usize) -> (r: bool)
    ensures
        r == (old(status).left_read_body_len <= body_len),
        *final(status) == (SendStatus {
            left_read_body_len: if r { 0 } else { (old(status).left_read_body_len - body_len) as usize },
            ..*old(status)
        }),
{
    if status.left_read_body_len <= body_len {
        status.left_read_body_len = 0;
        true
    } else {
        status.left_read_body_len = status.left_read_body_len - body_len;
        false
    }
}

/// What starting a body does to the decoder, and what it yields: the view
/// of the body's first part and whether more will follow, or (`None`) the
/// decoder's refusal.
pub open spec fn spec_build_recv(status: SendStatus, sv: SendView) -> (SendView, Option<(RecvView, bool)>, DecodeOutcome) {
    let set = SendView { left: status.left_read_body_len as nat, end: false, chunked: status.is_chunked, ..sv };
    if status.left_read_body_len == 0 {
        (set, Some((empty_view(), false)), DecodeOutcome::Done)
    } else {
        let (v, o) = spec_process(set);
        if o == DecodeOutcome::Done {
            (SendView { out: Seq::empty(), ..v }, Some((RecvView { read: Some(v.out), end: v.end, ..empty_view() }, true)), o)
        } else {
            (v, None, o)
        }
    }
}

/// Starts the body of a message just read: the decoder is told what to
/// expect; with nothing expected the body is empty, else it starts with
/// what the decoder already holds. The flag says whether more of the body
/// will be forwarded later (a sender is needed).
pub fn build_recv_stream(status: &SendStatus, send_stream: &mut SendStream) -> (r: ProtResult<(RecvStream, bool)>)
    ensures
        ({
            let (sv, res, o) = spec_build_recv(*status, old(send_stream)@);
            &&& final(send_stream)@ == sv
            &&& match r {
                Ok((b, s)) => res == Some((b@, s)),
                Err(e) => res is None && outcome_of(Err(e)) == o,
            }
        }),
{
    send_stream.set_left_body(status.left_read_body_len);
    send_stream.set_chunked(status.is_chunked);
    if status.left_read_body_len == 0 {
        Ok((RecvStream::empty(), false))
    } else {
        let mut read_data: Vec<u8> = Vec::new();
        match send_stream.read_data(&mut read_data) {
            Ok(_) => {},
            Err(e) => {
                return Err(e);
            },
        }
        assert(read_data@ =~= Seq::<u8>::empty() + spec_process(SendView { left: status.left_read_body_len as nat, end: false, chunked: status.is_chunked, ..old(send_stream)@ }).0.out);
        let end = send_stream.is_end();
        Ok((RecvStream::new(read_data, end), true))
    }
}

} // verus!
