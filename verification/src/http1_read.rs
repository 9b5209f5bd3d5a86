use vstd::prelude::*;

use webparse::{Request, Response};

use crate::client::HeaderPair;
use crate::consts::Consts;
use crate::error::{ProtError, WebFault};
use crate::header_helper::{spec_compress_method, HeaderHelper};
use crate::http1::{
    build_recv_stream, http2_magic, is_http2_preface, spec_build_recv, spec_on_request_head,
    spec_on_response_head, ConnectionInfo, SendStatus,
};
use crate::http2::{eq_bytes_ignore_ascii_case, eq_ignore_ascii_case, pair_of, pair_view};
use crate::recv_stream::{RecvStream, RecvView};
use crate::send_stream::{outcome_of, SendStream, SendView};
use crate::server::bytes_equal;

verus! {

/// The head of a request as read off the wire, in plain values.
pub struct RequestHead {
    pub method: Vec<u8>,
    pub path: Vec<u8>,
    pub version: Vec<u8>,
    pub headers: Vec<HeaderPair>,
    /// `Content-Length` as read (0 when absent or unreadable).
    pub body_len: isize,
    /// `Connection` asks to keep the connection alive.
    pub keep_alive: bool,
    /// `Transfer-Encoding` mentions chunked.
    pub chunked: bool,
}

/// The head of a response as read off the wire, in plain values.
pub struct ResponseHead {
    pub status: u16,
    pub version: Vec<u8>,
    pub headers: Vec<HeaderPair>,
    /// `Content-Length` as read (0 when absent or unreadable).
    pub body_len: isize,
    /// `Transfer-Encoding` mentions chunked.
    pub chunked: bool,
}

/// A request head in mathematical terms.
pub struct RequestHeadView {
    pub method: Seq<u8>,
    pub path: Seq<u8>,
    pub version: Seq<u8>,
    pub headers: Seq<(Seq<u8>, Seq<u8>)>,
    pub body_len: isize,
    pub keep_alive: bool,
    pub chunked: bool,
}

/// A response head in mathematical terms.
pub struct ResponseHeadView {
    pub status: u16,
    pub version: Seq<u8>,
    pub headers: Seq<(Seq<u8>, Seq<u8>)>,
    pub body_len: isize,
    pub chunked: bool,
}

pub open spec fn headers_view(hs: Seq<HeaderPair>) -> Seq<(Seq<u8>, Seq<u8>)> {
    hs.map_values(|p: HeaderPair| pair_view(p))
}

impl View for RequestHead {
    type V = RequestHeadView;

    open spec fn view(&self) -> RequestHeadView {
        RequestHeadView {
            method: self.method@,
            path: self.path@,
            version: self.version@,
            headers: headers_view(self.headers@),
            body_len: self.body_len,
            keep_alive: self.keep_alive,
            chunked: self.chunked,
        }
    }
}

impl View for ResponseHead {
    type V = ResponseHeadView;

    open spec fn view(&self) -> ResponseHeadView {
        ResponseHeadView {
            status: self.status,
            version: self.version@,
            headers: headers_view(self.headers@),
            body_len: self.body_len,
            chunked: self.chunked,
        }
    }
}

/// What webparse's request parser makes of the bytes at the front of a
/// buffer: the head and how many bytes it took, or the kind of refusal.
pub uninterp spec fn request_head_of(buf: Seq<u8>) -> Result<(RequestHeadView, nat), WebFault>;

/// What webparse's response parser makes of the bytes at the front of a
/// buffer: the head and how many bytes it took, or the kind of refusal.
pub uninterp spec fn response_head_of(buf: Seq<u8>) -> Result<(ResponseHeadView, nat), WebFault>;

pub open spec fn request_parse_view(r: Result<(RequestHead, usize), WebFault>) -> Result<(RequestHeadView, nat), WebFault> {
    match r {
        Ok((h, n)) => Ok((h@, n as nat)),
        Err(e) => Err(e),
    }
}

pub open spec fn response_parse_view(r: Result<(ResponseHead, usize), WebFault>) -> Result<(ResponseHeadView, nat), WebFault> {
    match r {
        Ok((h, n)) => Ok((h@, n as nat)),
        Err(e) => Err(e),
    }
}

/// `Request::parse_buffer` of webparse on the bytes, the parsed request
/// taken apart into plain values. Claimed: the outcome is
/// [`request_head_of`] of the bytes, and a head never takes more bytes than
/// there are. A refusal that asks for more bytes is `Partial`, any other
/// `Other`.
#[verifier::external_body]
pub(crate) fn parse_request_head(buf: &[u8]) -> (r: Result<(RequestHead, usize), WebFault>)
    ensures
        request_parse_view(r) == request_head_of(buf@),
        r matches Ok((_, n)) ==> n <= buf@.len(),
{
    let (mut req, mut bytes) = (Request::new(), buf);
    match req.parse_buffer(&mut bytes) {
        Ok(n) => Ok((RequestHead {
            method: req.method().as_str().into(), path: req.path().as_bytes().to_vec(),
            version: req.version().as_str().into(),
            headers: req.headers().iter().map(|(k, v)| pair_of(k.as_bytes(), v.as_bytes())).collect(),
            body_len: req.get_body_len(), keep_alive: req.is_keep_alive(), chunked: req.headers().is_chunked(),
        }, n)),
        Err(e) if e.is_partial() => Err(WebFault::Partial),
        Err(_) => Err(WebFault::Other),
    }
}

/// `Response::parse_buffer` of webparse on the bytes, the parsed response
/// taken apart into plain values. Claimed: the outcome is
/// [`response_head_of`] of the bytes, and a head never takes more bytes
/// than there are. A refusal that asks for more bytes is `Partial`, any
/// other `Other`.
#[verifier::external_body]
pub(crate) fn parse_response_head(buf: &[u8]) -> (r: Result<(ResponseHead, usize), WebFault>)
    ensures
        response_parse_view(r) == response_head_of(buf@),
        r matches Ok((_, n)) ==> n <= buf@.len(),
{
    let (mut res, mut bytes) = (Response::new(()), buf);
    match res.parse_buffer(&mut bytes) {
        Ok(n) => Ok((ResponseHead {
            status: res.status().as_u16(), version: res.version().as_str().into(),
            headers: res.headers().iter().map(|(k, v)| pair_of(k.as_bytes(), v.as_bytes())).collect(),
            body_len: res.get_body_len(), chunked: res.headers().is_chunked(),
        }, n)),
        Err(e) if e.is_partial() => Err(WebFault::Partial),
        Err(_) => Err(WebFault::Other),
    }
}

/// The value of the first header named `name` (names compared without
/// regard to ASCII case).
pub open spec fn first_header_value(hs: Seq<(Seq<u8>, Seq<u8>)>, name: Seq<u8>) -> Option<Seq<u8>>
    decreases hs.len(),
{
    if hs.len() == 0 {
        None
    } else if eq_ignore_ascii_case(hs[0].0, name) {
        Some(hs[0].1)
    } else {
        first_header_value(hs.drop_first(), name)
    }
}

/// `Content-Encoding`
pub open spec fn content_encoding_name() -> Seq<u8> {
    seq![67u8, 111u8, 110u8, 116u8, 101u8, 110u8, 116u8, 45u8, 69u8, 110u8, 99u8, 111u8, 100u8, 105u8, 110u8, 103u8]
}

/// The compression method that a message's `Content-Encoding` header names.
pub open spec fn head_compress_method(hs: Seq<(Seq<u8>, Seq<u8>)>) -> i8 {
    spec_compress_method(first_header_value(hs, content_encoding_name()))
}

/// The compression method that the `Content-Encoding` header among
/// `headers` names (the first such header counts).
pub fn compress_method_of(headers: &Vec<HeaderPair>) -> (r: i8)
    ensures
        r == head_compress_method(headers_view(headers@)),
{
    let name: [u8; 16] = [67, 111, 110, 116, 101, 110, 116, 45, 69, 110, 99, 111, 100, 105, 110, 103];
    assert(name@ =~= content_encoding_name());
    let ghost hs = headers_view(headers@);
    assert(hs.skip(0) =~= hs);
    let mut i: usize = 0;
    while i < headers.len()
        invariant
            hs == headers_view(headers@),
            name@ == content_encoding_name(),
            i <= headers@.len(),
            first_header_value(hs.skip(i as int), name@) == first_header_value(hs, name@),
        decreases headers@.len() - i,
    {
        let h = &headers[i];
        proof {
            let rest = hs.skip(i as int);
            assert(rest[0] == pair_view(headers@[i as int]));
            assert(rest.drop_first() =~= hs.skip(i + 1));
        }
        if eq_bytes_ignore_ascii_case(h.name.as_slice(), &name) {
            return HeaderHelper::get_compress_method(Some(h.value.as_slice()));
        }
        i = i + 1;
    }
    assert(hs.skip(i as int).len() == 0);
    HeaderHelper::get_compress_method(None)
}

/// `GET`, `HEAD`, `OPTIONS` and `CONNECT` requests carry no body; any
/// other method may.
pub open spec fn method_may_have_body(m: Seq<u8>) -> bool {
    !(m == seq![71u8, 69u8, 84u8] || m == seq![72u8, 69u8, 65u8, 68u8]
        || m == seq![79u8, 80u8, 84u8, 73u8, 79u8, 78u8, 83u8]
        || m == seq![67u8, 79u8, 78u8, 78u8, 69u8, 67u8, 84u8])
}

pub fn method_has_body(m: &[u8]) -> (r: bool)
    ensures
        r == method_may_have_body(m@),
{
    let get: [u8; 3] = [71, 69, 84];
    let head: [u8; 4] = [72, 69, 65, 68];
    let options: [u8; 7] = [79, 80, 84, 73, 79, 78, 83];
    let connect: [u8; 7] = [67, 79, 78, 78, 69, 67, 84];
    assert(get@ =~= seq![71u8, 69u8, 84u8]);
    assert(head@ =~= seq![72u8, 69u8, 65u8, 68u8]);
    assert(options@ =~= seq![79u8, 80u8, 84u8, 73u8, 79u8, 78u8, 83u8]);
    assert(connect@ =~= seq![67u8, 79u8, 78u8, 78u8, 69u8, 67u8, 84u8]);
    !(bytes_equal(m, &get) || bytes_equal(m, &head) || bytes_equal(m, &options) || bytes_equal(m, &connect))
}


/// What reading a request head from the connection came to.
pub enum RequestStep {
    /// The head is not complete yet: wait for more bytes.
    NeedMore,
    /// The bytes are the HTTP/2 connection preface: the connection switches
    /// to HTTP/2.
    UpgradeHttp2,
    /// The head, or the start of its body, was refused.
    Fail(ProtError),
    /// A request: its head, the start of its body, and whether more of the
    /// body will be forwarded later.
    Request(RequestHead, RecvStream, bool),
}

/// What reading a response head from the connection came to.
pub enum ResponseStep {
    /// The head is not complete yet: wait for more bytes.
    NeedMore,
    /// The peer closed the connection before a complete head arrived.
    Closed,
    /// The head, or the start of its body, was refused.
    Fail(ProtError),
    /// A response: its head, the start of its body, and whether more of the
    /// body will be forwarded later.
    Response(ResponseHead, RecvStream, bool),
}

/// Does the buffer start with the HTTP/2 connection preface?
pub open spec fn starts_with_preface(read: Seq<u8>) -> bool {
    read.len() >= 24 && read.take(24) == http2_magic()
}

/// The reading progress of a message whose body was read in full.
pub open spec fn read_cleared(s: SendStatus) -> SendStatus {
    SendStatus { is_read_finish: false, is_read_header_end: false, left_read_body_len: 0, is_chunked: false, ..s }
}

/// The decoder once a head of `n` bytes was taken off its buffer: a new
/// body begins.
pub open spec fn head_taken(sv: SendView, n: nat) -> SendView {
    SendView { read: sv.read.skip(n as int), end_headers: true, end: false, chunked: false, left: 0, ..sv }
}

/// Reading a request head: on `parsed` (what the parser made of the
/// buffer), from connection `c` and decoder `sv` to connection `c2`,
/// decoder `sv2` and outcome `r`. A partial head waits; a refused one
/// switches to HTTP/2 when the buffer holds the HTTP/2 preface and fails
/// otherwise; a complete one is taken off the buffer, sets up the reading
/// of its body as its head plans it (`Content-Length` bytes, chunked, or
/// none) and comes out with the first part of its body, whose
/// compression is the one its `Content-Encoding` names. A body that is
/// already complete ends the request's reading.
pub open spec fn request_step_spec(
    c: ConnectionInfo,
    sv: SendView,
    parsed: Result<(RequestHeadView, nat), WebFault>,
    c2: ConnectionInfo,
    sv2: SendView,
    r: RequestStep,
) -> bool {
    match parsed {
        Err(f) => {
            &&& c2 == c
            &&& sv2 == sv
            &&& if f == WebFault::Partial {
                r is NeedMore
            } else if starts_with_preface(sv.read) {
                r is UpgradeHttp2
            } else {
                r == RequestStep::Fail(ProtError::Web(f))
            }
        },
        Ok((h, n)) => {
            let c1 = spec_on_request_head(c, h.keep_alive, h.body_len, method_may_have_body(h.method), h.chunked);
            let (sv1, res, o) = spec_build_recv(c1.req_status, head_taken(sv, n));
            match res {
                None => {
                    &&& r matches RequestStep::Fail(e) && outcome_of(Err(e)) == o
                    &&& c2 == c1
                    &&& sv2 == sv1
                },
                Some((bv, more)) => {
                    &&& r matches RequestStep::Request(h2, b, m) && h2@ == h && m == more
                        && b@ == (RecvView { origin: head_compress_method(h.headers), now: Consts::COMPRESS_METHOD_NONE, ..bv })
                    &&& if bv.end {
                        &&& c2 == (ConnectionInfo { req_status: read_cleared(c1.req_status), ..c1 })
                        &&& sv2 == (SendView { end_headers: false, ..sv1 })
                    } else {
                        &&& c2 == c1
                        &&& sv2 == sv1
                    }
                },
            }
        },
    }
}

/// Reading a response head: as for a request, but a connection that the
/// peer `closed` is marked to close, and then a partial head ends it; a
/// refused head fails; the body plan follows the status (a successful one
/// without a length is read to the end, or chunked), and a complete body
/// ends only the response's reading.
pub open spec fn response_step_spec(
    c: ConnectionInfo,
    sv: SendView,
    parsed: Result<(ResponseHeadView, nat), WebFault>,
    closed: bool,
    c2: ConnectionInfo,
    sv2: SendView,
    r: ResponseStep,
) -> bool {
    let c0 = if closed { ConnectionInfo { is_delay_close: true, ..c } } else { c };
    match parsed {
        Err(f) => {
            &&& c2 == c0
            &&& sv2 == sv
            &&& if f == WebFault::Partial {
                if c0.is_delay_close { r is Closed } else { r is NeedMore }
            } else {
                r == ResponseStep::Fail(ProtError::Web(f))
            }
        },
        Ok((h, n)) => {
            let c1 = spec_on_response_head(c0, h.body_len, 200 <= h.status < 300, h.chunked);
            let (sv1, res, o) = spec_build_recv(c1.res_status, head_taken(sv, n));
            &&& sv2 == sv1
            &&& match res {
                None => {
                    &&& r matches ResponseStep::Fail(e) && outcome_of(Err(e)) == o
                    &&& c2 == c1
                },
                Some((bv, more)) => {
                    &&& r matches ResponseStep::Response(h2, b, m) && h2@ == h && m == more
                        && b@ == (RecvView { origin: head_compress_method(h.headers), now: Consts::COMPRESS_METHOD_NONE, ..bv })
                    &&& c2 == if bv.end { ConnectionInfo { res_status: read_cleared(c1.res_status), ..c1 } } else { c1 }
                },
            }
        },
    }
}

/// The body plan of a request head: a `Content-Length` of `k > 0` bytes
/// is read as exactly those bytes (the body ends once `k` bytes were
/// decoded and more follows while it has not); without a length, a method
/// that may carry a body (not GET, HEAD, OPTIONS or CONNECT) is read to
/// the end, or chunked; a method without a body has an empty one.
pub proof fn law_request_body_plan(
    c: ConnectionInfo,
    sv: SendView,
    h: RequestHeadView,
    n: nat,
    c2: ConnectionInfo,
    sv2: SendView,
    r: RequestStep,
)
    requires
        request_step_spec(c, sv, Ok((h, n)), c2, sv2, r),
    ensures
        h.body_len > 0 ==> (r matches RequestStep::Request(_, b, more) ==> more && (!b@.end ==> c2.req_status.left_read_body_len == h.body_len)),
        h.body_len == 0 && method_may_have_body(h.method) ==> (r matches RequestStep::Request(_, b, more) ==> more
            && sv2.chunked == (h.chunked || c.req_status.is_chunked)
            && (!b@.end ==> c2.req_status.left_read_body_len == usize::MAX)),
        h.body_len == 0 && !method_may_have_body(h.method) ==> (r matches RequestStep::Request(_, b, more) ==> !more && b@.end
            && b@.read is None),
{
}

/// The body plan of a response head without `Content-Length`: any
/// successful status (200 to 299) is read to the end of the connection, or
/// chunked when its `Transfer-Encoding` (or the reading so far) says so,
/// so more of the body always follows and, while it has not ended, the
/// connection expects all bytes; any other status has no body.
pub proof fn law_response_body_plan(
    c: ConnectionInfo,
    sv: SendView,
    h: ResponseHeadView,
    n: nat,
    closed: bool,
    c2: ConnectionInfo,
    sv2: SendView,
    r: ResponseStep,
)
    requires
        h.body_len == 0,
        response_step_spec(c, sv, Ok((h, n)), closed, c2, sv2, r),
    ensures
        200 <= h.status <= 299 ==> (r matches ResponseStep::Response(_, b, more) ==> {
            &&& more
            &&& sv2.chunked == (h.chunked || c.res_status.is_chunked)
            &&& !b@.end ==> c2.res_status.left_read_body_len == usize::MAX
                && c2.res_status.is_chunked == (h.chunked || c.res_status.is_chunked)
        }),
        !(200 <= h.status <= 299) ==> (r matches ResponseStep::Response(_, b, more) ==> !more && b@.end
            && b@.read is None),
{
}

impl ConnectionInfo {
    /// Goes on from what the parser made of the decoder's buffer (see
    /// [`request_step_spec`]); a complete request keeps its head as parsed.
    pub fn poll_request_step(
        &mut self,
        send_stream: &mut SendStream,
        head: Result<(RequestHead, usize), WebFault>,
    ) -> (r: RequestStep)
        requires
            head matches Ok((_, n)) ==> n <= old(send_stream)@.read.len(),
        ensures
            request_step_spec(*old(self), old(send_stream)@, request_parse_view(head), *final(self), final(send_stream)@, r),
            r matches RequestStep::Request(h2, _, _) ==> head == Ok::<(RequestHead, usize), WebFault>((h2, (head->Ok_0).1)),
    {
        match head {
            Err(WebFault::Partial) => RequestStep::NeedMore,
            Err(f) => {
                if is_http2_preface(send_stream.read_bytes()) {
                    RequestStep::UpgradeHttp2
                } else {
                    RequestStep::Fail(ProtError::Web(f))
                }
            },
            Ok((h, n)) => {
                send_stream.set_new_body();
                send_stream.advance_read(n);
                let method = compress_method_of(&h.headers);
                let has_body = method_has_body(h.method.as_slice());
                self.on_request_head(h.keep_alive, h.body_len, has_body, h.chunked);
                let status = self.req_status;
                match build_recv_stream(&status, send_stream) {
                    Err(e) => RequestStep::Fail(e),
                    Ok((mut recv, more)) => {
                        recv.set_origin_compress_method(method);
                        if recv.is_end() {
                            self.read_finished(true, send_stream);
                        }
                        RequestStep::Request(h, recv, more)
                    },
                }
            },
        }
    }

    /// Reads a request head from the front of the decoder's buffer and goes
    /// on as [`request_step_spec`] says, on what webparse's parser made of
    /// the buffer.
    pub fn poll_request(&mut self, send_stream: &mut SendStream) -> (r: RequestStep)
        ensures
            request_step_spec(*old(self), old(send_stream)@, request_head_of(old(send_stream)@.read), *final(self), final(send_stream)@, r),
    {
        let head = parse_request_head(send_stream.read_bytes());
        self.poll_request_step(send_stream, head)
    }

    /// Goes on from what the parser made of the decoder's buffer (see
    /// [`response_step_spec`]); a complete response keeps its head as
    /// parsed.
    pub fn poll_response_step(
        &mut self,
        send_stream: &mut SendStream,
        head: Result<(ResponseHead, usize), WebFault>,
        closed: bool,
    ) -> (r: ResponseStep)
        requires
            head matches Ok((_, n)) ==> n <= old(send_stream)@.read.len(),
        ensures
            response_step_spec(*old(self), old(send_stream)@, response_parse_view(head), closed, *final(self), final(send_stream)@, r),
            r matches ResponseStep::Response(h2, _, _) ==> head == Ok::<(ResponseHead, usize), WebFault>((h2, (head->Ok_0).1)),
    {
        if closed {
            self.is_delay_close = true;
        }
        match head {
            Err(WebFault::Partial) => {
                if self.is_delay_close {
                    ResponseStep::Closed
                } else {
                    ResponseStep::NeedMore
                }
            },
            Err(f) => ResponseStep::Fail(ProtError::Web(f)),
            Ok((h, n)) => {
                send_stream.set_new_body();
                send_stream.advance_read(n);
                let method = compress_method_of(&h.headers);
                let success = 200 <= h.status && h.status < 300;
                self.on_response_head(h.body_len, success, h.chunked);
                let status = self.res_status;
                match build_recv_stream(&status, send_stream) {
                    Err(e) => ResponseStep::Fail(e),
                    Ok((mut recv, more)) => {
                        recv.set_origin_compress_method(method);
                        if recv.is_end() {
                            self.res_status.clear_read();
                        }
                        ResponseStep::Response(h, recv, more)
                    },
                }
            },
        }
    }

    /// Reads a response head from the front of the decoder's buffer and
    /// goes on as [`response_step_spec`] says, on what webparse's parser
    /// made of the buffer; `closed` tells that the peer closed the
    /// connection.
    pub fn poll_response(&mut self, send_stream: &mut SendStream, closed: bool) -> (r: ResponseStep)
        ensures
            response_step_spec(*old(self), old(send_stream)@, response_head_of(old(send_stream)@.read), closed, *final(self), final(send_stream)@, r),
    {
        let head = parse_response_head(send_stream.read_bytes());
        self.poll_response_step(send_stream, head, closed)
    }
}

} // verus!
