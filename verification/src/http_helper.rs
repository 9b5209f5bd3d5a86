use vstd::prelude::*;

use crate::consts::Consts;
use crate::header_helper::{br_token, deflate_token, gzip_token};
use crate::helper::{contains_bytes, contains_bytes_spec};

verus! {

/// The encodings that a request accepts (its `Accept-Encoding` header).
#[derive(Debug, Clone, Copy, PartialEq, Eq)]
pub struct AcceptEncoding {
    pub gzip: bool,
    pub deflate: bool,
    pub br: bool,
}

pub open spec fn spec_accept_encoding(accept: Option<Seq<u8>>) -> AcceptEncoding {
    match accept {
        Some(v) => AcceptEncoding {
            gzip: contains_bytes_spec(v, gzip_token()),
            deflate: contains_bytes_spec(v, deflate_token()),
            br: contains_bytes_spec(v, br_token()),
        },
        None => AcceptEncoding { gzip: false, deflate: false, br: false },
    }
}

/// The encoding chosen for a response: only a response whose length is not
/// declared, that has no `Content-Encoding` yet, and whose body is still
/// streaming or holds more than 1024 bytes is compressed; gzip is preferred,
/// then brotli, then deflate.
pub open spec fn spec_response_encoding(
    accept: AcceptEncoding,
    body_len: isize,
    has_content_encoding: bool,
    body_is_end: bool,
    origin_len: nat,
) -> Option<i8> {
    if body_len == 0 && !has_content_encoding && (!body_is_end || origin_len > 1024) {
        if accept.gzip {
            Some(Consts::COMPRESS_METHOD_GZIP)
        } else if accept.br {
            Some(Consts::COMPRESS_METHOD_BROTLI)
        } else if accept.deflate {
            Some(Consts::COMPRESS_METHOD_DEFLATE)
        } else {
            None
        }
    } else {
        None
    }
}

/// Which encoding a response gets: it is compressed exactly when its
/// length is not declared, it has no `Content-Encoding` yet, its body is
/// still streaming or holds more than 1024 bytes, and the request accepts
/// one of the three encodings; gzip is then taken whenever it is accepted,
/// brotli only when gzip is not, deflate only when neither is.
pub proof fn law_encoding_preference(
    accept: AcceptEncoding,
    body_len: isize,
    has_content_encoding: bool,
    body_is_end: bool,
    origin_len: nat,
)
    ensures
        ({
            let r = spec_response_encoding(accept, body_len, has_content_encoding, body_is_end, origin_len);
            &&& r is Some <==> (body_len == 0 && !has_content_encoding && (!body_is_end || origin_len > 1024)
                && (accept.gzip || accept.br || accept.deflate))
            &&& accept.gzip && r is Some ==> r == Some(Consts::COMPRESS_METHOD_GZIP)
            &&& !accept.gzip && accept.br && r is Some ==> r == Some(Consts::COMPRESS_METHOD_BROTLI)
            &&& !accept.gzip && !accept.br && r is Some ==> r == Some(Consts::COMPRESS_METHOD_DEFLATE)
        }),
{
}

/// Decisions taken while a server answers a request.
pub struct HttpHelper;

impl HttpHelper {
    /// Reads an `Accept-Encoding` value.
    pub fn accept_encoding(accept: Option<&[u8]>) -> (r: AcceptEncoding)
        ensures
            r == spec_accept_encoding(
                match accept {
                    Some(v) => Some(v@),
                    None => None,
                },
            ),
    {
        match accept {
            Some(value) => {
                let gzip: [u8; 4] = [103, 122, 105, 112];
                let deflate: [u8; 7] = [100, 101, 102, 108, 97, 116, 101];
                let br: [u8; 2] = [98, 114];
                proof {
                    assert(gzip@ =~= gzip_token());
                    assert(deflate@ =~= deflate_token());
                    assert(br@ =~= br_token());
                }
                AcceptEncoding {
                    gzip: contains_bytes(value, &gzip),
                    deflate: contains_bytes(value, &deflate),
                    br: contains_bytes(value, &br),
                }
            },
            None => AcceptEncoding { gzip: false, deflate: false, br: false },
        }
    }

    /// Chooses the `Content-Encoding` to give a response (as a compression
    /// method code), or none.
    pub fn response_encoding(
        accept: AcceptEncoding,
        body_len: isize,
        has_content_encoding: bool,
        body_is_end: bool,
        origin_len: usize,
    ) -> (r: Option<i8>)
        ensures
            r == spec_response_encoding(accept, body_len, has_content_encoding, body_is_end, origin_len as nat),
            accept.gzip && r is Some ==> r == Some(Consts::COMPRESS_METHOD_GZIP),
            !accept.gzip && accept.br && r is Some ==> r == Some(Consts::COMPRESS_METHOD_BROTLI),
            !accept.gzip && !accept.br && r is Some ==> r == Some(Consts::COMPRESS_METHOD_DEFLATE),
    {
        if body_len == 0 && !has_content_encoding && (!body_is_end || origin_len > 1024) {
            if accept.gzip {
                Some(Consts::COMPRESS_METHOD_GZIP)
            } else if accept.br {
                Some(Consts::COMPRESS_METHOD_BROTLI)
            } else if accept.deflate {
                Some(Consts::COMPRESS_METHOD_DEFLATE)
            } else {
                None
            }
        } else {
            None
        }
    }
}

/// Where the answering of a request stands.
#[derive(Debug, Clone, Copy, PartialEq, Eq, Structural)]
pub enum HandlePhase {
    /// The callback's own preparation of the request runs.
    Preparing,
    /// Middleware `index` looks at the request.
    Requests,
    /// The callback makes the response.
    Operating,
    /// Middleware `index` is told of the callback's error.
    Reporting,
    /// The error answer (status 500) is being made.
    ServerError,
    /// Middleware `index` looks at the response.
    Responses,
    /// The exchange is over.
    Finished,
}

/// The answering of one request by a server with `count` middlewares.
#[derive(Debug, Clone, Copy, PartialEq, Eq, Structural)]
pub struct HandleState {
    pub phase: HandlePhase,
    pub index: usize,
    pub count: usize,
}

/// What the last action came to.
#[derive(Debug, Clone, Copy, PartialEq, Eq, Structural)]
pub enum HandleEvent {
    /// It finished without an answer of its own.
    Done,
    /// A middleware answered the request itself.
    Answered,
    /// The callback failed to make a response.
    Refused,
    /// It failed: the exchange ends with that error.
    Failed,
}

/// What to do next.
#[derive(Debug, Clone, Copy, PartialEq, Eq, Structural)]
pub enum HandleAction {
    /// Let the callback prepare the request with the middlewares.
    Prepare,
    /// Hand the request to middleware `i`.
    ProcessRequest(usize),
    /// Ask the callback for the response.
    Operate,
    /// Tell middleware `i` of the callback's error.
    ReportError(usize),
    /// Answer with this status (500) and the body
    /// [`HttpHelper::server_error_body`].
    AnswerServerError { status: u16 },
    /// Hand the response to middleware `i`.
    ProcessResponse(usize),
    /// Send the response.
    Respond,
    /// End with the error.
    Fail,
}

/// The response goes through the middlewares from the last to the first.
pub open spec fn spec_responses_start(s: HandleState) -> (HandleState, HandleAction) {
    if s.count > 0 {
        (HandleState { phase: HandlePhase::Responses, index: (s.count - 1) as usize, ..s }, HandleAction::ProcessResponse((s.count - 1) as usize))
    } else {
        (HandleState { phase: HandlePhase::Finished, index: 0, ..s }, HandleAction::Respond)
    }
}

/// One decision of a server answering a request: the callback prepares the
/// request, the middlewares see it in order until one answers it; without
/// such an answer the callback makes the response, and when it fails every
/// middleware is told of the error, in order, and the answer is a 500;
/// the response then goes through the middlewares in reverse order. Any
/// failure ends the exchange with it.
pub open spec fn spec_handle_step(s: HandleState, ev: HandleEvent) -> (HandleState, HandleAction) {
    let fail = (HandleState { phase: HandlePhase::Finished, index: 0, ..s }, HandleAction::Fail);
    if ev == HandleEvent::Failed {
        fail
    } else {
        match s.phase {
            HandlePhase::Preparing => if ev == HandleEvent::Done {
                if s.count > 0 {
                    (HandleState { phase: HandlePhase::Requests, index: 0, ..s }, HandleAction::ProcessRequest(0))
                } else {
                    (HandleState { phase: HandlePhase::Operating, index: 0, ..s }, HandleAction::Operate)
                }
            } else {
                fail
            },
            HandlePhase::Requests => if ev == HandleEvent::Done {
                if s.index + 1 < s.count {
                    (HandleState { index: (s.index + 1) as usize, ..s }, HandleAction::ProcessRequest((s.index + 1) as usize))
                } else {
                    (HandleState { phase: HandlePhase::Operating, index: 0, ..s }, HandleAction::Operate)
                }
            } else if ev == HandleEvent::Answered {
                spec_responses_start(s)
            } else {
                fail
            },
            HandlePhase::Operating => if ev == HandleEvent::Done {
                spec_responses_start(s)
            } else if ev == HandleEvent::Refused {
                if s.count > 0 {
                    (HandleState { phase: HandlePhase::Reporting, index: 0, ..s }, HandleAction::ReportError(0))
                } else {
                    (HandleState { phase: HandlePhase::ServerError, index: 0, ..s }, HandleAction::AnswerServerError { status: 500 })
                }
            } else {
                fail
            },
            HandlePhase::Reporting => if ev == HandleEvent::Done {
                if s.index + 1 < s.count {
                    (HandleState { index: (s.index + 1) as usize, ..s }, HandleAction::ReportError((s.index + 1) as usize))
                } else {
                    (HandleState { phase: HandlePhase::ServerError, index: 0, ..s }, HandleAction::AnswerServerError { status: 500 })
                }
            } else {
                fail
            },
            HandlePhase::ServerError => if ev == HandleEvent::Done {
                spec_responses_start(s)
            } else {
                fail
            },
            HandlePhase::Responses => if ev == HandleEvent::Done {
                if s.index > 0 {
                    (HandleState { index: (s.index - 1) as usize, ..s }, HandleAction::ProcessResponse((s.index - 1) as usize))
                } else {
                    (HandleState { phase: HandlePhase::Finished, index: 0, ..s }, HandleAction::Respond)
                }
            } else {
                fail
            },
            HandlePhase::Finished => fail,
        }
    }
}

/// The index stays below the number of middlewares while one is being
/// consulted.
pub open spec fn handle_state_wf(s: HandleState) -> bool {
    (s.phase == HandlePhase::Requests || s.phase == HandlePhase::Reporting || s.phase == HandlePhase::Responses)
        ==> s.index < s.count
}

/// `server inner error`
pub open spec fn server_error_text() -> Seq<u8> {
    seq![115u8, 101u8, 114u8, 118u8, 101u8, 114u8, 32u8, 105u8, 110u8, 110u8, 101u8, 114u8, 32u8, 101u8, 114u8, 114u8, 111u8, 114u8]
}

impl HandleState {
    /// A request arrives at a server with `count` middlewares: the callback
    /// prepares it first.
    pub fn new(count: usize) -> (r: (HandleState, HandleAction))
        ensures
            r == (HandleState { phase: HandlePhase::Preparing, index: 0, count }, HandleAction::Prepare),
            handle_state_wf(r.0),
    {
        (HandleState { phase: HandlePhase::Preparing, index: 0, count }, HandleAction::Prepare)
    }
}

impl HttpHelper {
    /// Takes the next decision of answering a request (see
    /// [`spec_handle_step`]).
    pub fn handle_step(s: &mut HandleState, ev: HandleEvent) -> (r: HandleAction)
        requires
            handle_state_wf(*old(s)),
        ensures
            (*final(s), r) == spec_handle_step(*old(s), ev),
            handle_state_wf(*final(s)),
    {
        let fail = HandleState { phase: HandlePhase::Finished, index: 0, ..*s };
        if ev == HandleEvent::Failed {
            *s = fail;
            return HandleAction::Fail;
        }
        let (t, a) = match s.phase {
            HandlePhase::Preparing => if ev == HandleEvent::Done {
                if s.count > 0 {
                    (HandleState { phase: HandlePhase::Requests, index: 0, ..*s }, HandleAction::ProcessRequest(0))
                } else {
                    (HandleState { phase: HandlePhase::Operating, index: 0, ..*s }, HandleAction::Operate)
                }
            } else {
                (fail, HandleAction::Fail)
            },
            HandlePhase::Requests => if ev == HandleEvent::Done {
                if s.index + 1 < s.count {
                    (HandleState { index: s.index + 1, ..*s }, HandleAction::ProcessRequest(s.index + 1))
                } else {
                    (HandleState { phase: HandlePhase::Operating, index: 0, ..*s }, HandleAction::Operate)
                }
            } else if ev == HandleEvent::Answered {
                Self::responses_start(*s)
            } else {
                (fail, HandleAction::Fail)
            },
            HandlePhase::Operating => if ev == HandleEvent::Done {
                Self::responses_start(*s)
            } else if ev == HandleEvent::Refused {
                if s.count > 0 {
                    (HandleState { phase: HandlePhase::Reporting, index: 0, ..*s }, HandleAction::ReportError(0))
                } else {
                    (HandleState { phase: HandlePhase::ServerError, index: 0, ..*s }, HandleAction::AnswerServerError { status: 500 })
                }
            } else {
                (fail, HandleAction::Fail)
            },
            HandlePhase::Reporting => if ev == HandleEvent::Done {
                if s.index + 1 < s.count {
                    (HandleState { index: s.index + 1, ..*s }, HandleAction::ReportError(s.index + 1))
                } else {
                    (HandleState { phase: HandlePhase::ServerError, index: 0, ..*s }, HandleAction::AnswerServerError { status: 500 })
                }
            } else {
                (fail, HandleAction::Fail)
            },
            HandlePhase::ServerError => if ev == HandleEvent::Done {
                Self::responses_start(*s)
            } else {
                (fail, HandleAction::Fail)
            },
            HandlePhase::Responses => if ev == HandleEvent::Done {
                if s.index > 0 {
                    (HandleState { index: s.index - 1, ..*s }, HandleAction::ProcessResponse(s.index - 1))
                } else {
                    (HandleState { phase: HandlePhase::Finished, index: 0, ..*s }, HandleAction::Respond)
                }
            } else {
                (fail, HandleAction::Fail)
            },
            HandlePhase::Finished => (fail, HandleAction::Fail),
        };
        *s = t;
        a
    }

    /// The body of the answer made when the callback fails.
    pub fn server_error_body() -> (r: Vec<u8>)
        ensures
            r@ == server_error_text(),
    {
        let text: [u8; 18] = [115, 101, 114, 118, 101, 114, 32, 105, 110, 110, 101, 114, 32, 101, 114, 114, 111, 114];
        let mut body: Vec<u8> = Vec::new();
        crate::helper::append_bytes(&mut body, &text);
        proof {
            assert(body@ =~= server_error_text());
        }
        body
    }

    fn responses_start(s: HandleState) -> (r: (HandleState, HandleAction))
        ensures
            r == spec_responses_start(s),
            handle_state_wf(r.0),
    {
        if s.count > 0 {
            (HandleState { phase: HandlePhase::Responses, index: s.count - 1, ..s }, HandleAction::ProcessResponse(s.count - 1))
        } else {
            (HandleState { phase: HandlePhase::Finished, index: 0, ..s }, HandleAction::Respond)
        }
    }
}

/// The actions taken on a run of events.
pub open spec fn run_handle(s: HandleState, evs: Seq<HandleEvent>) -> Seq<HandleAction>
    decreases evs.len(),
{
    if evs.len() == 0 {
        Seq::empty()
    } else {
        let (t, a) = spec_handle_step(s, evs[0]);
        seq![a] + run_handle(t, evs.drop_first())
    }
}

/// `k` events that report nothing of their own.
pub open spec fn dones(k: nat) -> Seq<HandleEvent> {
    Seq::new(k, |i: int| HandleEvent::Done)
}

proof fn lemma_response_phase_never_operates(s: HandleState, evs: Seq<HandleEvent>)
    requires
        s.phase == HandlePhase::Responses || s.phase == HandlePhase::Finished,
    ensures
        !run_handle(s, evs).contains(HandleAction::Operate),
    decreases evs.len(),
{
    if evs.len() > 0 {
        let (t, a) = spec_handle_step(s, evs[0]);
        lemma_response_phase_never_operates(t, evs.drop_first());
        let rest = run_handle(t, evs.drop_first());
        assert(run_handle(s, evs) == seq![a] + rest);
        if run_handle(s, evs).contains(HandleAction::Operate) {
            let j = choose|j: int| 0 <= j < run_handle(s, evs).len() && run_handle(s, evs)[j] == HandleAction::Operate;
            if j > 0 {
                assert(rest[j - 1] == HandleAction::Operate);
            }
        }
    }
}

/// A request that a middleware answers never reaches the callback: its
/// answer goes straight to the middlewares' response side, starting with
/// the last middleware, whatever happens after.
pub proof fn law_answered_request_skips_callback(s: HandleState, evs: Seq<HandleEvent>)
    requires
        s.phase == HandlePhase::Requests,
        handle_state_wf(s),
    ensures
        ({
            let (t, a) = spec_handle_step(s, HandleEvent::Answered);
            &&& a == HandleAction::ProcessResponse((s.count - 1) as usize)
            &&& !run_handle(t, evs).contains(HandleAction::Operate)
        }),
{
    let (t, a) = spec_handle_step(s, HandleEvent::Answered);
    lemma_response_phase_never_operates(t, evs);
}

/// While the response goes back, each middleware sees it in turn, from
/// the one being consulted down to the first, and then it is sent.
pub proof fn law_responses_in_reverse(s: HandleState)
    requires
        s.phase == HandlePhase::Responses,
        s.index < s.count,
    ensures
        run_handle(s, dones((s.index + 1) as nat)) == Seq::new(
            (s.index + 1) as nat,
            |j: int| if j < s.index { HandleAction::ProcessResponse((s.index - 1 - j) as usize) } else { HandleAction::Respond },
        ),
    decreases s.index,
{
    let evs = dones((s.index + 1) as nat);
    let (t, a) = spec_handle_step(s, HandleEvent::Done);
    let expected = Seq::new(
        (s.index + 1) as nat,
        |j: int| if j < s.index { HandleAction::ProcessResponse((s.index - 1 - j) as usize) } else { HandleAction::Respond },
    );
    assert(evs[0] == HandleEvent::Done);
    if s.index == 0 {
        assert(evs.drop_first() =~= Seq::<HandleEvent>::empty());
        assert(run_handle(t, evs.drop_first()) == Seq::<HandleAction>::empty());
        assert(run_handle(s, evs) == seq![a] + Seq::<HandleAction>::empty());
        assert(run_handle(s, evs) =~= expected);
    } else {
        assert(evs.drop_first() =~= dones((t.index + 1) as nat));
        law_responses_in_reverse(t);
        let rest = run_handle(t, evs.drop_first());
        assert(run_handle(s, evs) == seq![a] + rest);
        assert(t.index == s.index - 1);
        assert forall|j: int| 0 <= j < expected.len() implies (seq![a] + rest)[j] == expected[j] by {
            if j > 0 {
                assert((seq![a] + rest)[j] == rest[j - 1]);
            }
        }
        assert(run_handle(s, evs) =~= expected);
    }
}

/// While the request goes forward, each later middleware sees it in turn,
/// and after the last one the callback is asked for the response.
pub proof fn law_requests_in_order(s: HandleState)
    requires
        s.phase == HandlePhase::Requests,
        s.index < s.count,
    ensures
        run_handle(s, dones((s.count - s.index) as nat)) == Seq::new(
            (s.count - s.index) as nat,
            |j: int| if j < s.count - s.index - 1 { HandleAction::ProcessRequest((s.index + 1 + j) as usize) } else { HandleAction::Operate },
        ),
    decreases s.count - s.index,
{
    let k = (s.count - s.index) as nat;
    let evs = dones(k);
    let (t, a) = spec_handle_step(s, HandleEvent::Done);
    let expected = Seq::new(
        k,
        |j: int| if j < s.count - s.index - 1 { HandleAction::ProcessRequest((s.index + 1 + j) as usize) } else { HandleAction::Operate },
    );
    assert(evs[0] == HandleEvent::Done);
    if s.index + 1 == s.count {
        assert(evs.drop_first() =~= Seq::<HandleEvent>::empty());
        assert(run_handle(t, evs.drop_first()) == Seq::<HandleAction>::empty());
        assert(run_handle(s, evs) == seq![a] + Seq::<HandleAction>::empty());
        assert(run_handle(s, evs) =~= expected);
    } else {
        assert(evs.drop_first() =~= dones((t.count - t.index) as nat));
        law_requests_in_order(t);
        let rest = run_handle(t, evs.drop_first());
        assert(run_handle(s, evs) == seq![a] + rest);
        assert(t.index == s.index + 1);
        assert forall|j: int| 0 <= j < expected.len() implies (seq![a] + rest)[j] == expected[j] by {
            if j > 0 {
                assert((seq![a] + rest)[j] == rest[j - 1]);
            }
        }
        assert(run_handle(s, evs) =~= expected);
    }
}

/// When the callback fails, every middleware is told of the error once, in
/// order from the first, and then the answer with status 500 is made.
pub proof fn law_errors_reported_in_order(s: HandleState)
    requires
        s.phase == HandlePhase::Operating,
        s.count > 0,
    ensures
        ({
            let (t, a) = spec_handle_step(s, HandleEvent::Refused);
            &&& a == HandleAction::ReportError(0)
            &&& run_handle(t, dones(s.count as nat)) == Seq::new(
                s.count as nat,
                |j: int| if j < s.count - 1 { HandleAction::ReportError((1 + j) as usize) } else { (HandleAction::AnswerServerError { status: 500 }) },
            )
        }),
{
    let (t, a) = spec_handle_step(s, HandleEvent::Refused);
    lemma_reports_in_order(t);
}

proof fn lemma_reports_in_order(s: HandleState)
    requires
        s.phase == HandlePhase::Reporting,
        s.index < s.count,
    ensures
        run_handle(s, dones((s.count - s.index) as nat)) == Seq::new(
            (s.count - s.index) as nat,
            |j: int| if j < s.count - s.index - 1 { HandleAction::ReportError((s.index + 1 + j) as usize) } else { (HandleAction::AnswerServerError { status: 500 }) },
        ),
    decreases s.count - s.index,
{
    let k = (s.count - s.index) as nat;
    let evs = dones(k);
    let (t, a) = spec_handle_step(s, HandleEvent::Done);
    let expected = Seq::new(
        k,
        |j: int| if j < s.count - s.index - 1 { HandleAction::ReportError((s.index + 1 + j) as usize) } else { HandleAction::AnswerServerError { status: 500 } },
    );
    assert(evs[0] == HandleEvent::Done);
    if s.index + 1 == s.count {
        assert(evs.drop_first() =~= Seq::<HandleEvent>::empty());
        assert(run_handle(t, evs.drop_first()) == Seq::<HandleAction>::empty());
        assert(run_handle(s, evs) == seq![a] + Seq::<HandleAction>::empty());
        assert(run_handle(s, evs) =~= expected);
    } else {
        assert(evs.drop_first() =~= dones((t.count - t.index) as nat));
        lemma_reports_in_order(t);
        let rest = run_handle(t, evs.drop_first());
        assert(run_handle(s, evs) == seq![a] + rest);
        assert(t.index == s.index + 1);
        assert forall|j: int| 0 <= j < expected.len() implies (seq![a] + rest)[j] == expected[j] by {
            if j > 0 {
                assert((seq![a] + rest)[j] == rest[j - 1]);
            }
        }
        assert(run_handle(s, evs) =~= expected);
    }
}

} // verus!
