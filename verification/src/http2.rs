use std::collections::HashMap;
use vstd::prelude::*;

use crate::client::HeaderPair;
use crate::error::{Initiator, ProtError, ProtResult};

verus! {

broadcast use vstd::std_specs::hash::group_hash_axioms;

/// HTTP/2 error code NO_ERROR.
pub const NO_ERROR: u32 = 0;

/// HTTP/2 error code PROTOCOL_ERROR.
pub const PROTOCOL_ERROR: u32 = 1;

/// A connection error raised by the library with `reason`.
pub fn library_go_away(reason: u32) -> (r: ProtError)
    ensures
        (r matches ProtError::GoAway(d, code, who) && d@ == Seq::<u8>::empty() && code == reason
            && who == Initiator::Library),
{
    ProtError::GoAway(Vec::new(), reason, Initiator::Library)
}

/// Flow-control window of an HTTP/2 connection.
#[derive(Debug)]
pub struct FlowControl {
    pub window_size: i32,
    pub available: i32,
}

impl FlowControl {
    /// A window of `default` bytes, all of it available.
    pub fn new(default: u32) -> (r: FlowControl)
        ensures
            r.window_size == default as i32,
            r.available == default as i32,
    {
        FlowControl { window_size: default as i32, available: default as i32 }
    }

    /// Can data be sent now?
    pub fn is_available(&self) -> (r: bool)
        ensures
            r == (self.available > 0),
    {
        self.available > 0
    }
}

/// The stream identifiers that an endpoint hands out: every other one,
/// starting from the one given.
#[derive(Debug, Clone, Copy, PartialEq, Eq)]
pub struct StreamIds {
    pub next: u32,
}

impl StreamIds {
    /// Returns the next identifier and moves on by two.
    pub fn next_id(&mut self) -> (r: u32)
        requires
            old(self).next <= u32::MAX - 2,
        ensures
            r == old(self).next,
            final(self).next == old(self).next + 2,
    {
        let now = self.next;
        self.next = self.next + 2;
        now
    }
}

/// Stream weights and dependencies announced by the peer (PRIORITY frames).
pub struct PriorityWeights {
    pub hash_weight: HashMap<u32, u8>,
    pub hash_depend: HashMap<u32, u32>,
}

impl PriorityWeights {
    /// Only the connection (stream 0) has a weight, the highest.
    pub fn new() -> (r: PriorityWeights)
        ensures
            r.hash_weight@ == Map::<u32, u8>::empty().insert(0, 255),
            r.hash_depend@ == Map::<u32, u32>::empty(),
    {
        let mut hash_weight: HashMap<u32, u8> = HashMap::new();
        hash_weight.insert(0, 255);
        PriorityWeights { hash_weight, hash_depend: HashMap::new() }
    }

    /// Records a PRIORITY frame: stream `id` weighs `weight`; when it depends
    /// on another stream, the dependency is recorded and the stream depended
    /// on gets the highest weight.
    pub fn priority_recv(&mut self, id: u32, depend_id: u32, weight: u8)
        ensures
            if depend_id == 0 {
                &&& final(self).hash_weight@ == old(self).hash_weight@.insert(id, weight)
                &&& final(self).hash_depend@ == old(self).hash_depend@
            } else {
                &&& final(self).hash_weight@ == old(self).hash_weight@.insert(id, weight).insert(depend_id, 255)
                &&& final(self).hash_depend@ == old(self).hash_depend@.insert(id, depend_id)
            },
    {
        self.hash_weight.insert(id, weight);
        if depend_id != 0 {
            self.hash_depend.insert(id, depend_id);
            let plus = weight.wrapping_add(1);
            let next: u8 = if plus > 255 {
                plus
            } else {
                255
            };
            let current = match self.hash_weight.get(&depend_id) {
                Some(v) => Some(*v),
                None => None,
            };
            match current {
                Some(v) => {
                    let m = if v > next {
                        v
                    } else {
                        next
                    };
                    self.hash_weight.insert(depend_id, m);
                },
                None => {
                    self.hash_weight.insert(depend_id, next);
                },
            }
        }
    }

    /// The weight of a stream, 0 when none was announced.
    pub fn weight(&self, stream_id: u32) -> (r: u8)
        ensures
            r == if self.hash_weight@.contains_key(stream_id) {
                self.hash_weight@[stream_id]
            } else {
                0
            },
    {
        match self.hash_weight.get(&stream_id) {
            Some(v) => *v,
            None => 0,
        }
    }
}

/// Where the local SETTINGS stand.
pub enum LocalState<S> {
    /// To be sent.
    Send(S),
    /// Sent, waiting for the peer's acknowledgement.
    WaitAck(S),
    /// Sent and acknowledged.
    Done,
}

/// What one pass over the settings exchange asks the connection to do.
pub struct SettingsStep<S> {
    /// Send these local settings.
    pub send: Option<S>,
    /// Acknowledge and apply these settings of the peer.
    pub ack_remote: Option<S>,
    /// Wait until the connection can take a frame before going on.
    pub pending: bool,
    /// Local settings are not yet acknowledged.
    pub is_wait: bool,
}

/// The exchange of SETTINGS frames of an HTTP/2 connection.
pub struct StateSettings<S> {
    pub state: LocalState<S>,
    pub remote: Option<S>,
}

/// What a pass does to the local settings: settings to send go out and
/// await their acknowledgement; otherwise nothing changes.
pub open spec fn spec_settings_sent<S: Clone>(before: LocalState<S>, after: LocalState<S>) -> bool {
    match before {
        LocalState::Send(s) => after matches LocalState::WaitAck(u) && cloned(s, u),
        _ => after == before,
    }
}

/// What an acknowledgement does: it completes an exchange that awaited it
/// and is refused (leaving all as it was) otherwise.
pub open spec fn spec_settings_acked<S>(before: LocalState<S>, after: LocalState<S>, accepted: bool) -> bool {
    match before {
        LocalState::WaitAck(_) => accepted && after is Done,
        _ => !accepted && after == before,
    }
}

/// The exchange of local settings completes in one round: settings to be
/// sent go out on the next pass, the peer's acknowledgement then completes
/// the exchange, and a second acknowledgement is refused.
pub proof fn law_settings_exchange<S: Clone>(start: LocalState<S>, sent: LocalState<S>, acked: LocalState<S>, ok: bool, again: LocalState<S>, ok_again: bool)
    requires
        start is Send,
        spec_settings_sent(start, sent),
        spec_settings_acked(sent, acked, ok),
        spec_settings_acked(acked, again, ok_again),
    ensures
        sent is WaitAck,
        ok,
        acked is Done,
        !ok_again,
        again is Done,
{
}

impl<S: Clone> StateSettings<S> {
    /// Local settings to be sent; nothing received.
    pub fn new(settings: S) -> (r: StateSettings<S>)
        ensures
            r.state == LocalState::Send(settings),
            r.remote.is_none(),
    {
        StateSettings { state: LocalState::Send(settings), remote: None }
    }

    /// Replaces the local settings: either to be sent, or already done.
    pub fn set_settings(&mut self, setting: S, is_done: bool)
        ensures
            final(self).state == if is_done {
                LocalState::<S>::Done
            } else {
                LocalState::Send(setting)
            },
            final(self).remote == old(self).remote,
    {
        if is_done {
            self.state = LocalState::Done;
        } else {
            self.state = LocalState::Send(setting);
        }
    }

    pub fn set_settings_done(&mut self)
        ensures
            final(self).state == LocalState::<S>::Done,
            final(self).remote == old(self).remote,
    {
        self.state = LocalState::Done;
    }

    /// One pass: local settings waiting to be sent go out and await their
    /// acknowledgement; settings received from the peer are acknowledged
    /// and applied once the connection can take a frame (`codec_ready`).
    pub fn poll_handle(&mut self, codec_ready: bool) -> (r: SettingsStep<S>)
        ensures
            spec_settings_sent(old(self).state, final(self).state),
            match old(self).state {
                LocalState::Send(s) => {
                    &&& (r.send matches Some(t) && cloned(s, t))
                    &&& (final(self).state matches LocalState::WaitAck(u) && cloned(s, u))
                },
                _ => r.send.is_none() && final(self).state == old(self).state,
            },
            r.is_wait == !(old(self).state is Done),
            if old(self).remote.is_some() && !codec_ready {
                &&& r.pending
                &&& r.ack_remote.is_none()
                &&& final(self).remote == old(self).remote
            } else {
                &&& !r.pending
                &&& r.ack_remote == old(self).remote
                &&& final(self).remote.is_none()
            },
    {
        let mut is_wait = true;
        let mut send: Option<S> = None;
        match &self.state {
            LocalState::Send(settings) => {
                let out = settings.clone();
                let keep = settings.clone();
                send = Some(out);
                self.state = LocalState::WaitAck(keep);
            },
            LocalState::WaitAck(_) => {},
            LocalState::Done => {
                is_wait = false;
            },
        }
        if self.remote.is_some() && !codec_ready {
            return SettingsStep { send, ack_remote: None, pending: true, is_wait };
        }
        let ack_remote = self.remote.take();
        SettingsStep { send, ack_remote, pending: false, is_wait }
    }

    /// A SETTINGS frame arrived. An acknowledgement completes the exchange
    /// (and the local settings awaiting it are returned, to be applied); an
    /// acknowledgement that nothing awaited is a protocol error. Other
    /// settings are kept to be acknowledged; the answer says whether the
    /// local settings are done.
    pub fn recv_setting(&mut self, is_ack: bool, setting: S) -> (r: ProtResult<(bool, Option<S>)>)
        ensures
            is_ack ==> spec_settings_acked(old(self).state, final(self).state, r is Ok),
            is_ack ==> match old(self).state {
                LocalState::WaitAck(s) => {
                    &&& (r matches Ok((done, Some(t))) && done && cloned(s, t))
                    &&& final(self).state == LocalState::<S>::Done
                    &&& final(self).remote == old(self).remote
                },
                _ => {
                    &&& (r matches Err(ProtError::GoAway(d, code, who)) && d@ == Seq::<u8>::empty()
                        && code == PROTOCOL_ERROR && who == Initiator::Library)
                    &&& final(self).state == old(self).state
                    &&& final(self).remote == old(self).remote
                },
            },
            !is_ack ==> {
                &&& (r matches Ok((done, None)) && done == (old(self).state is Done))
                &&& final(self).remote == Some(setting)
                &&& final(self).state == old(self).state
            },
    {
        if is_ack {
            let applied = match &self.state {
                LocalState::WaitAck(settings) => settings.clone(),
                _ => {
                    return Err(library_go_away(PROTOCOL_ERROR));
                },
            };
            self.state = LocalState::Done;
            Ok((true, Some(applied)))
        } else {
            self.remote = Some(setting);
            let done = match &self.state {
                LocalState::Done => true,
                _ => false,
            };
            Ok((done, None))
        }
    }

    /// New local settings may only be sent once the previous ones are done.
    pub fn send_settings(&mut self, setting: S) -> (r: ProtResult<()>)
        ensures
            match old(self).state {
                LocalState::Done => r is Ok && final(self).state == LocalState::Send(setting),
                _ => r == Err::<(), ProtError>(ProtError::Extension("")) && final(self).state == old(self).state,
            },
            final(self).remote == old(self).remote,
    {
        match &self.state {
            LocalState::Done => {
                self.state = LocalState::Send(setting);
                Ok(())
            },
            _ => Err(ProtError::Extension("")),
        }
    }
}

/// The life of an HTTP/2 connection.
#[derive(Debug, Clone, Copy, PartialEq, Eq)]
pub enum ConnState {
    Open,
    /// The connection must be flushed and shut down.
    Closing(u32, Initiator),
    Closed(u32, Initiator),
}

/// What the stream of messages of a connection does in its state.
#[derive(Debug, Clone, Copy, PartialEq, Eq)]
pub enum ConnAction {
    /// Read the next message.
    Poll,
    /// Shut the connection down, then move to the given closed state.
    Shutdown(ConnState),
    /// Report how the connection ended (see [`take_error`]), then end.
    Finish(u32, Initiator),
}

impl ConnState {
    /// The step a connection takes in this state: an open one reads, a
    /// closing one shuts down and becomes closed with the same reason, a
    /// closed one reports its end.
    pub fn next_action(&self) -> (r: ConnAction)
        ensures
            match *self {
                ConnState::Open => r == ConnAction::Poll,
                ConnState::Closing(reason, who) => r == ConnAction::Shutdown(ConnState::Closed(reason, who)),
                ConnState::Closed(reason, who) => r == ConnAction::Finish(reason, who),
            },
    {
        match self {
            ConnState::Open => ConnAction::Poll,
            ConnState::Closing(reason, who) => ConnAction::Shutdown(ConnState::Closed(*reason, *who)),
            ConnState::Closed(reason, who) => ConnAction::Finish(*reason, *who),
        }
    }
}

/// What ends the error recovery of a poll: the state to move to, the error
/// to report, and a GOAWAY (reason, debug data) to send.
pub struct PollErrorStep {
    pub state: ConnState,
    pub result: ProtResult<()>,
    pub go_away: Option<(u32, Vec<u8>)>,
}

/// How a connection reacts when a poll ended without a request: the end of
/// the connection closes it quietly; a connection error closes it when the
/// same GOAWAY was already sent, and otherwise sends one; any other error
/// closes it and is reported.
pub fn handle_poll_result(state: ConnState, error: Option<ProtError>, last_goaway_reason: u32) -> (r: PollErrorStep)
    ensures
        match error {
            None => r.state == ConnState::Closing(NO_ERROR, Initiator::Library) && r.result is Ok
                && r.go_away.is_none(),
            Some(ProtError::GoAway(d, reason, who)) => if last_goaway_reason == reason {
                r.state == ConnState::Closing(reason, who) && r.result is Ok && r.go_away.is_none()
            } else {
                &&& r.state == state
                &&& r.result is Ok
                &&& (r.go_away matches Some((code, data)) && code == reason && data@ == d@)
            },
            Some(e) => r.state == ConnState::Closing(NO_ERROR, Initiator::Library) && r.result
                == Err::<(), ProtError>(e) && r.go_away.is_none(),
        },
{
    match error {
        None => PollErrorStep { state: ConnState::Closing(NO_ERROR, Initiator::Library), result: Ok(()), go_away: None },
        Some(ProtError::GoAway(debug_data, reason, initiator)) => {
            if last_goaway_reason == reason {
                PollErrorStep { state: ConnState::Closing(reason, initiator), result: Ok(()), go_away: None }
            } else {
                PollErrorStep { state, result: Ok(()), go_away: Some((reason, debug_data)) }
            }
        },
        Some(e) => PollErrorStep { state: ConnState::Closing(NO_ERROR, Initiator::Library), result: Err(e), go_away: None },
    }
}

/// The error that a closed connection reports: none when neither side had
/// one; ours when only we had one; else the peer's, with its debug data.
pub fn take_error(ours: u32, initiator: Initiator, theirs: Option<(Vec<u8>, u32)>) -> (r: ProtResult<()>)
    ensures
        ({
            let their_reason = match theirs {
                Some((_, code)) => code,
                None => NO_ERROR,
            };
            if ours == NO_ERROR && their_reason == NO_ERROR {
                r is Ok
            } else if their_reason == NO_ERROR {
                (r matches Err(ProtError::GoAway(d, code, who)) && d@ == Seq::<u8>::empty() && code
                    == ours && who == initiator)
            } else {
                (r matches Err(ProtError::GoAway(d, code, who)) && code == their_reason && who
                    == Initiator::Remote && (theirs matches Some((dd, _)) && d@ == dd@))
            }
        }),
{
    let (debug_data, their_reason) = match theirs {
        Some((d, code)) => (d, code),
        None => (Vec::new(), NO_ERROR),
    };
    if ours == NO_ERROR && their_reason == NO_ERROR {
        Ok(())
    } else if their_reason == NO_ERROR {
        Err(ProtError::GoAway(Vec::new(), ours, initiator))
    } else {
        Err(ProtError::GoAway(debug_data, their_reason, Initiator::Remote))
    }
}

/// Accounting of the body of one received stream.
#[derive(Debug, Clone, Copy, PartialEq, Eq)]
pub struct BodyCounter {
    /// Bytes announced (`usize::MAX` when the length is unknown).
    pub content_len: usize,
    /// Bytes received so far.
    pub recv_len: usize,
}

impl BodyCounter {
    /// A body announced as `body_len` bytes (0: unknown).
    pub fn new(body_len: usize) -> (r: BodyCounter)
        ensures
            r.content_len == if body_len == 0 { usize::MAX } else { body_len },
            r.recv_len == 0,
    {
        BodyCounter { content_len: if body_len == 0 { usize::MAX } else { body_len }, recv_len: 0 }
    }

    /// Counts a DATA payload of `n` bytes; having received more than
    /// announced is an error.
    pub fn receive(&mut self, n: usize) -> (r: ProtResult<()>)
        requires
            old(self).recv_len + n <= usize::MAX,
        ensures
            final(self).recv_len == old(self).recv_len + n,
            final(self).content_len == old(self).content_len,
            final(self).recv_len > final(self).content_len ==> r == Err::<(), ProtError>(ProtError::Extension("content len must not more")),
            final(self).recv_len <= final(self).content_len ==> r is Ok,
    {
        self.recv_len = self.recv_len + n;
        if self.recv_len > self.content_len {
            return Err(ProtError::Extension("content len must not more"));
        }
        Ok(())
    }
}

/// The frames of one stream gathered into a message: whether it has no
/// body (its HEADERS frame ended the stream), whether the stream ended, and
/// the DATA payloads received so far, in order.
pub struct BodyAssembly {
    pub is_nobody: bool,
    pub is_end_stream: bool,
    pub body: Vec<u8>,
}

impl BodyAssembly {
    pub fn new() -> (r: BodyAssembly)
        ensures
            !r.is_nobody,
            !r.is_end_stream,
            r.body@ == Seq::<u8>::empty(),
    {
        BodyAssembly { is_nobody: false, is_end_stream: false, body: Vec::new() }
    }

    /// A HEADERS frame: a body follows unless it ends the stream.
    pub fn on_headers(&mut self, end_stream: bool)
        ensures
            final(self).is_nobody == end_stream,
            final(self).is_end_stream == end_stream,
            final(self).body@ == old(self).body@,
    {
        self.is_nobody = end_stream;
        self.is_end_stream = end_stream;
    }

    /// A DATA frame: its payload joins the body.
    pub fn on_data(&mut self, end_stream: bool, payload: &[u8])
        ensures
            final(self).is_nobody == old(self).is_nobody,
            final(self).is_end_stream == end_stream,
            final(self).body@ == old(self).body@ + payload@,
    {
        self.is_end_stream = end_stream;
        crate::helper::append_bytes(&mut self.body, payload);
    }

    /// Any other frame on a stream being built is a protocol error.
    pub fn on_other(&self) -> (r: ProtError)
        ensures
            (r matches ProtError::GoAway(d, code, who) && d@ == Seq::<u8>::empty() && code == PROTOCOL_ERROR
                && who == Initiator::Library),
    {
        library_go_away(PROTOCOL_ERROR)
    }
}

/// The state of one stream of an HTTP/2 connection that receives a
/// message: the flags its frames carried, whether the message was built,
/// and the accounting of its body.
#[derive(Debug, Clone, Copy, PartialEq, Eq)]
pub struct InnerStream {
    pub id: u32,
    pub end_headers: bool,
    pub end_stream: bool,
    pub is_builder: bool,
    pub counter: BodyCounter,
}

impl InnerStream {
    /// A stream opened by its first frame.
    pub fn new(id: u32) -> (r: InnerStream)
        ensures
            r == (InnerStream {
                id,
                end_headers: false,
                end_stream: false,
                is_builder: false,
                counter: BodyCounter { content_len: 0, recv_len: 0 },
            }),
    {
        InnerStream { id, end_headers: false, end_stream: false, is_builder: false, counter: BodyCounter { content_len: 0, recv_len: 0 } }
    }

    /// The stream is over once its message was built, the stream ended and
    /// no frame waits to be forwarded.
    pub fn is_end(&self, frames_empty: bool) -> (r: bool)
        ensures
            r == (self.is_builder && self.end_stream && frames_empty),
    {
        self.is_builder && self.end_stream && frames_empty
    }

    /// Another frame arrived for this stream.
    pub fn note_frame(&mut self, is_end_headers: bool, is_end_stream: bool)
        ensures
            *final(self) == (InnerStream {
                end_headers: old(self).end_headers || is_end_headers,
                end_stream: old(self).end_stream || is_end_stream,
                ..*old(self)
            }),
    {
        if is_end_headers {
            self.end_headers = true;
        }
        if is_end_stream {
            self.end_stream = true;
        }
    }

    /// The message was built from the frames gathered so far (`is_request`:
    /// a request, whose stream ends where its frames said; `body_len`: the
    /// length its headers announce, 0 when unknown); answers whether the
    /// stream is over.
    pub fn finish_build(&mut self, is_request: bool, assembly_end_stream: bool, body_len: usize) -> (r: bool)
        ensures
            *final(self) == (InnerStream {
                end_stream: if is_request { assembly_end_stream } else { old(self).end_stream },
                is_builder: true,
                counter: BodyCounter { content_len: if body_len == 0 { usize::MAX } else { body_len }, recv_len: old(self).counter.recv_len },
                ..*old(self)
            }),
            r == final(self).end_stream,
    {
        if is_request {
            self.end_stream = assembly_end_stream;
        }
        self.counter.content_len = if body_len == 0 { usize::MAX } else { body_len };
        self.is_builder = true;
        self.is_end(true)
    }

    /// A frame waiting to be forwarded to the body's reader: only DATA
    /// frames may be, and their payloads must not exceed the announced
    /// length.
    pub fn forward_frame(&mut self, is_data: bool, payload_len: usize) -> (r: ProtResult<()>)
        requires
            is_data ==> old(self).counter.recv_len + payload_len <= usize::MAX,
        ensures
            !is_data ==> *final(self) == *old(self) && r == Err::<(), ProtError>(ProtError::Extension("must be data frame")),
            is_data ==> *final(self) == (InnerStream {
                counter: BodyCounter { recv_len: (old(self).counter.recv_len + payload_len) as usize, ..old(self).counter },
                ..*old(self)
            }),
            is_data ==> (r is Ok <==> old(self).counter.recv_len + payload_len <= old(self).counter.content_len),
            is_data && r is Err ==> r == Err::<(), ProtError>(ProtError::Extension("content len must not more")),
    {
        if !is_data {
            return Err(ProtError::Extension("must be data frame"));
        }
        self.counter.recv_len = self.counter.recv_len + payload_len;
        if self.counter.recv_len > self.counter.content_len {
            return Err(ProtError::Extension("content len must not more"));
        }
        Ok(())
    }
}

/// A received frame, in plain values.
#[derive(Debug)]
pub struct FrameInfo {
    pub kind: FrameType,
    pub stream_id: u32,
    pub end_headers: bool,
    pub end_stream: bool,
    /// The frame's payload (the debug data of a GOAWAY).
    pub payload: Vec<u8>,
    /// The error code a GOAWAY or RST_STREAM carries (0 for other frames).
    pub reason: u32,
}

/// A received frame in mathematical terms.
pub struct FrameView {
    pub kind: FrameType,
    pub stream_id: u32,
    pub end_headers: bool,
    pub end_stream: bool,
    pub payload: Seq<u8>,
    pub reason: u32,
}

impl View for FrameInfo {
    type V = FrameView;

    open spec fn view(&self) -> FrameView {
        FrameView {
            kind: self.kind,
            stream_id: self.stream_id,
            end_headers: self.end_headers,
            end_stream: self.end_stream,
            payload: self.payload@,
            reason: self.reason,
        }
    }
}

/// The frames stored for a stream, in arrival order.
pub open spec fn frames_view(v: Vec<FrameInfo>) -> Seq<FrameView> {
    v@.map_values(|f: FrameInfo| f@)
}

/// The streams of a connection as frames arrive: the highest stream seen,
/// the streams whose headers are complete (in order), the finished ones,
/// and the frames each open stream received.
pub struct StreamBook {
    pub last_stream_id: u32,
    pub ready_queue: Vec<u32>,
    pub finish_streams: Vec<u32>,
    pub streams: HashMap<u32, Vec<FrameInfo>>,
}

/// What [`StreamBook::record_frame`] does with a frame of stream `id`
/// (not 0): the frame is stored with its stream, which is opened by its
/// first frame; a stream that already had frames and is reported ended
/// (`is_end`) is finished, and its frames are dropped; the highest stream
/// seen moves up; a frame that completes headers queues its stream.
pub open spec fn spec_record_frame(old_book: StreamBook, frame: FrameView, is_end: bool, book: StreamBook, r: bool) -> bool {
    let id = frame.stream_id;
    let existed = old_book.streams@.contains_key(id);
    let stored = if existed { frames_view(old_book.streams@[id]).push(frame) } else { seq![frame] };
    &&& r == frame.end_headers
    &&& book.last_stream_id == if id > old_book.last_stream_id { id } else { old_book.last_stream_id }
    &&& book.ready_queue@ == if frame.end_headers { old_book.ready_queue@.push(id) } else { old_book.ready_queue@ }
    &&& if existed && is_end {
        &&& book.streams@ == old_book.streams@.remove(id)
        &&& book.finish_streams@.to_set() == old_book.finish_streams@.to_set().insert(id)
    } else {
        &&& book.streams@.contains_key(id)
        &&& frames_view(book.streams@[id]) == stored
        &&& book.streams@.remove(id) == old_book.streams@.remove(id)
        &&& book.finish_streams@ == old_book.finish_streams@
    }
}

/// Frames of streams other than 0 recorded one after the other (as
/// [`StreamBook::record_frame`] records them), none reported as ending its
/// stream: from book `b` to book `b2`.
pub open spec fn record_run(b: StreamBook, frames: Seq<FrameView>, b2: StreamBook) -> bool
    decreases frames.len(),
{
    if frames.len() == 0 {
        b2 == b
    } else {
        exists|mid: StreamBook, r: bool|
            #[trigger] spec_record_frame(b, frames[0], false, mid, r) && record_run(mid, frames.drop_first(), b2)
    }
}

/// The frames stored for stream `id` (none when it has no entry).
pub open spec fn stored_frames(b: StreamBook, id: u32) -> Seq<FrameView> {
    if b.streams@.contains_key(id) { frames_view(b.streams@[id]) } else { Seq::empty() }
}

proof fn lemma_record_run(b: StreamBook, id: u32, frames: Seq<FrameView>, b2: StreamBook)
    requires
        forall|i: int| 0 <= i < frames.len() ==> (#[trigger] frames[i]).stream_id == id,
        record_run(b, frames, b2),
    ensures
        stored_frames(b2, id) == stored_frames(b, id) + frames,
        frames.len() > 0 ==> b2.streams@.contains_key(id),
    decreases frames.len(),
{
    if frames.len() == 0 {
        assert(stored_frames(b, id) + frames =~= stored_frames(b, id));
    } else {
        let (mid, r) = choose|mid: StreamBook, r: bool|
            #[trigger] spec_record_frame(b, frames[0], false, mid, r) && record_run(mid, frames.drop_first(), b2);
        let rest = frames.drop_first();
        assert(frames[0].stream_id == id);
        assert(stored_frames(mid, id) =~= stored_frames(b, id).push(frames[0]));
        assert forall|i: int| 0 <= i < rest.len() implies (#[trigger] rest[i]).stream_id == id by {
            assert(rest[i] == frames[i + 1]);
        }
        lemma_record_run(mid, id, rest, b2);
        assert(stored_frames(b, id) + frames =~= stored_frames(b, id).push(frames[0]) + rest);
        if rest.len() == 0 {
            assert(b2 == mid);
        }
    }
}

/// The frames of a stream are kept in the order they arrived: a stream
/// that had none, sent frames that do not end it, holds exactly those
/// frames, in order.
pub proof fn law_stream_frames_in_order(b: StreamBook, id: u32, frames: Seq<FrameView>, b2: StreamBook)
    requires
        id != 0,
        !b.streams@.contains_key(id),
        frames.len() > 0,
        forall|i: int| 0 <= i < frames.len() ==> (#[trigger] frames[i]).stream_id == id,
        record_run(b, frames, b2),
    ensures
        b2.streams@.contains_key(id),
        frames_view(b2.streams@[id]) == frames,
{
    lemma_record_run(b, id, frames, b2);
    assert(Seq::<FrameView>::empty() + frames =~= frames);
}

impl StreamBook {
    pub fn new() -> (r: StreamBook)
        ensures
            r.last_stream_id == 0,
            r.ready_queue@ == Seq::<u32>::empty(),
            r.finish_streams@ == Seq::<u32>::empty(),
            r.streams@ == Map::<u32, Vec<FrameInfo>>::empty(),
    {
        StreamBook { last_stream_id: 0, ready_queue: Vec::new(), finish_streams: Vec::new(), streams: HashMap::new() }
    }

    /// A stream is finished (recorded once); its frames are dropped.
    pub fn finish_stream(&mut self, stream_id: u32)
        ensures
            final(self).finish_streams@.to_set() == old(self).finish_streams@.to_set().insert(stream_id),
            final(self).last_stream_id == old(self).last_stream_id,
            final(self).ready_queue@ == old(self).ready_queue@,
            final(self).streams@ == old(self).streams@.remove(stream_id),
    {
        self.streams.remove(&stream_id);
        if !contains_u32(&self.finish_streams, stream_id) {
            let ghost before = self.finish_streams@;
            self.finish_streams.push(stream_id);
            proof {
                assert(self.finish_streams@.to_set() =~= before.to_set().insert(stream_id)) by {
                    assert forall|x: u32| #[trigger] self.finish_streams@.contains(x) <==> (before.contains(x) || x == stream_id) by {
                        if x == stream_id {
                            assert(self.finish_streams@[self.finish_streams@.len() - 1] == x);
                        }
                        if before.contains(x) {
                            let i = choose|i: int| 0 <= i < before.len() && before[i] == x;
                            assert(self.finish_streams@[i] == x);
                        }
                    }
                }
            }
        } else {
            proof {
                assert(self.finish_streams@.to_set() =~= old(self).finish_streams@.to_set().insert(stream_id));
            }
        }
    }

    /// Reading is over when the highest stream seen is finished.
    pub fn is_read_end(&self) -> (r: bool)
        ensures
            r == self.finish_streams@.contains(self.last_stream_id),
    {
        contains_u32(&self.finish_streams, self.last_stream_id)
    }

    /// A frame arrived (`is_end`: its stream reports that it has ended);
    /// answers whether the stream's headers are now complete (see
    /// [`spec_record_frame`]). A frame of the connection itself (stream 0)
    /// belongs to no stream: nothing changes.
    pub fn record_frame(&mut self, frame: FrameInfo, is_end: bool) -> (r: bool)
        ensures
            frame.stream_id == 0 ==> !r && *final(self) == *old(self),
            frame.stream_id != 0 ==> spec_record_frame(*old(self), frame@, is_end, *final(self), r),
    {
        let stream_id = frame.stream_id;
        if stream_id == 0 {
            return false;
        }
        let is_end_headers = frame.end_headers;
        let ghost fv = frame@;
        let existed = match self.streams.remove(&stream_id) {
            Some(mut frames) => {
                let ghost before = frames@;
                frames.push(frame);
                proof {
                    assert(frames_view(frames) =~= before.map_values(|f: FrameInfo| f@).push(fv));
                }
                self.streams.insert(stream_id, frames);
                true
            },
            None => {
                let mut frames: Vec<FrameInfo> = Vec::new();
                frames.push(frame);
                proof {
                    assert(frames_view(frames) =~= seq![fv]);
                }
                self.streams.insert(stream_id, frames);
                false
            },
        };
        proof {
            assert(self.streams@.remove(stream_id) =~= old(self).streams@.remove(stream_id));
        }
        if existed && is_end {
            self.finish_stream(stream_id);
            proof {
                assert(self.streams@ =~= old(self).streams@.remove(stream_id));
            }
        }
        if stream_id > self.last_stream_id {
            self.last_stream_id = stream_id;
        }
        if is_end_headers {
            self.ready_queue.push(stream_id);
            true
        } else {
            false
        }
    }

    /// The next stream whose headers are complete, in arrival order.
    pub fn pop_ready(&mut self) -> (r: Option<u32>)
        ensures
            old(self).ready_queue@.len() == 0 ==> r.is_none() && final(self).ready_queue@ == old(self).ready_queue@,
            old(self).ready_queue@.len() > 0 ==> r == Some(old(self).ready_queue@[0])
                && final(self).ready_queue@ == old(self).ready_queue@.drop_first(),
            final(self).finish_streams@ == old(self).finish_streams@,
            final(self).last_stream_id == old(self).last_stream_id,
    {
        if self.ready_queue.len() == 0 {
            None
        } else {
            Some(self.ready_queue.remove(0))
        }
    }
}

/// Does `v` hold `x`?
pub fn contains_u32(v: &Vec<u32>, x: u32) -> (r: bool)
    ensures
        r == v@.contains(x),
{
    let mut i: usize = 0;
    while i < v.len()
        invariant
            i <= v@.len(),
            forall|j: int| 0 <= j < i ==> v@[j] != x,
        decreases v@.len() - i,
    {
        if v[i] == x {
            return true;
        }
        i = i + 1;
    }
    false
}


// ---------------------------------------------------------------------------
// Sending a request
// ---------------------------------------------------------------------------

/// ASCII lower case of a byte.
pub open spec fn ascii_lower(b: u8) -> u8 {
    if 65 <= b <= 90 { (b + 32) as u8 } else { b }
}

/// Equality of two byte strings up to ASCII case.
pub open spec fn eq_ignore_ascii_case(a: Seq<u8>, b: Seq<u8>) -> bool {
    a.len() == b.len() && forall|i: int| 0 <= i < a.len() ==> ascii_lower(#[trigger] a[i]) == ascii_lower(b[i])
}

/// Compares two header names as HTTP does, ignoring ASCII case.
pub fn eq_bytes_ignore_ascii_case(a: &[u8], b: &[u8]) -> (r: bool)
    ensures
        r == eq_ignore_ascii_case(a@, b@),
{
    if a.len() != b.len() {
        return false;
    }
    let mut i: usize = 0;
    while i < a.len()
        invariant
            a@.len() == b@.len(),
            i <= a@.len(),
            forall|j: int| 0 <= j < i ==> ascii_lower(#[trigger] a@[j]) == ascii_lower(b@[j]),
        decreases a@.len() - i,
    {
        let x = a[i];
        let y = b[i];
        let lx: u8 = if 65 <= x && x <= 90 { x + 32 } else { x };
        let ly: u8 = if 65 <= y && y <= 90 { y + 32 } else { y };
        if lx != ly {
            assert(ascii_lower(a@[i as int]) != ascii_lower(b@[i as int]));
            return false;
        }
        i = i + 1;
    }
    true
}

/// `Host`
pub open spec fn host_name() -> Seq<u8> {
    seq![72u8, 111u8, 115u8, 116u8]
}

pub open spec fn pseudo_method() -> Seq<u8> {
    seq![58u8, 109u8, 101u8, 116u8, 104u8, 111u8, 100u8]
}

pub open spec fn pseudo_path() -> Seq<u8> {
    seq![58u8, 112u8, 97u8, 116u8, 104u8]
}

pub open spec fn pseudo_scheme() -> Seq<u8> {
    seq![58u8, 115u8, 99u8, 104u8, 101u8, 109u8, 101u8]
}

pub open spec fn pseudo_authority() -> Seq<u8> {
    seq![58u8, 97u8, 117u8, 116u8, 104u8, 111u8, 114u8, 105u8, 116u8, 121u8]
}

/// A header, as name and value bytes.
pub open spec fn pair_view(p: HeaderPair) -> (Seq<u8>, Seq<u8>) {
    (p.name@, p.value@)
}

/// The request headers of `headers` that go into an HTTP/2 HEADERS frame:
/// all but `Host`, in order.
pub open spec fn kept_headers(headers: Seq<(Seq<u8>, Seq<u8>)>) -> Seq<(Seq<u8>, Seq<u8>)>
    decreases headers.len(),
{
    if headers.len() == 0 {
        Seq::empty()
    } else {
        let rest = kept_headers(headers.drop_last());
        if eq_ignore_ascii_case(headers.last().0, host_name()) {
            rest
        } else {
            rest.push(headers.last())
        }
    }
}

/// The header fields of an HTTP/2 request, in the order they are set: the
/// method and path, the scheme and authority when known, then the request's
/// own headers but `Host`.
pub open spec fn spec_request_fields(
    method: Seq<u8>,
    path: Seq<u8>,
    scheme: Seq<u8>,
    authority: Seq<u8>,
    headers: Seq<(Seq<u8>, Seq<u8>)>,
) -> Seq<(Seq<u8>, Seq<u8>)> {
    seq![(pseudo_method(), method), (pseudo_path(), path)]
        + (if scheme.len() > 0 { seq![(pseudo_scheme(), scheme)] } else { Seq::empty() })
        + (if authority.len() > 0 { seq![(pseudo_authority(), authority)] } else { Seq::empty() })
        + kept_headers(headers)
}

/// A header whose name is not `Host` (in any case).
pub open spec fn not_host() -> spec_fn((Seq<u8>, Seq<u8>)) -> bool {
    |p: (Seq<u8>, Seq<u8>)| !eq_ignore_ascii_case(p.0, host_name())
}

proof fn lemma_kept_is_filter(headers: Seq<(Seq<u8>, Seq<u8>)>)
    ensures
        kept_headers(headers) == headers.filter(not_host()),
    decreases headers.len(),
{
    reveal(Seq::filter);
    if headers.len() > 0 {
        lemma_kept_is_filter(headers.drop_last());
    }
}

/// The header fields of an HTTP/2 request never carry `Host`, in any case
/// (its value travels as `:authority`): after the pseudo-headers come
/// exactly the request's other headers, in their order.
pub proof fn law_request_fields_drop_host(
    method: Seq<u8>,
    path: Seq<u8>,
    scheme: Seq<u8>,
    authority: Seq<u8>,
    headers: Seq<(Seq<u8>, Seq<u8>)>,
)
    ensures
        ({
            let fields = spec_request_fields(method, path, scheme, authority, headers);
            let pseudo = (2 + (if scheme.len() > 0 { 1int } else { 0 }) + (if authority.len() > 0 { 1int } else { 0 })) as int;
            &&& forall|i: int| 0 <= i < fields.len() ==> !eq_ignore_ascii_case(#[trigger] fields[i].0, host_name())
            &&& fields.skip(pseudo) == headers.filter(not_host())
        }),
{
    lemma_kept_is_filter(headers);
    let fields = spec_request_fields(method, path, scheme, authority, headers);
    let kept = headers.filter(not_host());
    let head = seq![(pseudo_method(), method), (pseudo_path(), path)]
        + (if scheme.len() > 0 { seq![(pseudo_scheme(), scheme)] } else { Seq::empty() })
        + (if authority.len() > 0 { seq![(pseudo_authority(), authority)] } else { Seq::empty() });
    assert(fields == head + kept);
    assert forall|i: int| 0 <= i < fields.len() implies !eq_ignore_ascii_case(#[trigger] fields[i].0, host_name()) by {
        if i < head.len() {
            assert(fields[i] == head[i]);
            assert(head[i].0.len() != 4);
        } else {
            assert(fields[i] == kept[i - head.len()]);
            headers.lemma_filter_pred(not_host(), i - head.len());
        }
    }
    assert(fields.skip(head.len() as int) =~= kept);
}

pub(crate) fn pair_of(name: &[u8], value: &[u8]) -> (r: HeaderPair)
    ensures
        r.name@ == name@,
        r.value@ == value@,
{
    let mut n: Vec<u8> = Vec::new();
    crate::helper::append_bytes(&mut n, name);
    let mut v: Vec<u8> = Vec::new();
    crate::helper::append_bytes(&mut v, value);
    HeaderPair { name: n, value: v }
}

/// One pass of [`SendRequest::begin_frames`]: the HEADERS frame goes out
/// on the first pass only (with END_STREAM when the method has no body),
/// and the body is encoded while it is not finished or was never started.
pub open spec fn spec_begin_frames(s: SendRequest, method_nobody: bool, body_end: bool) -> (SendRequest, RequestFrames) {
    let f = RequestFrames {
        headers: if !s.encode_header { Some(method_nobody) } else { None },
        encode_body: !body_end || !s.encode_body,
    };
    (SendRequest { encode_header: true, encode_body: s.encode_body || f.encode_body, ..s }, f)
}

/// One pass of [`SendRequest::end_frames`]: a DATA frame goes out when the
/// body encoding produced bytes, with END_STREAM exactly when the body is
/// finished.
pub open spec fn spec_end_frames(s: SendRequest, produced: usize, body_end: bool) -> (SendRequest, (Option<bool>, bool)) {
    if produced > 0 {
        (SendRequest { is_end_stream: body_end, ..s }, (Some(body_end), body_end))
    } else {
        (s, (None, s.is_end_stream))
    }
}

/// One encoding pass of a request: what the method and body looked like
/// (no body for the method; body finished before encoding; bytes
/// produced; body finished after encoding).
pub type RequestPass = (bool, bool, usize, bool);

/// The state after a pass, and the flags of the frames it sent: the
/// HEADERS frame's END_STREAM, if one went out, and the DATA frame's.
pub open spec fn spec_pass(s: SendRequest, p: RequestPass) -> (SendRequest, Option<bool>, Option<bool>) {
    let (t, f) = spec_begin_frames(s, p.0, p.1);
    let (u, e) = spec_end_frames(t, p.2, p.3);
    (u, f.headers, e.0)
}

/// How many HEADERS frames a run of passes sends.
pub open spec fn headers_sent(s: SendRequest, passes: Seq<RequestPass>) -> nat
    decreases passes.len(),
{
    if passes.len() == 0 {
        0
    } else {
        let (t, h, _) = spec_pass(s, passes[0]);
        (if h is Some { 1nat } else { 0nat }) + headers_sent(t, passes.drop_first())
    }
}

/// Every DATA frame of a run of passes ends the stream exactly when the
/// body was finished as it was encoded.
pub open spec fn data_end_flags_follow_body(s: SendRequest, passes: Seq<RequestPass>) -> bool
    decreases passes.len(),
{
    if passes.len() == 0 {
        true
    } else {
        let (t, _, d) = spec_pass(s, passes[0]);
        &&& (d matches Some(e) ==> e == passes[0].3)
        &&& data_end_flags_follow_body(t, passes.drop_first())
    }
}

proof fn lemma_no_headers_after_first(s: SendRequest, passes: Seq<RequestPass>)
    requires
        s.encode_header,
    ensures
        headers_sent(s, passes) == 0,
    decreases passes.len(),
{
    if passes.len() > 0 {
        let (t, h, _) = spec_pass(s, passes[0]);
        lemma_no_headers_after_first(t, passes.drop_first());
    }
}

proof fn lemma_data_flags(s: SendRequest, passes: Seq<RequestPass>)
    ensures
        data_end_flags_follow_body(s, passes),
    decreases passes.len(),
{
    if passes.len() > 0 {
        let (t, _, _) = spec_pass(s, passes[0]);
        lemma_data_flags(t, passes.drop_first());
    }
}

/// A request sent on an HTTP/2 stream puts out exactly one HEADERS frame,
/// on the first pass, whose END_STREAM says that the method has no body;
/// every DATA frame after it ends the stream exactly when the body was
/// finished.
pub proof fn law_request_frames(stream_id: u32, is_end_stream: bool, passes: Seq<RequestPass>)
    requires
        passes.len() > 0,
    ensures
        ({
            let s = SendRequest { stream_id, encode_header: false, encode_body: false, is_end_stream };
            &&& headers_sent(s, passes) == 1
            &&& spec_pass(s, passes[0]).1 == Some(passes[0].0)
            &&& data_end_flags_follow_body(s, passes)
        }),
{
    let s = SendRequest { stream_id, encode_header: false, encode_body: false, is_end_stream };
    let (t, _, _) = spec_pass(s, passes[0]);
    lemma_no_headers_after_first(t, passes.drop_first());
    lemma_data_flags(s, passes);
}

/// The state of a request being sent on an HTTP/2 stream.
#[derive(Debug, Clone, Copy, PartialEq, Eq, Structural)]
pub struct SendRequest {
    pub stream_id: u32,
    pub encode_header: bool,
    pub encode_body: bool,
    pub is_end_stream: bool,
}

/// The frames one encoding pass of a request produces.
#[derive(Debug, Clone, Copy, PartialEq, Eq, Structural)]
pub struct RequestFrames {
    /// A HEADERS frame, with END_STREAM set when the flag says so.
    pub headers: Option<bool>,
    /// Whether the body is to be encoded now.
    pub encode_body: bool,
}

impl SendRequest {
    pub fn new(stream_id: u32, is_end_stream: bool) -> (r: SendRequest)
        ensures
            r == (SendRequest { stream_id, encode_header: false, encode_body: false, is_end_stream }),
    {
        SendRequest { stream_id, encode_header: false, encode_body: false, is_end_stream }
    }

    /// The header fields of the request (see [`spec_request_fields`]).
    pub fn encode_headers(method: &[u8], path: &[u8], scheme: &[u8], authority: &[u8], headers: &Vec<HeaderPair>) -> (r: Vec<HeaderPair>)
        ensures
            r@.map_values(|p: HeaderPair| pair_view(p)) == spec_request_fields(
                method@,
                path@,
                scheme@,
                authority@,
                headers@.map_values(|p: HeaderPair| pair_view(p)),
            ),
            forall|i: int| 0 <= i < r@.len() ==> !eq_ignore_ascii_case(#[trigger] r@[i].name@, host_name()),
    {
        let m_name: [u8; 7] = [58, 109, 101, 116, 104, 111, 100];
        let p_name: [u8; 5] = [58, 112, 97, 116, 104];
        let s_name: [u8; 7] = [58, 115, 99, 104, 101, 109, 101];
        let a_name: [u8; 10] = [58, 97, 117, 116, 104, 111, 114, 105, 116, 121];
        let host: [u8; 4] = [72, 111, 115, 116];
        proof {
            assert(m_name@ =~= pseudo_method());
            assert(p_name@ =~= pseudo_path());
            assert(s_name@ =~= pseudo_scheme());
            assert(a_name@ =~= pseudo_authority());
            assert(host@ =~= host_name());
        }
        let mut out: Vec<HeaderPair> = Vec::new();
        out.push(pair_of(&m_name, method));
        out.push(pair_of(&p_name, path));
        if scheme.len() > 0 {
            out.push(pair_of(&s_name, scheme));
        }
        if authority.len() > 0 {
            out.push(pair_of(&a_name, authority));
        }
        let ghost prefix = out@.map_values(|p: HeaderPair| pair_view(p));
        proof {
            assert(prefix =~= seq![(pseudo_method(), method@), (pseudo_path(), path@)]
                + (if scheme@.len() > 0 { seq![(pseudo_scheme(), scheme@)] } else { Seq::empty() })
                + (if authority@.len() > 0 { seq![(pseudo_authority(), authority@)] } else { Seq::empty() }));
        }
        let ghost hs = headers@.map_values(|p: HeaderPair| pair_view(p));
        let mut i: usize = 0;
        while i < headers.len()
            invariant
                i <= headers@.len(),
                hs == headers@.map_values(|p: HeaderPair| pair_view(p)),
                host@ == host_name(),
                out@.map_values(|p: HeaderPair| pair_view(p)) == prefix + kept_headers(hs.take(i as int)),
            decreases headers@.len() - i,
        {
            let h = &headers[i];
            proof {
                let t = hs.take(i as int + 1);
                assert(t.drop_last() =~= hs.take(i as int));
                assert(t.last() == pair_view(headers@[i as int]));
            }
            if !eq_bytes_ignore_ascii_case(h.name.as_slice(), &host) {
                let ghost before = out@;
                let np = pair_of(h.name.as_slice(), h.value.as_slice());
                out.push(np);
                proof {
                    let t = hs.take(i as int + 1);
                    assert(pair_view(np) == t.last());
                    assert(kept_headers(t) == kept_headers(hs.take(i as int)).push(t.last()));
                    assert(out@ == before.push(np));
                    assert(out@.map_values(|p: HeaderPair| pair_view(p)) =~= before.map_values(|p: HeaderPair| pair_view(p)).push(pair_view(np)));
                    assert(out@.map_values(|p: HeaderPair| pair_view(p)) =~= prefix + kept_headers(hs.take(i as int + 1)));
                }
            } else {
                proof {
                    assert(out@.map_values(|p: HeaderPair| pair_view(p)) =~= prefix + kept_headers(hs.take(i as int + 1)));
                }
            }
            i = i + 1;
        }
        proof {
            assert(hs.take(headers@.len() as int) =~= hs);
            law_request_fields_drop_host(method@, path@, scheme@, authority@, hs);
            let fv = out@.map_values(|p: HeaderPair| pair_view(p));
            let fields = spec_request_fields(method@, path@, scheme@, authority@, hs);
            assert(fv == fields);
            assert forall|i: int| 0 <= i < out@.len() implies !eq_ignore_ascii_case(#[trigger] out@[i].name@, host_name()) by {
                assert(fv[i] == pair_view(out@[i]));
                assert(fields[i].0 == out@[i].name@);
                assert(!eq_ignore_ascii_case(fields[i].0, host_name()));
            }
        }
        out
    }

    /// Starts one encoding pass: the HEADERS frame goes out once (ending the
    /// stream for a method without a body); the body is encoded while it is
    /// unfinished or not yet started.
    pub fn begin_frames(&mut self, method_nobody: bool, body_end: bool) -> (r: RequestFrames)
        ensures
            (*final(self), r) == spec_begin_frames(*old(self), method_nobody, body_end),
    {
        let headers = if !self.encode_header {
            self.encode_header = true;
            Some(method_nobody)
        } else {
            None
        };
        let encode_body = !body_end || !self.encode_body;
        if encode_body {
            self.encode_body = true;
        }
        RequestFrames { headers, encode_body }
    }

    /// The body encoding produced `produced` bytes and the body is now
    /// finished or not: a DATA frame goes out when bytes were produced,
    /// ending the stream when the body is finished. Answers the frame's
    /// END_STREAM flag, if a frame goes out, and whether the stream ended.
    pub fn end_frames(&mut self, produced: usize, body_end: bool) -> (r: (Option<bool>, bool))
        ensures
            (*final(self), r) == spec_end_frames(*old(self), produced, body_end),
    {
        if produced > 0 {
            self.is_end_stream = body_end;
            (Some(body_end), body_end)
        } else {
            (None, self.is_end_stream)
        }
    }
}


// ---------------------------------------------------------------------------
// The receiving loop of a connection
// ---------------------------------------------------------------------------

/// The types of HTTP/2 frame.
#[derive(Debug, Clone, Copy, PartialEq, Eq, Structural)]
pub enum FrameType {
    Settings,
    Data,
    Headers,
    Priority,
    PushPromise,
    Ping,
    GoAway,
    WindowUpdate,
    Reset,
}

/// What the connection does with a frame it received.
#[derive(Debug, Clone, Copy, PartialEq, Eq, Structural)]
pub enum FrameAction {
    /// Acknowledge and apply the peer's settings.
    ApplySettings,
    /// Add the frame to its stream.
    RecordStream,
    /// Record the stream's priority.
    Reprioritize,
    /// Queue the answer to the ping.
    AnswerPing,
    /// Remember the peer's GOAWAY.
    RememberGoAway,
    /// Nothing.
    Ignore,
}

pub open spec fn spec_frame_action(t: FrameType) -> FrameAction {
    match t {
        FrameType::Settings => FrameAction::ApplySettings,
        FrameType::Data => FrameAction::RecordStream,
        FrameType::Headers => FrameAction::RecordStream,
        FrameType::Priority => FrameAction::Reprioritize,
        FrameType::PushPromise => FrameAction::Ignore,
        FrameType::Ping => FrameAction::AnswerPing,
        FrameType::GoAway => FrameAction::RememberGoAway,
        FrameType::WindowUpdate => FrameAction::Ignore,
        FrameType::Reset => FrameAction::Ignore,
    }
}

/// The dispatch of a received frame.
pub fn frame_action(t: FrameType) -> (r: FrameAction)
    ensures
        r == spec_frame_action(t),
{
    match t {
        FrameType::Settings => FrameAction::ApplySettings,
        FrameType::Data => FrameAction::RecordStream,
        FrameType::Headers => FrameAction::RecordStream,
        FrameType::Priority => FrameAction::Reprioritize,
        FrameType::PushPromise => FrameAction::Ignore,
        FrameType::Ping => FrameAction::AnswerPing,
        FrameType::GoAway => FrameAction::RememberGoAway,
        FrameType::WindowUpdate => FrameAction::Ignore,
        FrameType::Reset => FrameAction::Ignore,
    }
}

/// What the receiving loop does when no frame is ready.
#[derive(Debug, Clone, Copy, PartialEq, Eq, Structural)]
pub enum IdleAction {
    /// Hand the message just built to the caller.
    Deliver,
    /// End with a connection error of the peer's reason.
    FailGoAway(u32),
    /// Go round the loop again.
    Retry,
    /// Wait to be woken.
    Wait,
}

/// When no frame is ready: a message whose headers are complete is
/// delivered; else a GOAWAY of the peer ends the connection; else the loop
/// goes round again if something changed and the side retries on change
/// (a server does), or waits.
pub fn idle_action(built: bool, peer_goaway: Option<u32>, has_change: bool, retry_on_change: bool) -> (r: IdleAction)
    ensures
        r == (if built {
            IdleAction::Deliver
        } else if peer_goaway is Some {
            IdleAction::FailGoAway(peer_goaway->0)
        } else if has_change && retry_on_change {
            IdleAction::Retry
        } else {
            IdleAction::Wait
        }),
{
    if built {
        IdleAction::Deliver
    } else {
        match peer_goaway {
            Some(reason) => IdleAction::FailGoAway(reason),
            None => if has_change && retry_on_change {
                IdleAction::Retry
            } else {
                IdleAction::Wait
            },
        }
    }
}

/// What the receiving loop of a connection keeps of the frames it read:
/// its streams, and the GOAWAY the peer sent, if any.
pub struct RecvControl {
    pub book: StreamBook,
    pub goaway: Option<FrameInfo>,
}

/// What the receiving loop does when no frame is ready.
pub enum IdleStep {
    /// Hand the message just built to the caller.
    Deliver,
    /// End with this error.
    Fail(ProtError),
    /// Go round the loop again.
    Retry,
    /// Wait to be woken.
    Wait,
}

impl RecvControl {
    pub fn new() -> (r: RecvControl)
        ensures
            r.book.last_stream_id == 0,
            r.book.ready_queue@ == Seq::<u32>::empty(),
            r.book.finish_streams@ == Seq::<u32>::empty(),
            r.book.streams@ == Map::<u32, Vec<FrameInfo>>::empty(),
            r.goaway is None,
    {
        RecvControl { book: StreamBook::new(), goaway: None }
    }

    /// A frame was read (`is_end`: its stream reports that it has ended).
    /// Answers what is done with it ([`frame_action`]) and whether a
    /// stream's headers are now complete: DATA and HEADERS frames are
    /// recorded with their stream ([`spec_record_frame`]); a GOAWAY is kept
    /// as it came; nothing else changes here.
    pub fn recv_frame(&mut self, frame: FrameInfo, is_end: bool) -> (r: (FrameAction, bool))
        ensures
            r.0 == spec_frame_action(frame.kind),
            r.0 == FrameAction::RecordStream ==> final(self).goaway == old(self).goaway && if frame.stream_id == 0 {
                !r.1 && final(self).book == old(self).book
            } else {
                spec_record_frame(old(self).book, frame@, is_end, final(self).book, r.1)
            },
            r.0 == FrameAction::RememberGoAway ==> final(self).goaway == Some(frame) && final(self).book == old(self).book
                && !r.1,
            r.0 != FrameAction::RecordStream && r.0 != FrameAction::RememberGoAway ==> *final(self) == *old(self) && !r.1,
    {
        let action = frame_action(frame.kind);
        match action {
            FrameAction::RecordStream => {
                let done = self.book.record_frame(frame, is_end);
                (action, done)
            },
            FrameAction::RememberGoAway => {
                self.goaway = Some(frame);
                (action, false)
            },
            _ => (action, false),
        }
    }

    /// When no frame is ready: a message whose headers are complete
    /// (`built`) is delivered; else a GOAWAY the peer sent ends the
    /// connection with a library error of the peer's reason; else the loop
    /// goes round again if something changed and the side retries on change,
    /// or waits.
    pub fn idle(&self, built: bool, has_change: bool, retry_on_change: bool) -> (r: IdleStep)
        ensures
            built ==> r is Deliver,
            !built && self.goaway is Some ==> (r matches IdleStep::Fail(ProtError::GoAway(d, code, who))
                && d@ == Seq::<u8>::empty() && code == self.goaway->0.reason && who == Initiator::Library),
            !built && self.goaway is None ==> if has_change && retry_on_change { r is Retry } else { r is Wait },
    {
        let reason = match &self.goaway {
            Some(g) => Some(g.reason),
            None => None,
        };
        match idle_action(built, reason, has_change, retry_on_change) {
            IdleAction::Deliver => IdleStep::Deliver,
            IdleAction::FailGoAway(code) => IdleStep::Fail(library_go_away(code)),
            IdleAction::Retry => IdleStep::Retry,
            IdleAction::Wait => IdleStep::Wait,
        }
    }
}

/// Everything was written: no frame waits, the codec is flushed, and no
/// message of this side (responses for a server, requests for a client)
/// waits to be encoded.
pub fn is_write_end(is_server: bool, frames_empty: bool, codec_write_end: bool, responses_empty: bool, requests_empty: bool) -> (r: bool)
    ensures
        r == (frames_empty && codec_write_end && if is_server { responses_empty } else { requests_empty }),
{
    if is_server {
        frames_empty && codec_write_end && responses_empty
    } else {
        frames_empty && codec_write_end && requests_empty
    }
}


// ---------------------------------------------------------------------------
// Pings
// ---------------------------------------------------------------------------

/// A PING of the peer waiting for its answer.
pub struct StatePingPong<P> {
    pub ping: Option<P>,
}

/// What one pass over the pending ping asks the connection to do.
pub enum PingStep<P> {
    /// Nothing to answer.
    Idle,
    /// An answer waits but the connection cannot take a frame yet.
    Pending,
    /// Send the PONG for this ping.
    Answer(P),
}

impl<P> StatePingPong<P> {
    pub fn new() -> (r: StatePingPong<P>)
        ensures
            r.ping is None,
    {
        StatePingPong { ping: None }
    }

    /// A ping arrived; it replaces any ping not yet answered.
    pub fn receive(&mut self, ping: P)
        ensures
            final(self).ping == Some(ping),
    {
        self.ping = Some(ping);
    }

    /// One pass: the pending ping is answered once the connection can take
    /// a frame (`codec_ready`), and kept until then.
    pub fn poll_handle(&mut self, codec_ready: bool) -> (r: PingStep<P>)
        ensures
            match old(self).ping {
                None => r is Idle && final(self).ping is None,
                Some(p) => if codec_ready {
                    r == PingStep::Answer(p) && final(self).ping is None
                } else {
                    r is Pending && final(self).ping == Some(p)
                },
            },
    {
        match self.ping.take() {
            None => PingStep::Idle,
            Some(p) => {
                if codec_ready {
                    PingStep::Answer(p)
                } else {
                    self.ping = Some(p);
                    PingStep::Pending
                }
            },
        }
    }
}

} // verus!
