use sha1::Digest;
use vstd::prelude::*;

use crate::error::{ProtError, ProtResult};
use crate::helper::append_bytes;

verus! {

// ---------------------------------------------------------------------------
// Calls into base64 and sha1
// ---------------------------------------------------------------------------

/// The standard base64 decoding (padded alphabet) of `input`, `None` when
/// `input` is not valid base64.
pub uninterp spec fn base64_standard_decode(input: Seq<u8>) -> Option<Seq<u8>>;

/// The standard base64 encoding (padded alphabet) of `input`, as bytes.
pub uninterp spec fn base64_standard_encode(input: Seq<u8>) -> Seq<u8>;

/// The SHA-1 digest of `input`.
pub uninterp spec fn sha1_digest_of(input: Seq<u8>) -> Seq<u8>;

/// `base64::decode` (the standard engine): the decoded bytes, or `None` when
/// the input is not valid base64.
#[verifier::external_body]
#[allow(deprecated)]
pub(crate) fn base64_decode(input: &[u8]) -> (r: Option<Vec<u8>>)
    ensures
        match r {
            Some(v) => base64_standard_decode(input@) == Some(v@),
            None => base64_standard_decode(input@) is None,
        },
{
    base64::decode(input).ok()
}

/// `base64::encode` (the standard engine), as the bytes of the text.
#[verifier::external_body]
#[allow(deprecated)]
pub(crate) fn base64_encode(input: &[u8]) -> (r: Vec<u8>)
    ensures
        r@ == base64_standard_encode(input@),
{
    base64::encode(input).into_bytes()
}

/// `sha1::Sha1::digest`: the 20-byte SHA-1 digest of `input`.
#[verifier::external_body]
pub(crate) fn sha1_digest(input: &[u8]) -> (r: Vec<u8>)
    ensures
        r@ == sha1_digest_of(input@),
        r@.len() == 20,
{
    sha1::Sha1::digest(input).to_vec()
}

// ---------------------------------------------------------------------------
// The opening handshake
// ---------------------------------------------------------------------------

/// The GUID that RFC 6455 appends to the client's key.
pub open spec fn magic_guid() -> Seq<u8> {
    seq![
        50u8, 53u8, 56u8, 69u8, 65u8, 70u8, 65u8, 53u8, 45u8, 69u8, 57u8, 49u8, 52u8, 45u8, 52u8, 55u8,
        68u8, 65u8, 45u8, 57u8, 53u8, 67u8, 65u8, 45u8, 67u8, 53u8, 65u8, 66u8, 48u8, 68u8, 67u8, 56u8,
        53u8, 66u8, 49u8, 49u8,
    ]
}

/// The `Sec-WebSocket-Accept` value answering `key`: the base64 of the
/// SHA-1 of the key followed by the GUID; the key itself must be the base64
/// of 16 bytes.
pub open spec fn spec_accept(key: Seq<u8>) -> Option<Seq<u8>> {
    match base64_standard_decode(key) {
        Some(raw) => if raw.len() == 16 {
            Some(base64_standard_encode(sha1_digest_of(key + magic_guid())))
        } else {
            None
        },
        None => None,
    }
}

pub open spec fn is_protocol_separator(b: u8) -> bool {
    b == 44 || b == 32
}

/// The bytes of `s` up to the first separator.
pub open spec fn token_prefix(s: Seq<u8>) -> Seq<u8>
    decreases s.len(),
{
    if s.len() == 0 || is_protocol_separator(s[0]) {
        Seq::empty()
    } else {
        seq![s[0]] + token_prefix(s.drop_first())
    }
}

/// The first protocol named in a `Sec-WebSocket-Protocol` value (names are
/// separated by commas and spaces).
pub open spec fn first_protocol(s: Seq<u8>) -> Seq<u8>
    decreases s.len(),
{
    if s.len() == 0 {
        Seq::empty()
    } else if is_protocol_separator(s[0]) {
        first_protocol(s.drop_first())
    } else {
        token_prefix(s)
    }
}

/// Does the value name at least one protocol?
pub open spec fn names_protocol(s: Seq<u8>) -> bool {
    exists|i: int| 0 <= i < s.len() && !is_protocol_separator(#[trigger] s[i])
}

pub open spec fn chat() -> Seq<u8> {
    seq![99u8, 104u8, 97u8, 116u8]
}

pub open spec fn version_13() -> Seq<u8> {
    seq![49u8, 51u8]
}

/// Why a key is refused: it is not base64, or not the base64 of 16 bytes.
pub open spec fn spec_accept_error(key: Seq<u8>) -> &'static str {
    if base64_standard_decode(key) is None {
        "Invalid Sec-WebSocket-Accept"
    } else {
        "Sec-WebSocket-Key must be 16 bytes"
    }
}

/// How a server answers a request to open a WebSocket.
#[derive(Debug)]
pub enum WsAnswer {
    /// 400: the key is missing or the version is not 13.
    Reject,
    /// 101: switch protocols with this accept value and sub-protocol.
    Accept { accept: Vec<u8>, protocol: Vec<u8> },
}

/// The opening handshake of a WebSocket connection.
pub struct WsHandshake;

impl WsHandshake {
    /// The `Sec-WebSocket-Accept` value for a client's `Sec-WebSocket-Key`.
    pub fn build_accept(key: &[u8]) -> (r: ProtResult<Vec<u8>>)
        ensures
            match spec_accept(key@) {
                Some(a) => r matches Ok(s) && s@ == a,
                None => r == Err::<Vec<u8>, ProtError>(ProtError::Extension(spec_accept_error(key@))),
            },
    {
        match base64_decode(key) {
            Some(vec) => {
                if vec.len() != 16 {
                    return Err(ProtError::Extension("Sec-WebSocket-Key must be 16 bytes"));
                }
                let mut concat_key: Vec<u8> = Vec::new();
                append_bytes(&mut concat_key, key);
                let guid: [u8; 36] = [
                    50, 53, 56, 69, 65, 70, 65, 53, 45, 69, 57, 49, 52, 45, 52, 55, 68, 65, 45, 57,
                    53, 67, 65, 45, 67, 53, 65, 66, 48, 68, 67, 56, 53, 66, 49, 49,
                ];
                proof {
                    assert(guid@ =~= magic_guid());
                }
                append_bytes(&mut concat_key, &guid);
                let hash = sha1_digest(concat_key.as_slice());
                Ok(base64_encode(hash.as_slice()))
            },
            None => Err(ProtError::Extension("Invalid Sec-WebSocket-Accept")),
        }
    }

    /// Answers a request to open a WebSocket from its `Sec-WebSocket-Key`,
    /// `Sec-WebSocket-Protocol` and `Sec-WebSocket-Version` values: without
    /// a key or with a version other than 13 it is refused; else it is
    /// accepted with the first protocol the client names ("chat" when it
    /// names none).
    pub fn build_request(key: Option<&[u8]>, protocol: Option<&[u8]>, version: Option<&[u8]>) -> (r: ProtResult<WsAnswer>)
        requires
            protocol matches Some(p) ==> names_protocol(p@),
        ensures
            match (key, version) {
                (Some(k), Some(v)) if v@ == version_13() => match spec_accept(k@) {
                    Some(a) => r matches Ok(WsAnswer::Accept { accept, protocol: p }) && accept@ == a
                        && p@ == first_protocol(
                        match protocol {
                            Some(pp) => pp@,
                            None => chat(),
                        },
                    ),
                    None => r == Err::<WsAnswer, ProtError>(ProtError::Extension(spec_accept_error(k@))),
                },
                _ => r matches Ok(WsAnswer::Reject),
            },
    {
        let k = match key {
            Some(k) => k,
            None => {
                return Ok(WsAnswer::Reject);
            },
        };
        let is_13 = match version {
            Some(v) => v.len() == 2 && v[0] == 49 && v[1] == 51,
            None => false,
        };
        proof {
            if let Some(v) = version {
                if v@ == version_13() {
                    assert(v@[0] == 49 && v@[1] == 51);
                }
                if v@.len() == 2 && v@[0] == 49 && v@[1] == 51 {
                    assert(v@ =~= version_13());
                }
            }
        }
        if !is_13 {
            return Ok(WsAnswer::Reject);
        }
        let chat_bytes: [u8; 4] = [99, 104, 97, 116];
        proof {
            assert(chat_bytes@ =~= chat());
            assert(!is_protocol_separator(chat()[0]));
        }
        let p = match protocol {
            Some(p) => p,
            None => &chat_bytes,
        };
        let accept = match Self::build_accept(k) {
            Ok(a) => a,
            Err(e) => {
                return Err(e);
            },
        };
        let first = first_protocol_of(p);
        Ok(WsAnswer::Accept { accept, protocol: first })
    }
}

/// The first protocol named in `s`.
pub fn first_protocol_of(s: &[u8]) -> (r: Vec<u8>)
    requires
        names_protocol(s@),
    ensures
        r@ == first_protocol(s@),
{
    let mut i: usize = 0;
    assert(s@.skip(0) =~= s@);
    while i < s.len() && (s[i] == 44 || s[i] == 32)
        invariant
            i <= s@.len(),
            first_protocol(s@.skip(i as int)) == first_protocol(s@),
            forall|j: int| 0 <= j < i ==> is_protocol_separator(#[trigger] s@[j]),
        decreases s@.len() - i,
    {
        assert(s@.skip(i as int).drop_first() =~= s@.skip(i + 1));
        i = i + 1;
    }
    let start = i;
    let mut out: Vec<u8> = Vec::new();
    assert(out@ + token_prefix(s@.skip(i as int)) =~= token_prefix(s@.skip(i as int)));
    while i < s.len() && !(s[i] == 44 || s[i] == 32)
        invariant
            start <= i <= s@.len(),
            token_prefix(s@.skip(start as int)) == out@ + token_prefix(s@.skip(i as int)),
        decreases s@.len() - i,
    {
        assert(s@.skip(i as int).drop_first() =~= s@.skip(i + 1));
        assert(token_prefix(s@.skip(i as int)) == seq![s@[i as int]] + token_prefix(s@.skip(i + 1)));
        let ghost before = out@;
        out.push(s[i]);
        assert(out@ =~= before + seq![s@[i as int]]);
        assert(before + seq![s@[i as int]] + token_prefix(s@.skip(i + 1)) =~= before + (seq![s@[i as int]] + token_prefix(s@.skip(i + 1))));
        i = i + 1;
    }
    proof {
        assert(token_prefix(s@.skip(i as int)) =~= Seq::<u8>::empty());
        assert(out@ + Seq::<u8>::empty() =~= out@);
        if start == s.len() {
            let j = choose|j: int| 0 <= j < s@.len() && !is_protocol_separator(#[trigger] s@[j]);
            assert(is_protocol_separator(s@[j]));
        }
        assert(start < s@.len());
        assert(!is_protocol_separator(s@.skip(start as int)[0]));
        assert(first_protocol(s@.skip(start as int)) == token_prefix(s@.skip(start as int)));
    }
    out
}

// ---------------------------------------------------------------------------
// Connection state
// ---------------------------------------------------------------------------

/// The payload of a WebSocket close frame.
#[derive(Debug, PartialEq, Eq)]
pub struct CloseData {
    pub status_code: u16,
    pub reason: String,
}

impl CloseData {
    /// A normal closure (1000) without a reason.
    pub fn normal() -> (r: CloseData)
        ensures
            r.status_code == 1000,
            r.reason@ == Seq::<char>::empty(),
    {
        CloseData { status_code: 1000, reason: String::new() }
    }
}

/// The life of a WebSocket connection.
#[derive(Debug)]
pub enum WsState {
    Open,
    /// Closing: the close frame must be flushed.
    Closing(CloseData),
    Closed(CloseData),
}

/// An open connection starts closing with `data`; otherwise nothing changes.
pub open spec fn spec_set_closing(s: WsState, data: CloseData) -> WsState {
    match s {
        WsState::Open => WsState::Closing(data),
        _ => s,
    }
}

/// `t` is what closing `s` gives: an open connection closes with the data
/// given (a normal closure when none), a closing one with its own data; a
/// closed one stays as it is.
pub open spec fn spec_set_closed(s: WsState, data: Option<CloseData>, t: WsState) -> bool {
    match s {
        WsState::Open => match data {
            Some(d) => t == WsState::Closed(d),
            None => (t matches WsState::Closed(d) && d.status_code == 1000 && d.reason@ == Seq::<char>::empty()),
        },
        WsState::Closing(d) => t == WsState::Closed(d),
        WsState::Closed(_) => t == s,
    }
}

/// A connection that started closing ends closed with the data it started
/// closing with, whatever data the final close names; and once closed, it
/// stays closed, unchanged, whatever happens next.
pub proof fn law_close_keeps_data(s: WsState, first: CloseData, last: Option<CloseData>, t: WsState, again: CloseData, u: WsState)
    requires
        s is Open,
        spec_set_closed(spec_set_closing(s, first), last, t),
        spec_set_closed(t, Some(again), u),
    ensures
        t == WsState::Closed(first),
        u == t,
        spec_set_closing(t, again) == t,
{
}

impl WsState {
    /// An open connection starts closing; otherwise nothing changes.
    pub fn set_closing(&mut self, data: CloseData)
        ensures
            *final(self) == spec_set_closing(*old(self), data),
    {
        match self {
            WsState::Open => {
                *self = WsState::Closing(data);
            },
            _ => {},
        }
    }

    /// The peer (or the user) sent a close frame: the connection starts
    /// closing with its data, a normal closure when it carried none.
    pub fn receiver_close(&mut self, data: Option<CloseData>) -> (r: ProtResult<()>)
        ensures
            r is Ok,
            match data {
                Some(d) => *final(self) == spec_set_closing(*old(self), d),
                None => if *old(self) is Open {
                    *final(self) matches WsState::Closing(d) && d.status_code == 1000 && d.reason@ == Seq::<char>::empty()
                } else {
                    *final(self) == *old(self)
                },
            },
    {
        let d = match data {
            Some(d) => d,
            None => CloseData::normal(),
        };
        self.set_closing(d);
        Ok(())
    }

    /// The connection is closed: with the data it was closing with, or the
    /// data given (a normal closure when none) if it was open.
    pub fn set_closed(&mut self, data: Option<CloseData>)
        ensures
            spec_set_closed(*old(self), data, *final(self)),
    {
        let mut current = WsState::Open;
        std::mem::swap(&mut current, self);
        match current {
            WsState::Open => {
                let d = match data {
                    Some(d) => d,
                    None => CloseData::normal(),
                };
                *self = WsState::Closed(d);
            },
            WsState::Closing(d) => {
                *self = WsState::Closed(d);
            },
            WsState::Closed(d) => {
                *self = WsState::Closed(d);
            },
        }
    }
}


// ---------------------------------------------------------------------------
// The opening handshake on the wire
// ---------------------------------------------------------------------------

/// Where the writing of the handshake answer stands.
pub enum WsHandshaking {
    /// Nothing to write yet.
    Wait,
    /// These bytes of the answer remain to be written.
    Flushing(Vec<u8>),
    /// Written (or nothing was needed).
    Done,
}

/// The handshake of a WebSocket connection and its side.
pub struct WsStateHandshake {
    pub state: WsHandshaking,
    pub is_client: bool,
}

/// What one pass over the handshake asks of the connection.
#[derive(Debug, Clone, Copy, PartialEq, Eq, Structural)]
pub enum HandshakePoll {
    /// Wait: the handshake has not been set up.
    Pending,
    /// Write the remaining bytes (see [`WsStateHandshake::remaining`]).
    Write,
    /// The handshake is complete.
    Ready,
}

impl WsStateHandshake {
    pub fn new_server() -> (r: WsStateHandshake)
        ensures
            r.state is Wait,
            !r.is_client,
    {
        WsStateHandshake { state: WsHandshaking::Wait, is_client: false }
    }

    pub fn new_client() -> (r: WsStateHandshake)
        ensures
            r.state is Wait,
            r.is_client,
    {
        WsStateHandshake { state: WsHandshaking::Wait, is_client: true }
    }

    /// The answer to write (none: the handshake is already complete).
    pub fn set_handshake_status(&mut self, binary: Vec<u8>, is_client: bool)
        ensures
            final(self).is_client == is_client,
            binary@.len() == 0 ==> final(self).state is Done,
            binary@.len() > 0 ==> (final(self).state matches WsHandshaking::Flushing(b) && b@ == binary@),
    {
        self.is_client = is_client;
        if binary.len() == 0 {
            self.state = WsHandshaking::Done;
        } else {
            self.state = WsHandshaking::Flushing(binary);
        }
    }

    /// One pass: nothing happens before the handshake is set up; an answer
    /// fully written completes it.
    pub fn poll_handle(&mut self) -> (r: HandshakePoll)
        ensures
            match old(self).state {
                WsHandshaking::Wait => r == HandshakePoll::Pending && final(self).state is Wait,
                WsHandshaking::Flushing(b) => if b@.len() == 0 {
                    r == HandshakePoll::Ready && final(self).state is Done
                } else {
                    r == HandshakePoll::Write && (final(self).state matches WsHandshaking::Flushing(c) && c@ == b@)
                },
                WsHandshaking::Done => r == HandshakePoll::Ready && final(self).state is Done,
            },
            final(self).is_client == old(self).is_client,
    {
        let mut done = false;
        let r = match &self.state {
            WsHandshaking::Wait => HandshakePoll::Pending,
            WsHandshaking::Flushing(b) => if b.len() == 0 {
                done = true;
                HandshakePoll::Ready
            } else {
                HandshakePoll::Write
            },
            WsHandshaking::Done => HandshakePoll::Ready,
        };
        if done {
            self.state = WsHandshaking::Done;
        }
        r
    }

    /// The bytes of the answer still to be written.
    pub fn remaining(&self) -> (r: &[u8])
        ensures
            match self.state {
                WsHandshaking::Flushing(b) => r@ == b@,
                _ => r@.len() == 0,
            },
    {
        match &self.state {
            WsHandshaking::Flushing(b) => b.as_slice(),
            _ => &[],
        }
    }

    /// `n` bytes of the answer were written; once all are, the handshake is
    /// complete.
    pub fn advance(&mut self, n: usize)
        requires
            old(self).state matches WsHandshaking::Flushing(b) && n <= b@.len(),
        ensures
            final(self).is_client == old(self).is_client,
            old(self).state matches WsHandshaking::Flushing(b) && if n == b@.len() {
                final(self).state is Done
            } else {
                final(self).state matches WsHandshaking::Flushing(c) && c@ == b@.skip(n as int)
            },
    {
        let mut state = WsHandshaking::Done;
        std::mem::swap(&mut state, &mut self.state);
        match state {
            WsHandshaking::Flushing(b) => {
                if n < b.len() {
                    let mut rest: Vec<u8> = Vec::new();
                    append_bytes(&mut rest, slice_skip(b.as_slice(), n));
                    self.state = WsHandshaking::Flushing(rest);
                }
            },
            other => {
                self.state = other;
            },
        }
    }
}

fn slice_skip(s: &[u8], n: usize) -> (r: &[u8])
    requires
        n <= s@.len(),
    ensures
        r@ == s@.skip(n as int),
{
    let r = vstd::slice::slice_subrange(s, n, s.len());
    assert(r@ =~= s@.skip(n as int));
    r
}

} // verus!
