use vstd::prelude::*;

use crate::error::{ProtError, ProtResult, WebFault};
use crate::helper::{
    append_bytes, chunk_frame, crlf, lower_hex, lower_hex_digit,
    chunk_head_in_range, hex_digit_value, hex_run_len, hex_value, is_hex_digit, parse_chunk_head,
    skip_new_line, spec_chunk_head, spec_line_end, ChunkHead, LineEnd,
};

verus! {

/// What one pass of the body decoder ended with.
pub enum DecodeOutcome {
    /// Stopped normally: the body ended, or more bytes are needed.
    Done,
    /// A parser of the chunked coding refused the bytes.
    Fault(WebFault),
    /// A chunk-size field too large for the machine's lengths.
    TooLarge,
}

/// Decoding the chunked transfer coding: the bytes left over, the decoded
/// output so far, whether the last chunk was seen, and how it stopped.
pub open spec fn spec_dechunk(buf: Seq<u8>, out: Seq<u8>) -> (Seq<u8>, Seq<u8>, bool, DecodeOutcome)
    decreases buf.len(),
{
    if !chunk_head_in_range(buf) {
        (buf, out, false, DecodeOutcome::TooLarge)
    } else {
        match spec_chunk_head(buf) {
            ChunkHead::Partial => (buf, out, false, DecodeOutcome::Done),
            ChunkHead::BadToken => (buf, out, false, DecodeOutcome::Fault(WebFault::Token)),
            ChunkHead::BadNewLine => (buf, out, false, DecodeOutcome::Fault(WebFault::NewLine)),
            ChunkHead::Head { used, size } => {
                if used + size > buf.len() || used == 0 {
                    // the head always lies inside the buffer and is not empty
                    (buf, out, false, DecodeOutcome::Done)
                } else {
                    let data = buf.subrange(used as int, (used + size) as int);
                    let after = buf.skip((used + size) as int);
                    let out2 = out + data;
                    let end = size == 0;
                    match spec_line_end(after) {
                        LineEnd::Ended(m) => {
                            if end || m > after.len() {
                                (after.skip(m as int), out2, end, DecodeOutcome::Done)
                            } else {
                                spec_dechunk(after.skip(m as int), out2)
                            }
                        },
                        LineEnd::Partial(m) => (after.skip(m as int), out2, end, DecodeOutcome::Fault(WebFault::Partial)),
                        LineEnd::Broken(m) => (after.skip(m as int), out2, end, DecodeOutcome::Fault(WebFault::NewLine)),
                    }
                }
            },
        }
    }
}

/// The abstract state of a [`SendStream`].
pub struct SendView {
    pub read: Seq<u8>,
    pub out: Seq<u8>,
    pub chunked: bool,
    pub end: bool,
    pub end_headers: bool,
    pub left: nat,
}

/// One call of [`SendStream::process_data`] on an abstract state.
pub open spec fn spec_process(v: SendView) -> (SendView, DecodeOutcome) {
    if !v.end_headers {
        (v, DecodeOutcome::Done)
    } else if v.chunked {
        if v.end {
            (v, DecodeOutcome::Done)
        } else {
            let (rest, out, end, outcome) = spec_dechunk(v.read, v.out);
            (SendView { read: rest, out: out, end: end, ..v }, outcome)
        }
    } else {
        let len = if v.left < v.read.len() { v.left } else { v.read.len() };
        if len == 0 {
            (v, DecodeOutcome::Done)
        } else {
            let left = (v.left - len) as nat;
            (
                SendView {
                    read: v.read.skip(len as int),
                    out: v.out + v.read.take(len as int),
                    left: left,
                    end: if left == 0 { true } else { v.end },
                    ..v
                },
                DecodeOutcome::Done,
            )
        }
    }
}

/// Decoding a body of announced length (after the headers, not chunked)
/// loses and invents no byte: what was decoded and what is still buffered
/// are, together, what was decoded and buffered before; what was decoded
/// now and what is still expected add up to what was expected; and the body
/// ends only when it already had, or once every announced byte was
/// decoded.
pub proof fn law_length_body_decoding(v: SendView)
    requires
        v.end_headers,
        !v.chunked,
    ensures
        ({
            let (w, o) = spec_process(v);
            &&& o == DecodeOutcome::Done
            &&& w.out + w.read == v.out + v.read
            &&& v.out.len() <= w.out.len()
            &&& (w.out.len() - v.out.len()) + w.left == v.left
            &&& w.end <==> (v.end || (v.left > 0 && w.left == 0))
            &&& w.chunked == v.chunked && w.end_headers == v.end_headers
        }),
{
    let (w, o) = spec_process(v);
    let len = if v.left < v.read.len() { v.left } else { v.read.len() };
    if len > 0 {
        assert(v.out + v.read.take(len as int) + v.read.skip(len as int) =~= v.out + v.read);
    }
}

pub open spec fn outcome_of(r: ProtResult<()>) -> DecodeOutcome {
    match r {
        Ok(_) => DecodeOutcome::Done,
        Err(ProtError::Web(f)) => DecodeOutcome::Fault(f),
        Err(_) => DecodeOutcome::TooLarge,
    }
}

/// Lemma: the hex run of `s` is `i` when the first `i` bytes are hex digits
/// and the run stops there.
pub proof fn lemma_hex_run_at(s: Seq<u8>, i: nat)
    requires
        i <= s.len(),
        forall|j: int| 0 <= j < i ==> is_hex_digit(#[trigger] s[j]),
        i == s.len() || !is_hex_digit(s[i as int]),
    ensures
        hex_run_len(s) == i,
    decreases i,
{
    if i > 0 {
        let t = s.drop_first();
        assert forall|j: int| 0 <= j < i - 1 implies is_hex_digit(#[trigger] t[j]) by {
            assert(t[j] == s[j + 1]);
        }
        if i < s.len() {
            assert(t[(i - 1) as int] == s[i as int]);
        }
        lemma_hex_run_at(t, (i - 1) as nat);
    }
}

/// Lemma: the hex run never exceeds the sequence.
pub proof fn lemma_hex_run_bound(s: Seq<u8>)
    ensures
        hex_run_len(s) <= s.len(),
        forall|j: int| 0 <= j < hex_run_len(s) ==> is_hex_digit(#[trigger] s[j]),
    decreases s.len(),
{
    if s.len() > 0 && is_hex_digit(s[0]) {
        let t = s.drop_first();
        lemma_hex_run_bound(t);
        assert forall|j: int| 0 <= j < hex_run_len(s) implies is_hex_digit(#[trigger] s[j]) by {
            if j > 0 {
                assert(s[j] == t[j - 1]);
            }
        }
    }
}

/// Is the value of the hex run at the front of `data` small enough to be
/// handed to the chunk parser?
pub fn chunk_size_fits(data: &[u8]) -> (r: bool)
    ensures
        r == chunk_head_in_range(data@),
{
    let limit: usize = usize::MAX - 2;
    let mut i: usize = 0;
    let mut val: usize = 0;
    let mut too_big: bool = false;
    while i < data.len() && is_hex(data[i])
        invariant
            i <= data.len(),
            forall|j: int| 0 <= j < i ==> is_hex_digit(#[trigger] data@[j]),
            too_big ==> hex_value(data@.take(i as int)) > limit,
            !too_big ==> val == hex_value(data@.take(i as int)),
            val <= limit,
            limit == usize::MAX - 2,
        decreases data.len() - i,
    {
        let d = hex_val(data[i]);
        let ghost prev = data@.take(i as int);
        assert(data@.take((i + 1) as int).drop_last() == prev);
        assert(data@.take((i + 1) as int).last() == data@[i as int]);
        if !too_big {
            if val > (limit - d as usize) / 16 {
                proof {
                    let dd = d as int;
                    let vv = val as int;
                    let ll = limit as int;
                    assert(vv * 16 + dd > ll) by (nonlinear_arith)
                        requires vv > (ll - dd) / 16, 0 <= dd < 16, ll >= 16;
                }
                too_big = true;
            } else {
                proof {
                    let dd = d as int;
                    let vv = val as int;
                    let ll = limit as int;
                    assert(vv * 16 + dd <= ll) by (nonlinear_arith)
                        requires vv <= (ll - dd) / 16, 0 <= dd < 16, ll >= 16;
                }
                val = val * 16 + d as usize;
            }
        }
        i = i + 1;
    }
    proof {
        lemma_hex_run_at(data@, i as nat);
    }
    if i == 0 || i == data.len() {
        true
    } else {
        !too_big
    }
}

fn is_hex(b: u8) -> (r: bool)
    ensures
        r == is_hex_digit(b),
{
    (48 <= b && b <= 57) || (65 <= b && b <= 70) || (97 <= b && b <= 102)
}

fn hex_val(b: u8) -> (r: u8)
    requires
        is_hex_digit(b),
    ensures
        r == hex_digit_value(b),
        r < 16,
{
    if 48 <= b && b <= 57 {
        b - 48
    } else if 65 <= b && b <= 70 {
        b - 55
    } else {
        b - 87
    }
}

/// Decoder of an HTTP/1 message body as it arrives: either a body of known
/// length or one in the chunked transfer coding.
pub struct SendStream {
    /// Bytes received and not yet decoded.
    pub read_buf: Vec<u8>,
    real_read_buf: Vec<u8>,
    is_chunked: bool,
    is_end: bool,
    is_end_headers: bool,
    left_read_body_len: usize,
}

impl View for SendStream {
    type V = SendView;

    closed spec fn view(&self) -> SendView {
        SendView {
            read: self.read_buf@,
            out: self.real_read_buf@,
            chunked: self.is_chunked,
            end: self.is_end,
            end_headers: self.is_end_headers,
            left: self.left_read_body_len as nat,
        }
    }
}

impl SendStream {
    /// A decoder with nothing buffered, at the end of a (missing) body.
    pub fn empty() -> (s: SendStream)
        ensures
            s@ == (SendView {
                read: Seq::empty(),
                out: Seq::empty(),
                chunked: false,
                end: true,
                end_headers: false,
                left: 0,
            }),
    {
        SendStream {
            read_buf: Vec::new(),
            real_read_buf: Vec::new(),
            is_end: true,
            is_end_headers: false,
            is_chunked: false,
            left_read_body_len: 0,
        }
    }

    /// The headers of a new message were read: a new body begins.
    pub fn set_new_body(&mut self)
        ensures
            final(self)@ == (SendView { end_headers: true, end: false, chunked: false, left: 0, ..old(self)@ }),
    {
        self.is_end_headers = true;
        self.is_end = false;
        self.is_chunked = false;
        self.left_read_body_len = 0;
    }

    /// The body has `left_read_body_len` bytes still to come.
    pub fn set_left_body(&mut self, left_read_body_len: usize)
        ensures
            final(self)@ == (SendView { left: left_read_body_len as nat, end: false, ..old(self)@ }),
    {
        self.left_read_body_len = left_read_body_len;
        self.is_end = false;
    }

    pub fn set_chunked(&mut self, chunked: bool)
        ensures
            final(self)@ == (SendView { chunked: chunked, ..old(self)@ }),
    {
        self.is_chunked = chunked;
    }

    pub fn set_end_headers(&mut self, is_end_headers: bool)
        ensures
            final(self)@ == (SendView { end_headers: is_end_headers, ..old(self)@ }),
    {
        self.is_end_headers = is_end_headers;
    }

    pub fn is_end(&self) -> (r: bool)
        ensures
            r == self@.end,
    {
        self.is_end
    }

    /// The bytes received and not yet decoded.
    pub fn read_bytes(&self) -> (r: &[u8])
        ensures
            r@ == self@.read,
    {
        self.read_buf.as_slice()
    }

    /// Appends newly received bytes to the undecoded buffer.
    pub fn put_slice(&mut self, data: &[u8])
        ensures
            final(self)@ == (SendView { read: old(self)@.read + data@, ..old(self)@ }),
    {
        append_bytes(&mut self.read_buf, data);
    }

    /// Removes the first `n` bytes of the undecoded buffer.
    pub fn advance_read(&mut self, n: usize)
        requires
            n <= old(self)@.read.len(),
        ensures
            final(self)@ == (SendView { read: old(self)@.read.skip(n as int), ..old(self)@ }),
    {
        let rest = self.read_buf.split_off(n);
        self.read_buf = rest;
    }

    /// Decodes what the buffer holds of the body: in the chunked coding,
    /// every complete chunk up to the last one; otherwise up to the bytes
    /// that the body still lacks. Before the headers end nothing happens.
    pub fn process_data(&mut self) -> (r: ProtResult<()>)
        ensures
            (final(self)@, outcome_of(r)) == spec_process(old(self)@),
    {
        if !self.is_end_headers {
            return Ok(());
        }
        if self.is_chunked {
            if self.is_end {
                return Ok(());
            }
            loop
                invariant_except_break
                    self.is_end_headers,
                    self.is_chunked,
                    !self.is_end,
                    old(self)@.end_headers,
                    old(self)@.chunked,
                    !old(self)@.end,
                    spec_dechunk(self@.read, self@.out) == spec_dechunk(old(self)@.read, old(self)@.out),
                    self@.left == old(self)@.left,
                ensures
                    ({
                        let (rest, out, end, _) = spec_dechunk(old(self)@.read, old(self)@.out);
                        self@ == (SendView { read: rest, out: out, end: end, ..old(self)@ })
                    }),
                    spec_dechunk(old(self)@.read, old(self)@.out).3 == DecodeOutcome::Done,
                decreases self.read_buf@.len(),
            {
                if self.is_end {
                    return Ok(());
                }
                if !chunk_size_fits(self.read_buf.as_slice()) {
                    return Err(ProtError::ChunkTooLarge);
                }
                let ghost before = self@;
                let total = self.read_buf.len();
                match parse_chunk_head(self.read_buf.as_slice()) {
                    Ok((used, size)) => {
                        proof {
                            lemma_chunk_head_bounds(before.read);
                        }
                        self.is_end = size == 0;
                        self.advance_read(used);
                        let data = slice_prefix(self.read_buf.as_slice(), size);
                        append_bytes(&mut self.real_read_buf, data);
                        self.advance_read(size);
                        let (m, res) = skip_new_line(self.read_buf.as_slice());
                        let ghost after = before.read.skip((used + size) as int);
                        proof {
                            assert(before.read.subrange(used as int, (used + size) as int)
                                =~= before.read.skip(used as int).take(size as int));
                            assert(after =~= before.read.skip(used as int).skip(size as int));
                            assert(self.read_buf@ == after);
                            match spec_chunk_head(before.read) {
                                ChunkHead::Head { used: u, size: z } => {
                                    assert(u == used as nat);
                                    assert(z == size as nat);
                                },
                                _ => {
                                    assert(false);
                                },
                            }
                        }
                        self.advance_read(m);
                        match res {
                            Ok(()) => {},
                            Err(f) => {
                                return Err(ProtError::Web(f));
                            },
                        }
                        if self.is_end {
                            return Ok(());
                        }
                    },
                    Err(WebFault::Partial) => {
                        break;
                    },
                    Err(f) => {
                        return Err(ProtError::Web(f));
                    },
                }
            }
            Ok(())
        } else {
            let len = if self.left_read_body_len < self.read_buf.len() {
                self.left_read_body_len
            } else {
                self.read_buf.len()
            };
            if len == 0 {
                return Ok(());
            }
            self.left_read_body_len = self.left_read_body_len - len;
            if self.left_read_body_len == 0 {
                self.is_end = true;
            }
            let data = slice_prefix(self.read_buf.as_slice(), len);
            append_bytes(&mut self.real_read_buf, data);
            self.advance_read(len);
            Ok(())
        }
    }

    /// Decodes what it can, then moves the decoded bytes to the end of
    /// `read_data` and returns how many were moved.
    pub fn read_data(&mut self, read_data: &mut Vec<u8>) -> (r: ProtResult<usize>)
        ensures
            match r {
                Ok(n) => {
                    let (v, o) = spec_process(old(self)@);
                    &&& o == DecodeOutcome::Done
                    &&& final(self)@ == (SendView { out: Seq::empty(), ..v })
                    &&& final(read_data)@ == old(read_data)@ + v.out
                    &&& n == v.out.len()
                },
                Err(e) => {
                    &&& outcome_of(Err(e)) == spec_process(old(self)@).1
                    &&& final(self)@ == spec_process(old(self)@).0
                    &&& final(read_data)@ == old(read_data)@
                },
            },
    {
        match self.process_data() {
            Ok(()) => {},
            Err(e) => {
                return Err(e);
            },
        }
        let size = self.real_read_buf.len();
        if size > 0 {
            append_bytes(read_data, self.real_read_buf.as_slice());
            self.real_read_buf.clear();
        }
        proof {
            if size == 0 {
                assert(self.real_read_buf@ == Seq::<u8>::empty());
                assert(read_data@ == old(read_data)@ + self.real_read_buf@);
            }
        }
        Ok(size)
    }
}

/// The first `n` bytes of `s`.
fn slice_prefix(s: &[u8], n: usize) -> (r: &[u8])
    requires
        n <= s@.len(),
    ensures
        r@ == s@.take(n as int),
{
    &s[0..n]
}

/// Lemma: a complete chunk head lies inside the buffer and is not empty.
pub proof fn lemma_chunk_head_bounds(s: Seq<u8>)
    ensures
        spec_chunk_head(s) matches ChunkHead::Head { used, size } ==> {
            &&& 0 < used
            &&& used + size + 2 <= s.len()
        },
{
    lemma_hex_run_bound(s);
}

} // verus!

verus! {

/// The chunked coding of a run of pieces: one chunk per piece.
pub open spec fn encode_pieces(pieces: Seq<Seq<u8>>) -> Seq<u8>
    decreases pieces.len(),
{
    if pieces.len() == 0 {
        Seq::empty()
    } else {
        chunk_frame(pieces[0]) + encode_pieces(pieces.drop_first())
    }
}

/// The pieces joined in order.
pub open spec fn join_pieces(pieces: Seq<Seq<u8>>) -> Seq<u8>
    decreases pieces.len(),
{
    if pieces.len() == 0 {
        Seq::empty()
    } else {
        pieces[0] + join_pieces(pieces.drop_first())
    }
}

/// Lemma: the lower-case hex rendering of `n` is a non-empty run of hex
/// digits whose value is `n`.
pub proof fn lemma_lower_hex(n: nat)
    ensures
        lower_hex(n).len() >= 1,
        forall|j: int| 0 <= j < lower_hex(n).len() ==> is_hex_digit(#[trigger] lower_hex(n)[j]),
        hex_value(lower_hex(n)) == n,
    decreases n,
{
    if n < 16 {
        let s = lower_hex(n);
        lemma_lower_hex_digit(n);
        assert(s.drop_last() =~= Seq::<u8>::empty());
        assert(hex_value(s) == hex_value(s.drop_last()) * 16 + hex_digit_value(s.last()));
    } else {
        let q = n / 16;
        let r = n % 16;
        vstd::arithmetic::div_mod::lemma_fundamental_div_mod(n as int, 16);
        lemma_lower_hex(q);
        lemma_lower_hex_digit(r);
        let s = lower_hex(n);
        assert(s.drop_last() =~= lower_hex(q));
        assert(s.last() == lower_hex_digit(r));
        assert(hex_value(s) == hex_value(s.drop_last()) * 16 + hex_digit_value(s.last()));
        assert(n == 16 * q + r);
        assert forall|j: int| 0 <= j < s.len() implies is_hex_digit(#[trigger] s[j]) by {
            if j < s.len() - 1 {
                assert(s[j] == lower_hex(q)[j]);
            }
        }
    }
}

/// Lemma: a lower-case hex digit is a hex digit of the right value.
pub proof fn lemma_lower_hex_digit(d: nat)
    requires
        d < 16,
    ensures
        is_hex_digit(lower_hex_digit(d)),
        hex_digit_value(lower_hex_digit(d)) == d,
{
}

/// Lemma: the head of a chunk produced by [`chunk_frame`] is read back as
/// announcing the chunk's data.
pub proof fn lemma_frame_head(data: Seq<u8>, rest: Seq<u8>)
    requires
        data.len() + 2 <= usize::MAX,
    ensures
        ({
            let s = chunk_frame(data) + rest;
            let k = lower_hex(data.len()).len();
            &&& chunk_head_in_range(s)
            &&& spec_chunk_head(s) == (ChunkHead::Head { used: k + 2, size: data.len() })
            &&& s.subrange((k + 2) as int, (k + 2 + data.len()) as int) == data
            &&& s.skip((k + 2 + data.len()) as int) == crlf() + rest
        }),
{
    let h = lower_hex(data.len());
    let k = h.len();
    let s = chunk_frame(data) + rest;
    lemma_lower_hex(data.len());
    assert(s =~= h + (crlf() + data + crlf() + rest));
    assert forall|j: int| 0 <= j < k implies is_hex_digit(#[trigger] s[j]) by {
        assert(s[j] == h[j]);
    }
    assert(s[k as int] == 13u8);
    lemma_hex_run_at(s, k);
    assert(s.take(k as int) =~= h);
    assert(s.skip(k as int) =~= crlf() + data + crlf() + rest);
    assert(s.subrange((k + 2) as int, (k + 2 + data.len()) as int) =~= data);
    assert(s.skip((k + 2 + data.len()) as int) =~= crlf() + rest);
}

/// Lemma: decoding a run of chunks followed by the last chunk.
pub proof fn lemma_dechunk_pieces(pieces: Seq<Seq<u8>>, rest: Seq<u8>, out: Seq<u8>)
    requires
        forall|i: int| 0 <= i < pieces.len() ==> (#[trigger] pieces[i]).len() > 0,
        forall|i: int| 0 <= i < pieces.len() ==> (#[trigger] pieces[i]).len() + 2 <= usize::MAX,
    ensures
        spec_dechunk(encode_pieces(pieces) + chunk_frame(Seq::empty()) + rest, out)
            == (rest, out + join_pieces(pieces), true, DecodeOutcome::Done),
    decreases pieces.len(),
{
    let last = chunk_frame(Seq::<u8>::empty());
    if pieces.len() == 0 {
        let s = encode_pieces(pieces) + last + rest;
        assert(s =~= chunk_frame(Seq::<u8>::empty()) + rest);
        lemma_frame_head(Seq::<u8>::empty(), rest);
        let k = lower_hex(0).len();
        assert(spec_line_end(crlf() + rest) == LineEnd::Ended(2));
        assert((crlf() + rest).skip(2) =~= rest);
        assert(s.subrange((k + 2) as int, (k + 2) as int) =~= Seq::<u8>::empty());
        assert(out + Seq::<u8>::empty() =~= out);
        assert(out + join_pieces(pieces) =~= out);
    } else {
        let p = pieces[0];
        let tail = pieces.drop_first();
        let rest2 = encode_pieces(tail) + last + rest;
        let s = encode_pieces(pieces) + last + rest;
        assert(s =~= chunk_frame(p) + rest2);
        lemma_frame_head(p, rest2);
        let k = lower_hex(p.len()).len();
        assert(spec_line_end(crlf() + rest2) == LineEnd::Ended(2));
        assert((crlf() + rest2).skip(2) =~= rest2);
        assert forall|i: int| 0 <= i < tail.len() implies (#[trigger] tail[i]).len() > 0 by {
            assert(tail[i] == pieces[i + 1]);
        }
        assert forall|i: int| 0 <= i < tail.len() implies (#[trigger] tail[i]).len() + 2 <= usize::MAX by {
            assert(tail[i] == pieces[i + 1]);
        }
        lemma_dechunk_pieces(tail, rest, out + p);
        assert(out + p + join_pieces(tail) =~= out + join_pieces(pieces));
    }
}

/// Law: what the chunked coding carries is what the body decoder gives back.
/// A body in the chunked coding whose chunks carry non-empty pieces and end
/// with the last (empty) chunk is decoded, in one call of
/// [`SendStream::process_data`], to the pieces in order; the body is then
/// ended and the bytes that follow the body stay unread.
pub proof fn law_chunked_roundtrip(v: SendView, pieces: Seq<Seq<u8>>, rest: Seq<u8>)
    requires
        v.end_headers,
        v.chunked,
        !v.end,
        v.read == encode_pieces(pieces) + chunk_frame(Seq::empty()) + rest,
        forall|i: int| 0 <= i < pieces.len() ==> (#[trigger] pieces[i]).len() > 0,
        forall|i: int| 0 <= i < pieces.len() ==> (#[trigger] pieces[i]).len() + 2 <= usize::MAX,
    ensures
        spec_process(v) == (SendView { read: rest, out: v.out + join_pieces(pieces), end: true, ..v }, DecodeOutcome::Done),
{
    lemma_dechunk_pieces(pieces, rest, v.out);
}

} // verus!
