use vstd::prelude::*;
use webparse::{Helper, HttpError, WebError};

use crate::error::WebFault;

verus! {

// ---------------------------------------------------------------------------
// Byte-level specifications shared by the framing code
// ---------------------------------------------------------------------------

pub open spec fn is_hex_digit(b: u8) -> bool {
    (48 <= b <= 57) || (65 <= b <= 70) || (97 <= b <= 102)
}

pub open spec fn hex_digit_value(b: u8) -> nat {
    if 48 <= b <= 57 {
        (b - 48) as nat
    } else if 65 <= b <= 70 {
        (b - 55) as nat
    } else {
        (b - 87) as nat
    }
}

/// Number of hexadecimal digits at the front of `s`.
pub open spec fn hex_run_len(s: Seq<u8>) -> nat
    decreases s.len(),
{
    if s.len() == 0 || !is_hex_digit(s[0]) {
        0
    } else {
        1 + hex_run_len(s.drop_first())
    }
}

/// Value of a sequence of hexadecimal digits, most significant first.
pub open spec fn hex_value(s: Seq<u8>) -> nat
    decreases s.len(),
{
    if s.len() == 0 {
        0
    } else {
        hex_value(s.drop_last()) * 16 + hex_digit_value(s.last())
    }
}

/// Lower-case hexadecimal digit for `d < 16`.
pub open spec fn lower_hex_digit(d: nat) -> u8 {
    if d < 10 {
        (48 + d) as u8
    } else {
        (87 + d) as u8
    }
}

/// Lower-case hexadecimal rendering of `n` without leading zeros.
pub open spec fn lower_hex(n: nat) -> Seq<u8>
    decreases n,
{
    if n < 16 {
        seq![lower_hex_digit(n)]
    } else {
        lower_hex(n / 16).push(lower_hex_digit(n % 16))
    }
}

pub open spec fn crlf() -> Seq<u8> {
    seq![13u8, 10u8]
}

/// A chunk of the chunked transfer coding carrying `data`.
pub open spec fn chunk_frame(data: Seq<u8>) -> Seq<u8> {
    lower_hex(data.len()) + crlf() + data + crlf()
}

/// Does `b` occur as a contiguous part of `a`?
pub open spec fn contains_bytes_spec(a: Seq<u8>, b: Seq<u8>) -> bool {
    exists|i: int| 0 <= i && i + b.len() <= a.len() && #[trigger] a.subrange(i, i + b.len()) == b
}

/// Outcome of reading one line ending at the front of a buffer: how many
/// bytes were consumed and whether the ending was complete, incomplete or
/// malformed.
pub enum LineEnd {
    Ended(nat),
    Partial(nat),
    Broken(nat),
}

pub open spec fn spec_line_end(s: Seq<u8>) -> LineEnd {
    if s.len() == 0 {
        LineEnd::Partial(0)
    } else if s[0] == 13 {
        if s.len() < 2 {
            LineEnd::Partial(1)
        } else if s[1] == 10 {
            LineEnd::Ended(2)
        } else {
            LineEnd::Broken(2)
        }
    } else if s[0] == 10 || s[0] == 32 {
        LineEnd::Ended(1)
    } else {
        LineEnd::Partial(1)
    }
}

/// Outcome of reading the size line of one chunk.
pub enum ChunkHead {
    /// The size line spans `used` bytes and announces `size` bytes of data,
    /// and the data plus its line ending are present.
    Head { used: nat, size: nat },
    Partial,
    BadToken,
    BadNewLine,
}

pub open spec fn spec_chunk_head(s: Seq<u8>) -> ChunkHead {
    let k = hex_run_len(s);
    if k == s.len() {
        ChunkHead::Partial
    } else if k == 0 {
        ChunkHead::BadToken
    } else {
        match spec_line_end(s.skip(k as int)) {
            LineEnd::Ended(m) => {
                let n = hex_value(s.take(k as int));
                if n + 2 > s.len() - k - m {
                    ChunkHead::Partial
                } else {
                    ChunkHead::Head { used: k + m, size: n }
                }
            },
            LineEnd::Partial(_) => ChunkHead::Partial,
            LineEnd::Broken(_) => ChunkHead::BadNewLine,
        }
    }
}

/// The size field of the chunk at the front of `s`, where one is complete,
/// fits the machine's lengths together with its line ending.
pub open spec fn chunk_head_in_range(s: Seq<u8>) -> bool {
    let k = hex_run_len(s);
    (0 < k < s.len()) ==> hex_value(s.take(k as int)) + 2 <= usize::MAX
}

pub open spec fn chunk_head_result(s: Seq<u8>, r: Result<(usize, usize), WebFault>) -> bool {
    match spec_chunk_head(s) {
        ChunkHead::Head { used, size } => r == Ok::<(usize, usize), WebFault>((used as usize, size as usize)),
        ChunkHead::Partial => r == Err::<(usize, usize), WebFault>(WebFault::Partial),
        ChunkHead::BadToken => r == Err::<(usize, usize), WebFault>(WebFault::Token),
        ChunkHead::BadNewLine => r == Err::<(usize, usize), WebFault>(WebFault::NewLine),
    }
}

pub open spec fn line_end_result(s: Seq<u8>, r: (usize, Result<(), WebFault>)) -> bool {
    match spec_line_end(s) {
        LineEnd::Ended(m) => r.0 == m && r.1 == Ok::<(), WebFault>(()),
        LineEnd::Partial(m) => r.0 == m && r.1 == Err::<(), WebFault>(WebFault::Partial),
        LineEnd::Broken(m) => r.0 == m && r.1 == Err::<(), WebFault>(WebFault::NewLine),
    }
}

/// Appends the bytes of `s` to `v`.
pub fn append_bytes(v: &mut Vec<u8>, s: &[u8])
    ensures
        final(v)@ == old(v)@ + s@,
{
    v.extend_from_slice(s);
    proof {
        assert forall|i: int| 0 <= i < final(v)@.len() implies #[trigger] final(v)@[i] == (old(v)@ + s@)[i] by {
            if i >= old(v)@.len() {
                assert(cloned::<u8>(s@[i - old(v)@.len()], final(v)@[i]));
            }
        }
        assert(final(v)@ =~= old(v)@ + s@);
    }
}

// ---------------------------------------------------------------------------
// Calls into webparse's byte helpers
// ---------------------------------------------------------------------------

/// `webparse::Helper::contains_bytes`: true exactly when `b` occurs as a
/// contiguous part of `a` (the empty pattern occurs everywhere).
#[verifier::external_body]
pub(crate) fn contains_bytes(a: &[u8], b: &[u8]) -> (r: bool)
    ensures
        r == contains_bytes_spec(a@, b@),
{
    Helper::contains_bytes(a, b)
}

/// `webparse::Helper::parse_chunk_data` on a byte slice: reads the hex size
/// field and the line ending after it, and reports `Partial` unless the data
/// and its own line ending are also present; `Token` when no hex digit leads
/// and `NewLine` when a carriage return is not followed by a line feed.
#[verifier::external_body]
pub(crate) fn parse_chunk_head(data: &[u8]) -> (r: Result<(usize, usize), WebFault>)
    requires
        chunk_head_in_range(data@),
    ensures
        chunk_head_result(data@, r),
{
    let mut cursor: &[u8] = data;
    match Helper::parse_chunk_data(&mut cursor) {
        Ok(v) => Ok(v),
        Err(WebError::Http(HttpError::Partial)) => Err(WebFault::Partial),
        Err(WebError::Http(HttpError::Token)) => Err(WebFault::Token),
        Err(WebError::Http(HttpError::NewLine)) => Err(WebFault::NewLine),
        Err(_) => Err(WebFault::Other),
    }
}

/// How many bytes remain after reading one line ending at the front of `s`.
pub open spec fn line_end_rest(s: Seq<u8>, r: (usize, Result<(), WebFault>)) -> bool {
    match spec_line_end(s) {
        LineEnd::Ended(m) => r.0 == s.len() - m && r.1 == Ok::<(), WebFault>(()),
        LineEnd::Partial(m) => r.0 == s.len() - m && r.1 == Err::<(), WebFault>(WebFault::Partial),
        LineEnd::Broken(m) => r.0 == s.len() - m && r.1 == Err::<(), WebFault>(WebFault::NewLine),
    }
}

/// `webparse::Helper::skip_new_line` on a byte slice: consumes `\r\n`, `\n`
/// or a space; reports how many bytes are left after what it consumed, also
/// when it fails.
#[verifier::external_body]
fn skip_new_line_rest(data: &[u8]) -> (r: (usize, Result<(), WebFault>))
    ensures
        line_end_rest(data@, r),
{
    let mut cursor: &[u8] = data;
    match Helper::skip_new_line(&mut cursor) {
        Ok(()) => (cursor.len(), Ok(())),
        Err(WebError::Http(HttpError::Partial)) => (cursor.len(), Err(WebFault::Partial)),
        Err(WebError::Http(HttpError::NewLine)) => (cursor.len(), Err(WebFault::NewLine)),
        Err(_) => (cursor.len(), Err(WebFault::Other)),
    }
}

/// Reads one line ending at the front of `data`: how many bytes it took,
/// and whether the ending was complete.
pub(crate) fn skip_new_line(data: &[u8]) -> (r: (usize, Result<(), WebFault>))
    ensures
        line_end_result(data@, r),
{
    let (rest, res) = skip_new_line_rest(data);
    (data.len() - rest, res)
}

/// `webparse::Helper::encode_chunk_data`: appends one chunk carrying `data`
/// (its length in lower-case hex, CRLF, the data, CRLF) and returns the
/// number of bytes appended.
#[verifier::external_body]
pub(crate) fn encode_chunk_data(buffer: &mut Vec<u8>, data: &[u8]) -> (r: usize)
    ensures
        final(buffer)@ == old(buffer)@ + chunk_frame(data@),
        r == chunk_frame(data@).len(),
{
    let mut out = algorithm::buf::BinaryMut::new();
    let size = Helper::encode_chunk_data(&mut out, data).unwrap_or(0);
    buffer.extend_from_slice(algorithm::buf::Bt::chunk(&out));
    size
}

} // verus!
