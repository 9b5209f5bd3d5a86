use vstd::prelude::*;

use crate::consts::Consts;
use crate::error::ProtResult;
use crate::helper::{append_bytes, contains_bytes, contains_bytes_spec};
use crate::recv_stream::{spec_process_recv, RecvStream, RecvView};

verus! {

/// The protocol version of a message.
#[derive(Debug, Clone, Copy, PartialEq, Eq)]
pub enum HttpVersion {
    Unset,
    Http10,
    Http11,
    Http2,
    Http3,
}

impl HttpVersion {
    pub open spec fn spec_is_http1(self) -> bool {
        self is Http10 || self is Http11
    }

    pub open spec fn spec_is_http2(self) -> bool {
        self is Http2
    }

    pub fn is_http1(&self) -> (r: bool)
        ensures
            r == self.spec_is_http1(),
    {
        match self {
            HttpVersion::Http10 => true,
            HttpVersion::Http11 => true,
            _ => false,
        }
    }

    pub fn is_http2(&self) -> (r: bool)
        ensures
            r == self.spec_is_http2(),
    {
        match self {
            HttpVersion::Http2 => true,
            _ => false,
        }
    }
}

pub open spec fn gzip_token() -> Seq<u8> {
    seq![103u8, 122u8, 105u8, 112u8]
}

pub open spec fn deflate_token() -> Seq<u8> {
    seq![100u8, 101u8, 102u8, 108u8, 97u8, 116u8, 101u8]
}

pub open spec fn br_token() -> Seq<u8> {
    seq![98u8, 114u8]
}

/// The compression method that a `Content-Encoding` value names: gzip wins
/// over deflate, which wins over brotli ("br").
pub open spec fn spec_compress_method(content_encoding: Option<Seq<u8>>) -> i8 {
    match content_encoding {
        Some(v) => {
            if contains_bytes_spec(v, gzip_token()) {
                Consts::COMPRESS_METHOD_GZIP
            } else if contains_bytes_spec(v, deflate_token()) {
                Consts::COMPRESS_METHOD_DEFLATE
            } else if contains_bytes_spec(v, br_token()) {
                Consts::COMPRESS_METHOD_BROTLI
            } else {
                Consts::COMPRESS_METHOD_NONE
            }
        },
        None => Consts::COMPRESS_METHOD_NONE,
    }
}

/// Changes to make to the headers of a message before it is sent.
#[derive(Debug, Clone, PartialEq, Eq)]
pub struct HeaderEdits {
    /// Remove `Transfer-Encoding`, `Connection` and `Keep-Alive` (not
    /// allowed in HTTP/2).
    pub remove_connection_headers: bool,
    /// Set `Content-Length` to this value.
    pub content_length: Option<usize>,
    /// Set `Transfer-Encoding: chunked`.
    pub set_chunked: bool,
}

/// What the headers of a message say about its body, as read by webparse.
#[derive(Debug, Clone, Copy, PartialEq, Eq)]
pub struct HeaderFacts {
    /// `Transfer-Encoding` mentions chunked.
    pub is_chunked: bool,
    /// The value of `Content-Length`, or 0 when absent or unreadable.
    pub body_len: isize,
}

/// The header edits made by [`HeaderHelper::process_headers`], given the
/// compression method in force and the state of the body (after it was
/// processed, where it is).
pub open spec fn spec_header_edits(
    version: HttpVersion,
    compress: i8,
    facts: HeaderFacts,
    body_end: bool,
    processed_len: nat,
) -> HeaderEdits {
    let remove = version.spec_is_http2();
    if compress == Consts::COMPRESS_METHOD_NONE {
        if !facts.is_chunked && facts.body_len == 0 && body_end {
            HeaderEdits { remove_connection_headers: remove, content_length: Some(processed_len as usize), set_chunked: false }
        } else {
            HeaderEdits { remove_connection_headers: remove, content_length: None, set_chunked: false }
        }
    } else if facts.body_len == 0 {
        if !body_end {
            HeaderEdits {
                remove_connection_headers: remove,
                content_length: None,
                set_chunked: !facts.is_chunked && version.spec_is_http1(),
            }
        } else if !facts.is_chunked {
            HeaderEdits { remove_connection_headers: remove, content_length: Some(processed_len as usize), set_chunked: false }
        } else {
            HeaderEdits { remove_connection_headers: remove, content_length: None, set_chunked: false }
        }
    } else {
        HeaderEdits { remove_connection_headers: remove, content_length: None, set_chunked: false }
    }
}

/// The body after [`HeaderHelper::process_headers`] set up its compression.
pub open spec fn spec_set_up(v: RecvView, is_client: bool, m: i8, facts: HeaderFacts) -> RecvView {
    if is_client {
        RecvView { origin: m, now: Consts::COMPRESS_METHOD_NONE, ..v }
    } else {
        RecvView { chunked: facts.is_chunked, now: m, ..v }
    }
}

/// Does [`HeaderHelper::process_headers`] process the body?
pub open spec fn spec_processes_body(compress: i8, facts: HeaderFacts, body_end: bool) -> bool {
    if compress == Consts::COMPRESS_METHOD_NONE {
        !facts.is_chunked && facts.body_len == 0 && body_end
    } else {
        facts.body_len == 0 && body_end
    }
}

/// What [`HeaderHelper::process_headers`] does to the body and answers.
pub open spec fn spec_process_headers(
    version: HttpVersion,
    is_client: bool,
    content_encoding: Option<Seq<u8>>,
    facts: HeaderFacts,
    v: RecvView,
    w: RecvView,
    r: ProtResult<HeaderEdits>,
) -> bool {
    let m = spec_compress_method(content_encoding);
    let set_up = spec_set_up(v, is_client, m, facts);
    let compress = if is_client {
        Consts::COMPRESS_METHOD_NONE
    } else if m == v.origin {
        0
    } else {
        m
    };
    if spec_processes_body(compress, facts, set_up.end) {
        exists|p: ProtResult<usize>|
            #[trigger] spec_process_recv(set_up, w, p) && match p {
                Err(e) => r == Err::<HeaderEdits, crate::error::ProtError>(e),
                Ok(_) => r == Ok::<HeaderEdits, crate::error::ProtError>(
                    spec_header_edits(version, compress, facts, true, w.cache.len()),
                ),
            }
    } else {
        &&& w == set_up
        &&& r == Ok::<HeaderEdits, crate::error::ProtError>(spec_header_edits(version, compress, facts, set_up.end, 0))
    }
}

/// Header decisions for messages passing through the protocol layer.
pub struct HeaderHelper;

impl HeaderHelper {
    /// The compression method named by a `Content-Encoding` value.
    pub fn get_compress_method(content_encoding: Option<&[u8]>) -> (r: i8)
        ensures
            r == spec_compress_method(
                match content_encoding {
                    Some(v) => Some(v@),
                    None => None,
                },
            ),
    {
        match content_encoding {
            Some(value) => {
                let gzip: [u8; 4] = [103, 122, 105, 112];
                let deflate: [u8; 7] = [100, 101, 102, 108, 97, 116, 101];
                let br: [u8; 2] = [98, 114];
                proof {
                    assert(gzip@ =~= gzip_token());
                    assert(deflate@ =~= deflate_token());
                    assert(br@ =~= br_token());
                }
                if contains_bytes(value, &gzip) {
                    Consts::COMPRESS_METHOD_GZIP
                } else if contains_bytes(value, &deflate) {
                    Consts::COMPRESS_METHOD_DEFLATE
                } else if contains_bytes(value, &br) {
                    Consts::COMPRESS_METHOD_BROTLI
                } else {
                    Consts::COMPRESS_METHOD_NONE
                }
            },
            None => Consts::COMPRESS_METHOD_NONE,
        }
    }

    /// Prepares a message for sending: says whether its connection headers
    /// go (HTTP/2 drops them, before anything else, so also when the rest
    /// fails), sets up the compression of its body (a client passes the
    /// received encoding through; a server encodes the body as its
    /// `Content-Encoding` asks) and says how the other headers must change:
    /// a complete body gets its `Content-Length`, and an unfinished
    /// compressed HTTP/1 body goes out chunked.
    pub fn process_headers(
        version: HttpVersion,
        is_client: bool,
        content_encoding: Option<&[u8]>,
        facts: HeaderFacts,
        body: &mut RecvStream,
    ) -> (r: (bool, ProtResult<HeaderEdits>))
        ensures
            r.0 == version.spec_is_http2(),
            spec_process_headers(
                version,
                is_client,
                match content_encoding {
                    Some(v) => Some(v@),
                    None => None,
                },
                facts,
                old(body)@,
                final(body)@,
                r.1,
            ),
    {
        let remove = version.is_http2();
        (remove, Self::prepare_body(version, is_client, content_encoding, facts, body))
    }

    fn prepare_body(
        version: HttpVersion,
        is_client: bool,
        content_encoding: Option<&[u8]>,
        facts: HeaderFacts,
        body: &mut RecvStream,
    ) -> (r: ProtResult<HeaderEdits>)
        ensures
            spec_process_headers(
                version,
                is_client,
                match content_encoding {
                    Some(v) => Some(v@),
                    None => None,
                },
                facts,
                old(body)@,
                final(body)@,
                r,
            ),
    {
        let method = Self::get_compress_method(content_encoding);
        let remove = version.is_http2();
        let is_chunked = facts.is_chunked;
        let compress = if is_client {
            body.set_origin_compress_method(method);
            body.get_now_compress()
        } else {
            body.set_chunked(is_chunked);
            body.add_compress_method(method)
        };
        let ghost set_up = body@;
        assert(set_up == spec_set_up(old(body)@, is_client, method, facts));
        let header_body_len = facts.body_len;
        if compress == Consts::COMPRESS_METHOD_NONE {
            if !is_chunked && header_body_len == 0 && body.is_end() {
                let p = body.process_data();
                assert(spec_process_recv(set_up, body@, p));
                match p {
                    Err(e) => {
                        return Err(e);
                    },
                    Ok(_) => {},
                }
                let len = body.body_len();
                let res = HeaderEdits { remove_connection_headers: remove, content_length: Some(len), set_chunked: false };
                assert(spec_process_headers(version, is_client, match content_encoding {
                    Some(v) => Some(v@),
                    None => None,
                }, facts, old(body)@, body@, Ok::<HeaderEdits, crate::error::ProtError>(res)));
                return Ok(res);
            }
            Ok(HeaderEdits { remove_connection_headers: remove, content_length: None, set_chunked: false })
        } else {
            if header_body_len == 0 {
                if !body.is_end() {
                    let chunk = !is_chunked && version.is_http1();
                    Ok(HeaderEdits { remove_connection_headers: remove, content_length: None, set_chunked: chunk })
                } else {
                    let p = body.process_data();
                    assert(spec_process_recv(set_up, body@, p));
                    match p {
                        Err(e) => {
                            return Err(e);
                        },
                        Ok(_) => {},
                    }
                    if !is_chunked {
                        let len = body.body_len();
                        Ok(HeaderEdits { remove_connection_headers: remove, content_length: Some(len), set_chunked: false })
                    } else {
                        Ok(HeaderEdits { remove_connection_headers: remove, content_length: None, set_chunked: false })
                    }
                }
            } else {
                Ok(HeaderEdits { remove_connection_headers: remove, content_length: None, set_chunked: false })
            }
        }
    }
}


/// `{host}`
pub open spec fn host_var() -> Seq<u8> {
    seq![123u8, 104u8, 111u8, 115u8, 116u8, 125u8]
}

/// `{url}`
pub open spec fn url_var() -> Seq<u8> {
    seq![123u8, 117u8, 114u8, 108u8, 125u8]
}

/// `unknown`
pub open spec fn unknown_word() -> Seq<u8> {
    seq![117u8, 110u8, 107u8, 110u8, 111u8, 119u8, 110u8]
}

/// A configured header value with its variable filled in: a value that
/// starts with `{` names a variable, which the message's system headers
/// answer first; a request also knows `{host}` (empty when it has none) and
/// `{url}`; any other variable is `unknown`. Other values stay as they are.
pub open spec fn spec_convert_value(
    value: Seq<u8>,
    is_request: bool,
    system: Option<Seq<u8>>,
    host: Option<Seq<u8>>,
    url: Seq<u8>,
) -> Seq<u8> {
    if value.len() == 0 || value[0] != 123u8 {
        value
    } else if system is Some {
        system->0
    } else if is_request && value == host_var() {
        match host {
            Some(h) => h,
            None => Seq::empty(),
        }
    } else if is_request && value == url_var() {
        url
    } else {
        unknown_word()
    }
}

fn same_bytes(a: &[u8], b: &[u8]) -> (r: bool)
    ensures
        r == (a@ == b@),
{
    if a.len() != b.len() {
        return false;
    }
    let mut i: usize = 0;
    while i < a.len()
        invariant
            a@.len() == b@.len(),
            i <= a@.len(),
            forall|j: int| 0 <= j < i ==> a@[j] == b@[j],
        decreases a@.len() - i,
    {
        if a[i] != b[i] {
            return false;
        }
        i = i + 1;
    }
    assert(a@ =~= b@);
    true
}

impl HeaderHelper {
    /// Fills in the variable of a configured header value (see
    /// [`spec_convert_value`]): `system` is what the message's headers hold
    /// for the variable, `host` and `url` what a request knows of itself.
    pub fn convert_value(value: &[u8], is_request: bool, system: Option<&[u8]>, host: Option<&[u8]>, url: &[u8]) -> (r: Vec<u8>)
        ensures
            r@ == spec_convert_value(
                value@,
                is_request,
                match system {
                    Some(v) => Some(v@),
                    None => None,
                },
                match host {
                    Some(v) => Some(v@),
                    None => None,
                },
                url@,
            ),
    {
        let mut out: Vec<u8> = Vec::new();
        if value.len() == 0 || value[0] != 123 {
            append_bytes(&mut out, value);
            return out;
        }
        if let Some(v) = system {
            append_bytes(&mut out, v);
            return out;
        }
        let host_name: [u8; 6] = [123, 104, 111, 115, 116, 125];
        let url_name: [u8; 5] = [123, 117, 114, 108, 125];
        let unknown: [u8; 7] = [117, 110, 107, 110, 111, 119, 110];
        proof {
            assert(host_name@ =~= host_var());
            assert(url_name@ =~= url_var());
            assert(unknown@ =~= unknown_word());
        }
        if is_request && same_bytes(value, &host_name) {
            if let Some(h) = host {
                append_bytes(&mut out, h);
            }
            return out;
        }
        if is_request && same_bytes(value, &url_name) {
            append_bytes(&mut out, url);
            return out;
        }
        append_bytes(&mut out, &unknown);
        out
    }
}

} // verus!
