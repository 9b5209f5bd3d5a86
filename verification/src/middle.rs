use vstd::prelude::*;

use crate::error::ProtResult;
use crate::header_helper::{spec_process_headers, HeaderEdits, HeaderFacts, HeaderHelper, HttpVersion};
use crate::recv_stream::RecvStream;

verus! {

/// The middleware every server and client runs first: it prepares the
/// headers and the body encoding of each message that passes.
#[derive(Debug, Clone, Copy)]
pub struct BaseMiddleware {
    pub is_client: bool,
}

impl BaseMiddleware {
    pub fn new(is_client: bool) -> (r: BaseMiddleware)
        ensures
            r.is_client == is_client,
    {
        BaseMiddleware { is_client }
    }

    /// Prepares a request of the given version (see
    /// [`HeaderHelper::process_headers`]).
    pub fn process_request(
        &mut self,
        version: HttpVersion,
        content_encoding: Option<&[u8]>,
        facts: HeaderFacts,
        body: &mut RecvStream,
    ) -> (r: (bool, ProtResult<HeaderEdits>))
        ensures
            *final(self) == *old(self),
            spec_process_headers(
                version,
                old(self).is_client,
                match content_encoding {
                    Some(v) => Some(v@),
                    None => None,
                },
                facts,
                old(body)@,
                final(body)@,
                r.1,
            ),
            r.0 == version.spec_is_http2(),
    {
        HeaderHelper::process_headers(version, self.is_client, content_encoding, facts, body)
    }

    /// Prepares a response of the given version (see
    /// [`HeaderHelper::process_headers`]).
    pub fn process_response(
        &mut self,
        version: HttpVersion,
        content_encoding: Option<&[u8]>,
        facts: HeaderFacts,
        body: &mut RecvStream,
    ) -> (r: (bool, ProtResult<HeaderEdits>))
        ensures
            *final(self) == *old(self),
            spec_process_headers(
                version,
                old(self).is_client,
                match content_encoding {
                    Some(v) => Some(v@),
                    None => None,
                },
                facts,
                old(body)@,
                final(body)@,
                r.1,
            ),
            r.0 == version.spec_is_http2(),
    {
        HeaderHelper::process_headers(version, self.is_client, content_encoding, facts, body)
    }
}

} // verus!
