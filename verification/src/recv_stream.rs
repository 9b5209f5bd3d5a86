use vstd::prelude::*;

use crate::compress::{
    brotli_decode, brotli_decoded, brotli_fed, brotli_flush, brotli_into_inner, brotli_sent,
    brotli_take_output, brotli_write_all, brotli_writer_new, deflate_decode, deflate_decoded,
    deflate_fed, deflate_finish, deflate_sent, deflate_take_output, deflate_write_all,
    deflate_writer_new, gzip_decode, gzip_decoded, gzip_fed, gzip_finish, gzip_sent,
    gzip_take_output, gzip_write_all, gzip_writer_new, BrotliWriter, DeflateWriter, GzipWriter,
};
use crate::consts::Consts;
use crate::error::{ProtError, ProtResult};
use crate::helper::{append_bytes, chunk_frame, encode_chunk_data};
use crate::send_stream::{encode_pieces, join_pieces};

verus! {

/// What `String::from_utf8_lossy` makes of bytes.
pub uninterp spec fn utf8_lossy(bytes: Seq<u8>) -> Seq<char>;

/// `String::from_utf8_lossy` of std, as an owned string. Claimed: the text
/// is [`utf8_lossy`] of the bytes, and bytes that are valid UTF-8 come back
/// as the text they encode (as std documents).
#[verifier::external_body]
fn lossy_text(bytes: &[u8]) -> (r: String)
    ensures
        r@ == utf8_lossy(bytes@),
        vstd::utf8::valid_utf8(bytes@) ==> r@ == vstd::utf8::decode_utf8(bytes@),
{
    String::from_utf8_lossy(bytes).into_owned()
}

/// The bytes that an encoder emitted, as they are written to the outgoing
/// body: nothing when it emitted nothing, else one chunk in the chunked
/// coding, else the bytes themselves.
pub open spec fn emitted(out: Seq<u8>, chunked: bool) -> Seq<u8> {
    if out.len() == 0 {
        Seq::empty()
    } else if chunked {
        chunk_frame(out)
    } else {
        out
    }
}

/// Data written to the outgoing body without an encoder.
pub open spec fn framed(data: Seq<u8>, chunked: bool) -> Seq<u8> {
    if chunked {
        chunk_frame(data)
    } else {
        data
    }
}

/// The closing bytes of an encoded body: the last chunk in the chunked coding.
pub open spec fn closing(chunked: bool) -> Seq<u8> {
    if chunked {
        chunk_frame(Seq::empty())
    } else {
        Seq::empty()
    }
}

pub open spec fn is_codec(m: i8) -> bool {
    m == Consts::COMPRESS_METHOD_GZIP || m == Consts::COMPRESS_METHOD_DEFLATE || m
        == Consts::COMPRESS_METHOD_BROTLI
}

/// The abstract state of a [`RecvStream`].
pub struct RecvView {
    /// Raw body bytes received and not yet encoded (`None`: none pending).
    pub read: Option<Seq<u8>>,
    /// Encoded bytes ready to be sent.
    pub cache: Seq<u8>,
    /// The encoding that the received bytes carry.
    pub origin: i8,
    /// The encoding wanted on the way out.
    pub now: i8,
    pub chunked: bool,
    /// No more raw bytes will arrive.
    pub end: bool,
    /// The outgoing body has been closed.
    pub process_end: bool,
    /// Each encoder that has been opened and not finished: what was fed to
    /// it and what was taken out of it.
    pub gz: Option<EncoderState>,
    pub de: Option<EncoderState>,
    pub br: Option<EncoderState>,
}

/// What an open encoder has been through: the bytes fed to it, and the bytes
/// taken out of it (written to the outgoing body).
pub struct EncoderState {
    pub fed: Seq<u8>,
    pub sent: Seq<u8>,
}

/// The bytes fed to an encoder (none when it is not open).
pub open spec fn fed_of(e: Option<EncoderState>) -> Seq<u8> {
    match e {
        Some(s) => s.fed,
        None => Seq::empty(),
    }
}

/// The bytes taken out of an encoder (none when it is not open).
pub open spec fn sent_of(e: Option<EncoderState>) -> Seq<u8> {
    match e {
        Some(s) => s.sent,
        None => Seq::empty(),
    }
}

/// The encoder of method `m`.
pub open spec fn encoder_of(v: RecvView, m: i8) -> Option<EncoderState> {
    if m == Consts::COMPRESS_METHOD_GZIP {
        v.gz
    } else if m == Consts::COMPRESS_METHOD_DEFLATE {
        v.de
    } else {
        v.br
    }
}

/// `v` with the encoder of method `m` replaced by `e`.
pub open spec fn with_encoder(v: RecvView, m: i8, e: Option<EncoderState>) -> RecvView {
    if m == Consts::COMPRESS_METHOD_GZIP {
        RecvView { gz: e, ..v }
    } else if m == Consts::COMPRESS_METHOD_DEFLATE {
        RecvView { de: e, ..v }
    } else {
        RecvView { br: e, ..v }
    }
}

/// What a complete stream of method `m` decodes to.
pub open spec fn codec_decoded(m: i8, data: Seq<u8>) -> Option<Seq<u8>> {
    if m == Consts::COMPRESS_METHOD_GZIP {
        gzip_decoded(data)
    } else if m == Consts::COMPRESS_METHOD_DEFLATE {
        deflate_decoded(data)
    } else {
        brotli_decoded(data)
    }
}

/// The encoding applied when bytes go out: none when the bytes already carry
/// the wanted encoding.
pub open spec fn spec_now_compress(v: RecvView) -> i8 {
    if v.origin == v.now {
        0
    } else {
        v.now
    }
}

/// The state of an empty body that has ended.
pub open spec fn empty_view() -> RecvView {
    RecvView {
        read: None,
        cache: Seq::empty(),
        origin: 0,
        now: 0,
        chunked: false,
        end: true,
        process_end: false,
        gz: None,
        de: None,
        br: None,
    }
}

/// A message body on its way through the protocol layer: raw bytes come in
/// (possibly compressed), and leave encoded as the peer asked, optionally in
/// the chunked transfer coding.
pub struct RecvStream {
    read_buf: Option<Vec<u8>>,
    cache_body_data: Vec<u8>,
    origin_compress_method: i8,
    now_compress_method: i8,
    write_gz: Option<GzipWriter>,
    write_de: Option<DeflateWriter>,
    write_br: Option<BrotliWriter>,
    is_chunked: bool,
    is_end: bool,
    is_process_end: bool,
}

impl View for RecvStream {
    type V = RecvView;

    closed spec fn view(&self) -> RecvView {
        RecvView {
            read: match self.read_buf {
                Some(b) => Some(b@),
                None => None,
            },
            cache: self.cache_body_data@,
            origin: self.origin_compress_method,
            now: self.now_compress_method,
            chunked: self.is_chunked,
            end: self.is_end,
            process_end: self.is_process_end,
            gz: match self.write_gz {
                Some(w) => Some(EncoderState { fed: gzip_fed(w), sent: gzip_sent(w) }),
                None => None,
            },
            de: match self.write_de {
                Some(w) => Some(EncoderState { fed: deflate_fed(w), sent: deflate_sent(w) }),
                None => None,
            },
            br: match self.write_br {
                Some(w) => Some(EncoderState { fed: brotli_fed(w), sent: brotli_sent(w) }),
                None => None,
            },
        }
    }
}

/// Appends `data` to `buffer`, as one chunk when `is_chunked`; returns the
/// number of bytes appended.
pub fn inner_encode_write_data(buffer: &mut Vec<u8>, data: &[u8], is_chunked: bool) -> (r: usize)
    ensures
        final(buffer)@ == old(buffer)@ + framed(data@, is_chunked),
        r == framed(data@, is_chunked).len(),
{
    if is_chunked {
        encode_chunk_data(buffer, data)
    } else {
        append_bytes(buffer, data);
        data.len()
    }
}

/// Appends what an encoder emitted (nothing when it emitted nothing).
fn write_emitted(buffer: &mut Vec<u8>, out: &Vec<u8>, is_chunked: bool) -> (r: usize)
    ensures
        final(buffer)@ == old(buffer)@ + emitted(out@, is_chunked),
        r == emitted(out@, is_chunked).len(),
{
    if out.len() > 0 {
        inner_encode_write_data(buffer, out.as_slice(), is_chunked)
    } else {
        proof {
            assert(old(buffer)@ + emitted(out@, is_chunked) =~= old(buffer)@);
        }
        0
    }
}

/// Appends the closing bytes of an encoded body; returns their number.
fn write_closing(buffer: &mut Vec<u8>, is_chunked: bool) -> (r: usize)
    ensures
        final(buffer)@ == old(buffer)@ + closing(is_chunked),
        r == closing(is_chunked).len(),
{
    if is_chunked {
        let empty: [u8; 0] = [];
        proof {
            assert(empty@ =~= Seq::<u8>::empty());
        }
        encode_chunk_data(buffer, &empty)
    } else {
        proof {
            assert(old(buffer)@ + closing(is_chunked) =~= old(buffer)@);
        }
        0
    }
}

impl RecvStream {
    /// An empty body that has ended.
    pub fn empty() -> (r: RecvStream)
        ensures
            r@ == empty_view(),
    {
        RecvStream {
            read_buf: None,
            cache_body_data: Vec::new(),
            origin_compress_method: Consts::COMPRESS_METHOD_NONE,
            now_compress_method: Consts::COMPRESS_METHOD_NONE,
            write_gz: None,
            write_de: None,
            write_br: None,
            is_chunked: false,
            is_end: true,
            is_process_end: false,
        }
    }

    /// A complete body holding `binary`.
    pub fn only(binary: Vec<u8>) -> (r: RecvStream)
        ensures
            r@ == (RecvView { read: Some(binary@), ..empty_view() }),
    {
        let mut r = RecvStream::empty();
        r.read_buf = Some(binary);
        r
    }

    /// A body that starts with `binary`; more arrives later unless `is_end`.
    pub fn new(binary: Vec<u8>, is_end: bool) -> (r: RecvStream)
        ensures
            r@ == (RecvView { read: Some(binary@), end: is_end, ..empty_view() }),
    {
        let mut r = RecvStream::empty();
        r.read_buf = Some(binary);
        r.is_end = is_end;
        r
    }

    /// Takes the raw bytes pending (none: an empty vector).
    pub fn binary(&mut self) -> (r: Vec<u8>)
        ensures
            r@ == match old(self)@.read {
                Some(b) => b,
                None => Seq::empty(),
            },
            final(self)@ == (RecvView { read: None, ..old(self)@ }),
    {
        match self.read_buf.take() {
            Some(b) => b,
            None => Vec::new(),
        }
    }

    /// Takes the raw bytes pending, as [`RecvStream::binary`] does.
    pub fn read_now(&mut self) -> (r: Vec<u8>)
        ensures
            r@ == match old(self)@.read {
                Some(b) => b,
                None => Seq::empty(),
            },
            final(self)@ == (RecvView { read: None, ..old(self)@ }),
    {
        self.binary()
    }

    /// The raw bytes pending, read as UTF-8 text (what does not decode
    /// becomes U+FFFD).
    pub fn into_string(self) -> (r: String)
        ensures
            r@ == utf8_lossy(match self@.read {
                Some(b) => b,
                None => Seq::empty(),
            }),
            vstd::utf8::valid_utf8(match self@.read {
                Some(b) => b,
                None => Seq::empty(),
            }) ==> r@ == vstd::utf8::decode_utf8(match self@.read {
                Some(b) => b,
                None => Seq::empty(),
            }),
    {
        let mut stream = self;
        let bytes = stream.read_now();
        lossy_text(bytes.as_slice())
    }

    /// A copy of the raw bytes pending.
    pub fn copy_now(&self) -> (r: Vec<u8>)
        ensures
            r@ == match self@.read {
                Some(b) => b,
                None => Seq::empty(),
            },
    {
        match &self.read_buf {
            Some(b) => {
                let mut v: Vec<u8> = Vec::new();
                append_bytes(&mut v, b.as_slice());
                v
            },
            None => Vec::new(),
        }
    }

    /// The encoding applied when bytes go out.
    pub fn get_now_compress(&self) -> (r: i8)
        ensures
            r == spec_now_compress(self@),
    {
        if self.origin_compress_method == self.now_compress_method {
            return 0;
        }
        self.now_compress_method
    }

    pub fn set_compress_gzip(&mut self)
        ensures
            final(self)@ == (RecvView { origin: Consts::COMPRESS_METHOD_GZIP, now: Consts::COMPRESS_METHOD_NONE, ..old(self)@ }),
    {
        self.origin_compress_method = Consts::COMPRESS_METHOD_GZIP;
        self.now_compress_method = Consts::COMPRESS_METHOD_NONE;
    }

    pub fn set_compress_deflate(&mut self)
        ensures
            final(self)@ == (RecvView { origin: Consts::COMPRESS_METHOD_DEFLATE, now: Consts::COMPRESS_METHOD_NONE, ..old(self)@ }),
    {
        self.origin_compress_method = Consts::COMPRESS_METHOD_DEFLATE;
        self.now_compress_method = Consts::COMPRESS_METHOD_NONE;
    }

    pub fn set_compress_brotli(&mut self)
        ensures
            final(self)@ == (RecvView { origin: Consts::COMPRESS_METHOD_BROTLI, now: Consts::COMPRESS_METHOD_NONE, ..old(self)@ }),
    {
        self.origin_compress_method = Consts::COMPRESS_METHOD_BROTLI;
        self.now_compress_method = Consts::COMPRESS_METHOD_NONE;
    }

    pub fn set_compress_origin_gzip(&mut self)
        ensures
            final(self)@ == (RecvView { origin: Consts::COMPRESS_METHOD_GZIP, now: Consts::COMPRESS_METHOD_NONE, ..old(self)@ }),
    {
        self.origin_compress_method = Consts::COMPRESS_METHOD_GZIP;
        self.now_compress_method = Consts::COMPRESS_METHOD_NONE;
    }

    pub fn set_compress_origin_deflate(&mut self)
        ensures
            final(self)@ == (RecvView { origin: Consts::COMPRESS_METHOD_DEFLATE, now: Consts::COMPRESS_METHOD_NONE, ..old(self)@ }),
    {
        self.origin_compress_method = Consts::COMPRESS_METHOD_DEFLATE;
        self.now_compress_method = Consts::COMPRESS_METHOD_NONE;
    }

    pub fn set_compress_origin_brotli(&mut self)
        ensures
            final(self)@ == (RecvView { origin: Consts::COMPRESS_METHOD_BROTLI, now: Consts::COMPRESS_METHOD_NONE, ..old(self)@ }),
    {
        self.origin_compress_method = Consts::COMPRESS_METHOD_BROTLI;
        self.now_compress_method = Consts::COMPRESS_METHOD_NONE;
    }

    /// The received bytes carry `method`; nothing is wanted on the way out yet.
    pub fn set_origin_compress_method(&mut self, method: i8)
        ensures
            final(self)@ == (RecvView { origin: method, now: Consts::COMPRESS_METHOD_NONE, ..old(self)@ }),
    {
        self.origin_compress_method = method;
        self.now_compress_method = Consts::COMPRESS_METHOD_NONE;
    }

    /// The outgoing bytes should carry `method`; returns the encoding that
    /// will actually be applied.
    pub fn add_compress_method(&mut self, method: i8) -> (r: i8)
        ensures
            final(self)@ == (RecvView { now: method, ..old(self)@ }),
            r == spec_now_compress(final(self)@),
    {
        self.now_compress_method = method;
        self.get_now_compress()
    }

    pub fn is_chunked(&self) -> (r: bool)
        ensures
            r == self@.chunked,
    {
        self.is_chunked
    }

    pub fn set_chunked(&mut self, chunked: bool)
        ensures
            final(self)@ == (RecvView { chunked: chunked, ..old(self)@ }),
    {
        self.is_chunked = chunked;
    }

    pub fn is_end(&self) -> (r: bool)
        ensures
            r == self@.end,
    {
        self.is_end
    }

    pub fn set_end(&mut self, end: bool)
        ensures
            final(self)@ == (RecvView { end: end, ..old(self)@ }),
    {
        self.is_end = end;
    }

    /// Appends received raw bytes; returns their number.
    pub fn cache_buffer(&mut self, buf: &[u8]) -> (r: usize)
        ensures
            final(self)@ == (RecvView {
                read: Some(
                    match old(self)@.read {
                        Some(b) => b,
                        None => Seq::empty(),
                    } + buf@,
                ),
                ..old(self)@
            }),
            r == buf@.len(),
    {
        let mut b = match self.read_buf.take() {
            Some(b) => b,
            None => Vec::new(),
        };
        append_bytes(&mut b, buf);
        self.read_buf = Some(b);
        buf.len()
    }

    /// Number of raw bytes pending.
    pub fn origin_len(&self) -> (r: usize)
        ensures
            r == match self@.read {
                Some(b) => b.len(),
                None => 0,
            },
    {
        match &self.read_buf {
            Some(b) => b.len(),
            None => 0,
        }
    }

    /// Number of encoded bytes ready to be sent.
    pub fn body_len(&self) -> (r: usize)
        ensures
            r == self@.cache.len(),
    {
        self.cache_body_data.len()
    }

    fn encode_gzip(&mut self, data: &[u8]) -> (r: usize)
        ensures
            data@.len() == 0 ==> exists|out: Seq<u8>| #![trigger emitted(out, old(self)@.chunked)]
                {
                    &&& final(self)@ == (RecvView {
                        cache: old(self)@.cache + emitted(out, old(self)@.chunked) + closing(old(self)@.chunked),
                        gz: None,
                        ..old(self)@
                    })
                    &&& gzip_decoded(sent_of(old(self)@.gz) + out) == Some(fed_of(old(self)@.gz))
                    &&& r == closing(old(self)@.chunked).len()
                },
            data@.len() > 0 ==> exists|out: Seq<u8>| #![trigger emitted(out, old(self)@.chunked)]
                {
                    &&& final(self)@ == (RecvView {
                        cache: old(self)@.cache + emitted(out, old(self)@.chunked),
                        gz: Some(EncoderState { fed: fed_of(old(self)@.gz) + data@, sent: sent_of(old(self)@.gz) + out }),
                        ..old(self)@
                    })
                    &&& r == emitted(out, old(self)@.chunked).len()
                },
    {
        if data.len() == 0 {
            let w = match self.write_gz.take() {
                Some(w) => w,
                None => gzip_writer_new(),
            };
            let value = gzip_finish(w);
            write_emitted(&mut self.cache_body_data, &value, self.is_chunked);
            let n = write_closing(&mut self.cache_body_data, self.is_chunked);
            proof {
                assert(self@.cache == old(self)@.cache + emitted(value@, old(self)@.chunked) + closing(old(self)@.chunked));
            }
            n
        } else {
            let mut w = match self.write_gz.take() {
                Some(w) => w,
                None => gzip_writer_new(),
            };
            gzip_write_all(&mut w, data);
            let out = gzip_take_output(&mut w);
            self.write_gz = Some(w);
            let n = write_emitted(&mut self.cache_body_data, &out, self.is_chunked);
            proof {
                assert(self@.cache == old(self)@.cache + emitted(out@, old(self)@.chunked));
            }
            n
        }
    }

    fn encode_deflate(&mut self, data: &[u8]) -> (r: usize)
        ensures
            data@.len() == 0 ==> exists|out: Seq<u8>| #![trigger emitted(out, old(self)@.chunked)]
                {
                    &&& final(self)@ == (RecvView {
                        cache: old(self)@.cache + emitted(out, old(self)@.chunked) + closing(old(self)@.chunked),
                        de: None,
                        ..old(self)@
                    })
                    &&& deflate_decoded(sent_of(old(self)@.de) + out) == Some(fed_of(old(self)@.de))
                    &&& r == closing(old(self)@.chunked).len()
                },
            data@.len() > 0 ==> exists|out: Seq<u8>| #![trigger emitted(out, old(self)@.chunked)]
                {
                    &&& final(self)@ == (RecvView {
                        cache: old(self)@.cache + emitted(out, old(self)@.chunked),
                        de: Some(EncoderState { fed: fed_of(old(self)@.de) + data@, sent: sent_of(old(self)@.de) + out }),
                        ..old(self)@
                    })
                    &&& r == emitted(out, old(self)@.chunked).len()
                },
    {
        if data.len() == 0 {
            let w = match self.write_de.take() {
                Some(w) => w,
                None => deflate_writer_new(),
            };
            let value = deflate_finish(w);
            write_emitted(&mut self.cache_body_data, &value, self.is_chunked);
            let n = write_closing(&mut self.cache_body_data, self.is_chunked);
            proof {
                assert(self@.cache == old(self)@.cache + emitted(value@, old(self)@.chunked) + closing(old(self)@.chunked));
            }
            n
        } else {
            let mut w = match self.write_de.take() {
                Some(w) => w,
                None => deflate_writer_new(),
            };
            deflate_write_all(&mut w, data);
            let out = deflate_take_output(&mut w);
            self.write_de = Some(w);
            let n = write_emitted(&mut self.cache_body_data, &out, self.is_chunked);
            proof {
                assert(self@.cache == old(self)@.cache + emitted(out@, old(self)@.chunked));
            }
            n
        }
    }

    fn encode_brotli(&mut self, data: &[u8]) -> (r: ProtResult<usize>)
        ensures
            data@.len() == 0 ==> match r {
                Ok(n) => exists|out: Seq<u8>| #![trigger emitted(out, old(self)@.chunked)]
                    {
                        &&& final(self)@ == (RecvView {
                            cache: old(self)@.cache + emitted(out, old(self)@.chunked) + closing(old(self)@.chunked),
                            br: None,
                            ..old(self)@
                        })
                        &&& brotli_decoded(sent_of(old(self)@.br) + out) == Some(fed_of(old(self)@.br))
                        &&& n == closing(old(self)@.chunked).len()
                    },
                Err(e) => e == ProtError::Io && final(self)@ == (RecvView { br: None, ..old(self)@ }),
            },
            data@.len() > 0 ==> exists|out: Seq<u8>| #![trigger emitted(out, old(self)@.chunked)]
                {
                    &&& final(self)@ == (RecvView {
                        cache: old(self)@.cache + emitted(out, old(self)@.chunked),
                        br: Some(EncoderState { fed: fed_of(old(self)@.br) + data@, sent: sent_of(old(self)@.br) + out }),
                        ..old(self)@
                    })
                    &&& r matches Ok(n) && n == emitted(out, old(self)@.chunked).len()
                },
    {
        if data.len() == 0 {
            let mut w = match self.write_br.take() {
                Some(w) => w,
                None => brotli_writer_new(),
            };
            if !brotli_flush(&mut w) {
                return Err(ProtError::Io);
            }
            let value = brotli_into_inner(w);
            write_emitted(&mut self.cache_body_data, &value, self.is_chunked);
            let n = write_closing(&mut self.cache_body_data, self.is_chunked);
            proof {
                assert(self@.cache == old(self)@.cache + emitted(value@, old(self)@.chunked) + closing(old(self)@.chunked));
            }
            Ok(n)
        } else {
            let mut w = match self.write_br.take() {
                Some(w) => w,
                None => brotli_writer_new(),
            };
            brotli_write_all(&mut w, data);
            let out = brotli_take_output(&mut w);
            self.write_br = Some(w);
            let n = write_emitted(&mut self.cache_body_data, &out, self.is_chunked);
            proof {
                assert(self@.cache == old(self)@.cache + emitted(out@, old(self)@.chunked));
            }
            Ok(n)
        }
    }

    /// Encodes `data` onto the outgoing body with the encoding in force; an
    /// empty `data` finishes the encoder and closes a chunked body.
    pub fn encode_write_data(&mut self, data: &[u8]) -> (r: ProtResult<usize>)
        ensures
            spec_encode_write(old(self)@, data@, final(self)@, r),
    {
        let m = self.get_now_compress();
        if m == Consts::COMPRESS_METHOD_GZIP {
            let n = self.encode_gzip(data);
            proof {
                let v = old(self)@;
                if data@.len() == 0 {
                    let out = choose|out: Seq<u8>| #![trigger emitted(out, v.chunked)]
                        {
                            &&& self@ == (RecvView { cache: v.cache + emitted(out, v.chunked) + closing(v.chunked), gz: None, ..v })
                            &&& gzip_decoded(sent_of(v.gz) + out) == Some(fed_of(v.gz))
                            &&& n == closing(v.chunked).len()
                        };
                    assert(emitted(out, v.chunked) == emitted(out, v.chunked));
                } else {
                    let out = choose|out: Seq<u8>| #![trigger emitted(out, v.chunked)]
                        {
                            &&& self@ == (RecvView { cache: v.cache + emitted(out, v.chunked), gz: Some(EncoderState { fed: fed_of(v.gz) + data@, sent: sent_of(v.gz) + out }), ..v })
                            &&& n == emitted(out, v.chunked).len()
                        };
                    assert(emitted(out, v.chunked) == emitted(out, v.chunked));
                }
                assert(spec_encode_write(old(self)@, data@, self@, Ok(n)));
            }
            Ok(n)
        } else if m == Consts::COMPRESS_METHOD_DEFLATE {
            let n = self.encode_deflate(data);
            proof {
                let v = old(self)@;
                if data@.len() == 0 {
                    let out = choose|out: Seq<u8>| #![trigger emitted(out, v.chunked)]
                        {
                            &&& self@ == (RecvView { cache: v.cache + emitted(out, v.chunked) + closing(v.chunked), de: None, ..v })
                            &&& deflate_decoded(sent_of(v.de) + out) == Some(fed_of(v.de))
                            &&& n == closing(v.chunked).len()
                        };
                    assert(emitted(out, v.chunked) == emitted(out, v.chunked));
                } else {
                    let out = choose|out: Seq<u8>| #![trigger emitted(out, v.chunked)]
                        {
                            &&& self@ == (RecvView { cache: v.cache + emitted(out, v.chunked), de: Some(EncoderState { fed: fed_of(v.de) + data@, sent: sent_of(v.de) + out }), ..v })
                            &&& n == emitted(out, v.chunked).len()
                        };
                    assert(emitted(out, v.chunked) == emitted(out, v.chunked));
                }
                assert(spec_encode_write(old(self)@, data@, self@, Ok(n)));
            }
            Ok(n)
        } else if m == Consts::COMPRESS_METHOD_BROTLI {
            let r = self.encode_brotli(data);
            proof {
                let v = old(self)@;
                if data@.len() == 0 {
                    if let Ok(n) = r {
                        let out = choose|out: Seq<u8>| #![trigger emitted(out, v.chunked)]
                            {
                                &&& self@ == (RecvView { cache: v.cache + emitted(out, v.chunked) + closing(v.chunked), br: None, ..v })
                                &&& brotli_decoded(sent_of(v.br) + out) == Some(fed_of(v.br))
                                &&& n == closing(v.chunked).len()
                            };
                        assert(emitted(out, v.chunked) == emitted(out, v.chunked));
                    }
                } else {
                    let out = choose|out: Seq<u8>| #![trigger emitted(out, v.chunked)]
                        {
                            &&& self@ == (RecvView { cache: v.cache + emitted(out, v.chunked), br: Some(EncoderState { fed: fed_of(v.br) + data@, sent: sent_of(v.br) + out }), ..v })
                            &&& r matches Ok(n) && n == emitted(out, v.chunked).len()
                        };
                    assert(emitted(out, v.chunked) == emitted(out, v.chunked));
                }
                assert(spec_encode_write(old(self)@, data@, self@, r));
            }
            r
        } else {
            let chunked = self.is_chunked;
            let n = inner_encode_write_data(&mut self.cache_body_data, data, chunked);
            assert(spec_encode_write(old(self)@, data@, self@, Ok(n)));
            Ok(n)
        }
    }
}

/// What [`RecvStream::encode_write_data`] does: without an encoder the data
/// goes out as it is (one chunk when chunked); with one, the data goes
/// through the encoder, and an empty write finishes it and closes the body.
pub open spec fn spec_encode_write(v: RecvView, data: Seq<u8>, w: RecvView, r: ProtResult<usize>) -> bool {
    let m = spec_now_compress(v);
    if is_codec(m) {
        let e = encoder_of(v, m);
        match r {
            Ok(n) => exists|out: Seq<u8>| #![trigger emitted(out, v.chunked)]
                {
                    &&& if data.len() == 0 {
                        &&& w == (RecvView { cache: v.cache + emitted(out, v.chunked) + closing(v.chunked), ..with_encoder(v, m, None) })
                        &&& codec_decoded(m, sent_of(e) + out) == Some(fed_of(e))
                        &&& n == closing(v.chunked).len()
                    } else {
                        &&& w == (RecvView {
                            cache: v.cache + emitted(out, v.chunked),
                            ..with_encoder(v, m, Some(EncoderState { fed: fed_of(e) + data, sent: sent_of(e) + out }))
                        })
                        &&& n == emitted(out, v.chunked).len()
                    }
                },
            Err(x) => m == Consts::COMPRESS_METHOD_BROTLI && data.len() == 0 && x == ProtError::Io && w
                == with_encoder(v, m, None),
        }
    } else {
        &&& w == (RecvView { cache: v.cache + framed(data, v.chunked), ..v })
        &&& r == Ok::<usize, ProtError>(framed(data, v.chunked).len() as usize)
    }
}

/// What [`RecvStream::inner_decode_data`] does. Pending raw bytes in an
/// encoding other than the one wanted on the way out are decoded once the
/// body has ended: they are replaced by what the decoder of that encoding
/// makes of them. Before the end, decoding waits (the answer `true`, nothing
/// changes).
pub open spec fn spec_decode(v: RecvView, w: RecvView, r: ProtResult<bool>) -> bool {
    match v.read {
        None => w == v && r == Ok::<bool, ProtError>(true),
        Some(d) => {
            if v.origin == Consts::COMPRESS_METHOD_NONE || v.origin == v.now {
                w == v && r == Ok::<bool, ProtError>(false)
            } else if !v.end {
                w == v && r == Ok::<bool, ProtError>(true)
            } else if is_codec(v.origin) {
                match codec_decoded(v.origin, d) {
                    Some(p) => r == Ok::<bool, ProtError>(false) && w == (RecvView {
                        read: Some(p),
                        origin: Consts::COMPRESS_METHOD_NONE,
                        ..v
                    }),
                    None => w == v && r == Err::<bool, ProtError>(ProtError::Io),
                }
            } else {
                w == v && r == Err::<bool, ProtError>(ProtError::Extension("unknown compression"))
            }
        },
    }
}

/// The first part of a processing pass: nothing once the body is closed or
/// while decoding must wait; else the pending raw bytes are encoded.
pub open spec fn spec_begin(v: RecvView, w: RecvView, r: ProtResult<Option<usize>>) -> bool {
    if v.process_end {
        w == v && r == Ok::<Option<usize>, ProtError>(None)
    } else {
        exists|s1: RecvView, d: ProtResult<bool>|
            #[trigger] spec_decode(v, s1, d) && match d {
                Err(e) => w == s1 && r == Err::<Option<usize>, ProtError>(e),
                Ok(true) => w == s1 && r == Ok::<Option<usize>, ProtError>(None),
                Ok(false) => spec_begin_encode(s1, w, r),
            }
    }
}

/// Encoding the pending raw bytes of `s1` (taken out of it).
pub open spec fn spec_begin_encode(s1: RecvView, w: RecvView, r: ProtResult<Option<usize>>) -> bool {
    let bin = match s1.read {
        Some(b) => b,
        None => Seq::empty(),
    };
    let s2 = RecvView { read: None, ..s1 };
    if bin.len() > 0 {
        &&& spec_encode_write(s2, bin, w, match r {
            Ok(Some(n)) => Ok::<usize, ProtError>(n),
            Ok(None) => Ok::<usize, ProtError>(0),
            Err(e) => Err::<usize, ProtError>(e),
        })
        &&& r != Ok::<Option<usize>, ProtError>(None)
    } else {
        w == s2 && r == Ok::<Option<usize>, ProtError>(Some(0))
    }
}

/// The last part of a processing pass: once no more raw bytes are expected
/// and the closing bytes were not yet written, the encoder is finished; the
/// body counts as closed when it ended.
pub open spec fn spec_finish(v: RecvView, has_encode_end: bool, w: RecvView, r: ProtResult<()>) -> bool {
    if !has_encode_end && v.end {
        exists|s4: RecvView, e2: ProtResult<usize>|
            #[trigger] spec_encode_write(v, Seq::empty(), s4, e2) && match e2 {
                Err(e) => w == s4 && r == Err::<(), ProtError>(e),
                Ok(_) => w == (RecvView { process_end: true, ..s4 }) && r == Ok::<(), ProtError>(()),
            }
    } else {
        w == (RecvView { process_end: has_encode_end || v.end, ..v }) && r == Ok::<(), ProtError>(())
    }
}

/// What [`RecvStream::receive_polled`] does with one polled item.
pub open spec fn spec_receive(v: RecvView, is_end: bool, data: Seq<u8>, has_encode_end: bool, w: RecvView, r: ProtResult<(usize, bool)>) -> bool {
    match r {
        Ok((n, h)) => {
            &&& spec_encode_write(v, data, RecvView { end: v.end, ..w }, Ok::<usize, ProtError>(n))
            &&& w.end == is_end
            &&& h == (if data.len() == 0 { is_end } else { has_encode_end })
        },
        Err(e) => spec_encode_write(v, data, w, Err::<usize, ProtError>(e)),
    }
}

/// A whole processing pass with nothing more polled from the sender.
pub open spec fn spec_process_recv(v: RecvView, w: RecvView, r: ProtResult<usize>) -> bool {
    exists|s: RecvView, b: ProtResult<Option<usize>>|
        #[trigger] spec_begin(v, s, b) && match b {
            Err(e) => w == s && r == Err::<usize, ProtError>(e),
            Ok(None) => w == s && r == Ok::<usize, ProtError>(0),
            Ok(Some(n)) => exists|f: ProtResult<()>|
                #[trigger] spec_finish(s, false, w, f) && match f {
                    Err(e) => r == Err::<usize, ProtError>(e),
                    Ok(_) => r == Ok::<usize, ProtError>(n),
                },
        }
}

proof fn lemma_pieces_push(ps: Seq<Seq<u8>>, p: Seq<u8>)
    ensures
        encode_pieces(ps.push(p)) == encode_pieces(ps) + chunk_frame(p),
        join_pieces(ps.push(p)) == join_pieces(ps) + p,
    decreases ps.len(),
{
    if ps.len() == 0 {
        assert(ps.push(p).drop_first() =~= Seq::<Seq<u8>>::empty());
        assert(encode_pieces(ps.push(p)) =~= chunk_frame(p) + encode_pieces(Seq::<Seq<u8>>::empty()));
        assert(join_pieces(ps.push(p)) =~= p + join_pieces(Seq::<Seq<u8>>::empty()));
        assert(encode_pieces(ps.push(p)) =~= encode_pieces(ps) + chunk_frame(p));
        assert(join_pieces(ps.push(p)) =~= join_pieces(ps) + p);
    } else {
        let t = ps.drop_first();
        lemma_pieces_push(t, p);
        assert(ps.push(p).drop_first() =~= t.push(p));
        assert(ps.push(p)[0] == ps[0]);
        assert(encode_pieces(ps.push(p)) =~= encode_pieces(ps) + chunk_frame(p));
        assert(join_pieces(ps.push(p)) =~= join_pieces(ps) + p);
    }
}

/// What a compressed body carries decodes to what was written to it. While
/// the encoder of a body without chunks runs, the outgoing bytes are exactly
/// what the encoder gave out; each write feeds the data to it; and the write
/// that finishes it leaves outgoing bytes that decode to all that was fed.
pub proof fn law_compressed_body_roundtrip(v: RecvView, data: Seq<u8>, w: RecvView, n: usize)
    requires
        is_codec(spec_now_compress(v)),
        !v.chunked,
        v.cache == sent_of(encoder_of(v, spec_now_compress(v))),
        spec_encode_write(v, data, w, Ok::<usize, ProtError>(n)),
    ensures
        ({
            let m = spec_now_compress(v);
            &&& data.len() > 0 ==> spec_now_compress(w) == m && w.cache == sent_of(encoder_of(w, m))
                && fed_of(encoder_of(w, m)) == fed_of(encoder_of(v, m)) + data
            &&& data.len() == 0 ==> codec_decoded(m, w.cache) == Some(fed_of(encoder_of(v, m)))
        }),
{
    let m = spec_now_compress(v);
    let e = encoder_of(v, m);
    let out = choose|out: Seq<u8>| #![trigger emitted(out, v.chunked)]
        {
            &&& if data.len() == 0 {
                &&& w == (RecvView { cache: v.cache + emitted(out, v.chunked) + closing(v.chunked), ..with_encoder(v, m, None) })
                &&& codec_decoded(m, sent_of(e) + out) == Some(fed_of(e))
                &&& n == closing(v.chunked).len()
            } else {
                &&& w == (RecvView {
                    cache: v.cache + emitted(out, v.chunked),
                    ..with_encoder(v, m, Some(EncoderState { fed: fed_of(e) + data, sent: sent_of(e) + out }))
                })
                &&& n == emitted(out, v.chunked).len()
            }
        };
    if out.len() == 0 {
        assert(emitted(out, v.chunked) =~= out);
    }
    if data.len() == 0 {
        assert(w.cache =~= sent_of(e) + out);
    } else {
        assert(w.origin == v.origin && w.now == v.now);
        assert(w.cache =~= sent_of(e) + out);
    }
}

/// The same for a body in the chunked coding: while the encoder runs, the
/// outgoing bytes are chunks (none empty) that carry exactly what the
/// encoder gave out; the write that finishes it adds the last chunk, and the
/// chunks then carry bytes that decode to all that was fed (what the body
/// decoder gives back of such chunks is `law_chunked_roundtrip`).
pub proof fn law_compressed_chunked_roundtrip(v: RecvView, data: Seq<u8>, w: RecvView, n: usize, pieces: Seq<Seq<u8>>)
    requires
        is_codec(spec_now_compress(v)),
        v.chunked,
        v.cache == encode_pieces(pieces),
        join_pieces(pieces) == sent_of(encoder_of(v, spec_now_compress(v))),
        forall|i: int| 0 <= i < pieces.len() ==> (#[trigger] pieces[i]).len() > 0,
        spec_encode_write(v, data, w, Ok::<usize, ProtError>(n)),
    ensures
        ({
            let m = spec_now_compress(v);
            &&& data.len() > 0 ==> spec_now_compress(w) == m && exists|ps: Seq<Seq<u8>>|
                #![trigger encode_pieces(ps)]
                w.cache == encode_pieces(ps) && join_pieces(ps) == sent_of(encoder_of(w, m))
                    && (forall|i: int| 0 <= i < ps.len() ==> (#[trigger] ps[i]).len() > 0)
            &&& data.len() == 0 ==> exists|ps: Seq<Seq<u8>>| #![trigger encode_pieces(ps)]
                w.cache == encode_pieces(ps) + chunk_frame(Seq::empty())
                    && codec_decoded(m, join_pieces(ps)) == Some(fed_of(encoder_of(v, m)))
                    && (forall|i: int| 0 <= i < ps.len() ==> (#[trigger] ps[i]).len() > 0)
        }),
{
    let m = spec_now_compress(v);
    let e = encoder_of(v, m);
    let out = choose|out: Seq<u8>| #![trigger emitted(out, v.chunked)]
        {
            &&& if data.len() == 0 {
                &&& w == (RecvView { cache: v.cache + emitted(out, v.chunked) + closing(v.chunked), ..with_encoder(v, m, None) })
                &&& codec_decoded(m, sent_of(e) + out) == Some(fed_of(e))
                &&& n == closing(v.chunked).len()
            } else {
                &&& w == (RecvView {
                    cache: v.cache + emitted(out, v.chunked),
                    ..with_encoder(v, m, Some(EncoderState { fed: fed_of(e) + data, sent: sent_of(e) + out }))
                })
                &&& n == emitted(out, v.chunked).len()
            }
        };
    let ps = if out.len() == 0 { pieces } else { pieces.push(out) };
    lemma_pieces_push(pieces, out);
    assert forall|i: int| 0 <= i < ps.len() implies (#[trigger] ps[i]).len() > 0 by {
        if out.len() > 0 && i == pieces.len() {
            assert(ps[i] == out);
        } else {
            assert(ps[i] == pieces[i]);
        }
    }
    if out.len() == 0 {
        assert(emitted(out, v.chunked) =~= Seq::<u8>::empty());
        assert(join_pieces(pieces) + out =~= join_pieces(pieces));
    }
    assert(encode_pieces(ps) =~= v.cache + emitted(out, v.chunked));
    assert(join_pieces(ps) =~= sent_of(e) + out);
    if data.len() == 0 {
        assert(w.cache =~= encode_pieces(ps) + chunk_frame(Seq::empty()));
    } else {
        assert(w.origin == v.origin && w.now == v.now);
    }
}

/// A run of writes to a body, each one answered `Ok`, from state `v` to
/// state `w`.
pub open spec fn spec_write_run(v: RecvView, writes: Seq<Seq<u8>>, w: RecvView) -> bool
    decreases writes.len(),
{
    if writes.len() == 0 {
        w == v
    } else {
        exists|mid: RecvView, n: usize|
            #[trigger] spec_encode_write(v, writes[0], mid, Ok::<usize, ProtError>(n)) && spec_write_run(mid, writes.drop_first(), w)
    }
}

/// Writes that carry data, closed by one empty write.
pub open spec fn closed_run(writes: Seq<Seq<u8>>) -> bool {
    &&& writes.len() > 0
    &&& writes.last().len() == 0
    &&& forall|i: int| 0 <= i < writes.len() - 1 ==> (#[trigger] writes[i]).len() > 0
}

proof fn lemma_run_decodes(v: RecvView, writes: Seq<Seq<u8>>, w: RecvView)
    requires
        is_codec(spec_now_compress(v)),
        !v.chunked,
        v.cache == sent_of(encoder_of(v, spec_now_compress(v))),
        closed_run(writes),
        spec_write_run(v, writes, w),
    ensures
        codec_decoded(spec_now_compress(v), w.cache) == Some(fed_of(encoder_of(v, spec_now_compress(v))) + join_pieces(writes)),
    decreases writes.len(),
{
    let m = spec_now_compress(v);
    let (mid, n) = choose|mid: RecvView, n: usize|
        #[trigger] spec_encode_write(v, writes[0], mid, Ok::<usize, ProtError>(n)) && spec_write_run(mid, writes.drop_first(), w);
    law_compressed_body_roundtrip(v, writes[0], mid, n);
    let rest = writes.drop_first();
    if writes.len() == 1 {
        assert(rest.len() == 0);
        assert(w == mid);
        assert(join_pieces(rest) == Seq::<u8>::empty());
        assert(join_pieces(writes) =~= Seq::<u8>::empty());
        assert(fed_of(encoder_of(v, m)) + join_pieces(writes) =~= fed_of(encoder_of(v, m)));
    } else {
        assert(writes[0].len() > 0);
        assert(mid.chunked == v.chunked);
        assert(closed_run(rest)) by {
            assert(rest.last() == writes.last());
            assert forall|i: int| 0 <= i < rest.len() - 1 implies (#[trigger] rest[i]).len() > 0 by {
                assert(rest[i] == writes[i + 1]);
            }
        }
        lemma_run_decodes(mid, rest, w);
        assert(fed_of(encoder_of(v, m)) + join_pieces(writes) =~= fed_of(encoder_of(mid, m)) + join_pieces(rest));
    }
}

/// The whole of a compressed body decodes to all that was written to it:
/// from a body with nothing sent yet and no encoder open, writes of data
/// closed by one empty write, each answered `Ok`, leave outgoing bytes that
/// the decoder of the body's encoding turns into the data written, in order.
pub proof fn law_compressed_run_roundtrip(v: RecvView, writes: Seq<Seq<u8>>, w: RecvView)
    requires
        is_codec(spec_now_compress(v)),
        !v.chunked,
        v.cache == Seq::<u8>::empty(),
        encoder_of(v, spec_now_compress(v)) is None,
        closed_run(writes),
        spec_write_run(v, writes, w),
    ensures
        codec_decoded(spec_now_compress(v), w.cache) == Some(join_pieces(writes)),
{
    lemma_run_decodes(v, writes, w);
    assert(fed_of(encoder_of(v, spec_now_compress(v))) + join_pieces(writes) =~= join_pieces(writes));
}

proof fn lemma_chunked_run_decodes(v: RecvView, writes: Seq<Seq<u8>>, w: RecvView, pieces: Seq<Seq<u8>>)
    requires
        is_codec(spec_now_compress(v)),
        v.chunked,
        v.cache == encode_pieces(pieces),
        join_pieces(pieces) == sent_of(encoder_of(v, spec_now_compress(v))),
        forall|i: int| 0 <= i < pieces.len() ==> (#[trigger] pieces[i]).len() > 0,
        closed_run(writes),
        spec_write_run(v, writes, w),
    ensures
        exists|ps: Seq<Seq<u8>>| #![trigger encode_pieces(ps)]
            w.cache == encode_pieces(ps) + chunk_frame(Seq::empty())
                && codec_decoded(spec_now_compress(v), join_pieces(ps)) == Some(
                    fed_of(encoder_of(v, spec_now_compress(v))) + join_pieces(writes),
                )
                && (forall|i: int| 0 <= i < ps.len() ==> (#[trigger] ps[i]).len() > 0),
    decreases writes.len(),
{
    let m = spec_now_compress(v);
    let (mid, n) = choose|mid: RecvView, n: usize|
        #[trigger] spec_encode_write(v, writes[0], mid, Ok::<usize, ProtError>(n)) && spec_write_run(mid, writes.drop_first(), w);
    law_compressed_chunked_roundtrip(v, writes[0], mid, n, pieces);
    let rest = writes.drop_first();
    if writes.len() == 1 {
        assert(rest.len() == 0);
        assert(w == mid);
        assert(join_pieces(rest) == Seq::<u8>::empty());
        assert(join_pieces(writes) =~= Seq::<u8>::empty());
        assert(fed_of(encoder_of(v, m)) + join_pieces(writes) =~= fed_of(encoder_of(v, m)));
    } else {
        assert(writes[0].len() > 0);
        assert(mid.chunked == v.chunked);
        assert(closed_run(rest)) by {
            assert(rest.last() == writes.last());
            assert forall|i: int| 0 <= i < rest.len() - 1 implies (#[trigger] rest[i]).len() > 0 by {
                assert(rest[i] == writes[i + 1]);
            }
        }
        let ps = choose|ps: Seq<Seq<u8>>| #![trigger encode_pieces(ps)]
            mid.cache == encode_pieces(ps) && join_pieces(ps) == sent_of(encoder_of(mid, m))
                && (forall|i: int| 0 <= i < ps.len() ==> (#[trigger] ps[i]).len() > 0);
        lemma_chunked_run_decodes(mid, rest, w, ps);
        assert(fed_of(encoder_of(v, m)) + join_pieces(writes) =~= fed_of(encoder_of(mid, m)) + join_pieces(rest));
    }
}

/// The same for a body in the chunked coding: the outgoing bytes are
/// non-empty chunks closed by the last chunk, and what the chunks carry
/// decodes to the data written, in order.
pub proof fn law_compressed_chunked_run_roundtrip(v: RecvView, writes: Seq<Seq<u8>>, w: RecvView)
    requires
        is_codec(spec_now_compress(v)),
        v.chunked,
        v.cache == Seq::<u8>::empty(),
        encoder_of(v, spec_now_compress(v)) is None,
        closed_run(writes),
        spec_write_run(v, writes, w),
    ensures
        exists|ps: Seq<Seq<u8>>| #![trigger encode_pieces(ps)]
            w.cache == encode_pieces(ps) + chunk_frame(Seq::empty())
                && codec_decoded(spec_now_compress(v), join_pieces(ps)) == Some(join_pieces(writes))
                && (forall|i: int| 0 <= i < ps.len() ==> (#[trigger] ps[i]).len() > 0),
{
    let empty = Seq::<Seq<u8>>::empty();
    assert(encode_pieces(empty) == Seq::<u8>::empty());
    assert(join_pieces(empty) == Seq::<u8>::empty());
    lemma_chunked_run_decodes(v, writes, w, empty);
    assert(fed_of(encoder_of(v, spec_now_compress(v))) + join_pieces(writes) =~= join_pieces(writes));
}

/// What is written to a body that needs no re-encoding (the wanted
/// encoding is the one its bytes carry) comes out unchanged: one processing
/// pass appends the pending bytes to the outgoing bytes, framed as one chunk
/// in the chunked coding, followed by the last chunk once the body has
/// ended.
pub proof fn law_unencoded_body_passes(v: RecvView, w: RecvView, r: ProtResult<usize>, b: Seq<u8>)
    requires
        v.read == Some(b),
        b.len() > 0,
        !v.process_end,
        v.origin == v.now,
        spec_process_recv(v, w, r),
    ensures
        r == Ok::<usize, ProtError>(framed(b, v.chunked).len() as usize),
        w.cache == v.cache + framed(b, v.chunked) + (if v.end { closing(v.chunked) } else { Seq::empty() }),
        w.read is None,
        w.process_end == v.end,
{
    let (s, bb) = choose|s: RecvView, bb: ProtResult<Option<usize>>| #[trigger] spec_begin(v, s, bb) && match bb {
        Err(e) => w == s && r == Err::<usize, ProtError>(e),
        Ok(None) => w == s && r == Ok::<usize, ProtError>(0),
        Ok(Some(n)) => exists|f: ProtResult<()>|
            #[trigger] spec_finish(s, false, w, f) && match f {
                Err(e) => r == Err::<usize, ProtError>(e),
                Ok(_) => r == Ok::<usize, ProtError>(n),
            },
    };
    let (s1, d) = choose|s1: RecvView, d: ProtResult<bool>| #[trigger] spec_decode(v, s1, d) && match d {
        Err(e) => s == s1 && bb == Err::<Option<usize>, ProtError>(e),
        Ok(true) => s == s1 && bb == Ok::<Option<usize>, ProtError>(None),
        Ok(false) => spec_begin_encode(s1, s, bb),
    };
    assert(s1 == v && d == Ok::<bool, ProtError>(false));
    let s2 = RecvView { read: None, ..v };
    assert(spec_now_compress(s2) == 0);
    assert(s == (RecvView { cache: v.cache + framed(b, v.chunked), ..s2 }));
    assert(bb == Ok::<Option<usize>, ProtError>(Some(framed(b, v.chunked).len() as usize)));
    let f = choose|f: ProtResult<()>| #[trigger] spec_finish(s, false, w, f) && match f {
        Err(e) => r == Err::<usize, ProtError>(e),
        Ok(_) => r == Ok::<usize, ProtError>(framed(b, v.chunked).len() as usize),
    };
    if v.end {
        let (s4, e2) = choose|s4: RecvView, e2: ProtResult<usize>| #[trigger] spec_encode_write(s, Seq::empty(), s4, e2) && match e2 {
            Err(e) => w == s4 && f == Err::<(), ProtError>(e),
            Ok(_) => w == (RecvView { process_end: true, ..s4 }) && f == Ok::<(), ProtError>(()),
        };
        assert(spec_now_compress(s) == 0);
        assert(framed(Seq::<u8>::empty(), v.chunked) == closing(v.chunked));
        assert(s4.cache == s.cache + closing(v.chunked));
    } else {
        assert(w.cache =~= v.cache + framed(b, v.chunked) + Seq::<u8>::empty());
    }
}

impl RecvStream {
    /// Decodes raw bytes that carry an encoding other than the one wanted on
    /// the way out; `true` means that encoding must wait.
    pub fn inner_decode_data(&mut self) -> (r: ProtResult<bool>)
        ensures
            spec_decode(old(self)@, final(self)@, r),
    {
        if self.read_buf.is_none() {
            return Ok(true);
        }
        if self.origin_compress_method != Consts::COMPRESS_METHOD_NONE {
            if self.origin_compress_method == self.now_compress_method {
                return Ok(false);
            }
            if !self.is_end {
                return Ok(true);
            }
            let src = match &self.read_buf {
                Some(b) => b.as_slice(),
                None => {
                    return Ok(true);
                },
            };
            let decoded = if self.origin_compress_method == Consts::COMPRESS_METHOD_GZIP {
                gzip_decode(src)
            } else if self.origin_compress_method == Consts::COMPRESS_METHOD_DEFLATE {
                deflate_decode(src)
            } else if self.origin_compress_method == Consts::COMPRESS_METHOD_BROTLI {
                brotli_decode(src)
            } else {
                return Err(ProtError::Extension("unknown compression"));
            };
            match decoded {
                Some(p) => {
                    self.read_buf = Some(p);
                    self.origin_compress_method = Consts::COMPRESS_METHOD_NONE;
                },
                None => {
                    return Err(ProtError::Io);
                },
            }
        }
        Ok(false)
    }

    /// The first part of a processing pass; `None` when the pass stops here.
    pub fn process_begin(&mut self) -> (r: ProtResult<Option<usize>>)
        ensures
            spec_begin(old(self)@, final(self)@, r),
    {
        if self.is_process_end {
            return Ok(None);
        }
        let d = self.inner_decode_data();
        let ghost s1 = self@;
        assert(spec_decode(old(self)@, s1, d));
        match d {
            Err(e) => {
                return Err(e);
            },
            Ok(true) => {
                return Ok(None);
            },
            Ok(false) => {},
        }
        let bin = self.binary();
        let ghost s2 = self@;
        if bin.len() > 0 {
            let e1 = self.encode_write_data(bin.as_slice());
            assert(spec_encode_write(s2, bin@, self@, e1));
            assert(s2 == (RecvView { read: None, ..s1 }));
            assert(bin@ == match s1.read {
                Some(b) => b,
                None => Seq::<u8>::empty(),
            });
            assert(spec_encode_write(
                RecvView { read: None, ..s1 },
                match s1.read {
                    Some(b) => b,
                    None => Seq::<u8>::empty(),
                },
                self@,
                e1,
            ));
            match e1 {
                Err(e) => Err(e),
                Ok(n) => {
                    assert(spec_begin(old(self)@, self@, Ok::<Option<usize>, ProtError>(Some(n))));
                    Ok(Some(n))
                },
            }
        } else {
            assert(bin@.len() == 0);
            assert(spec_begin(old(self)@, self@, Ok::<Option<usize>, ProtError>(Some(0))));
            Ok(Some(0))
        }
    }

    /// Encodes one item polled from the sender of raw bytes. `has_encode_end`
    /// says whether the closing bytes were already written in this pass; the
    /// new value is returned with the number of bytes encoded.
    pub fn receive_polled(&mut self, is_end: bool, data: &[u8], has_encode_end: bool) -> (r: ProtResult<(usize, bool)>)
        ensures
            spec_receive(old(self)@, is_end, data@, has_encode_end, final(self)@, r),
    {
        let n = match self.encode_write_data(data) {
            Ok(n) => n,
            Err(e) => {
                return Err(e);
            },
        };
        let ghost s = self@;
        assert(spec_encode_write(old(self)@, data@, s, Ok::<usize, ProtError>(n)));
        self.is_end = is_end;
        let h = if data.len() == 0 {
            is_end
        } else {
            has_encode_end
        };
        assert(self@ == (RecvView { end: is_end, ..s }));
        assert(spec_receive(old(self)@, is_end, data@, has_encode_end, self@, Ok::<(usize, bool), ProtError>((n, h))));
        Ok((n, h))
    }

    /// The sender of raw bytes is gone: no more will arrive.
    pub fn receiver_closed(&mut self)
        ensures
            final(self)@ == (RecvView { end: true, ..old(self)@ }),
    {
        self.is_end = true;
    }

    /// The last part of a processing pass.
    pub fn process_finish(&mut self, has_encode_end: bool) -> (r: ProtResult<()>)
        ensures
            spec_finish(old(self)@, has_encode_end, final(self)@, r),
    {
        if !has_encode_end && self.is_end {
            let empty: [u8; 0] = [];
            proof {
                assert(empty@ =~= Seq::<u8>::empty());
            }
            let e2 = self.encode_write_data(&empty);
            assert(spec_encode_write(old(self)@, Seq::empty(), self@, e2));
            match e2 {
                Err(e) => {
                    return Err(e);
                },
                Ok(_) => {},
            }
        }
        self.is_process_end = has_encode_end || self.is_end;
        Ok(())
    }

    /// Encodes what is pending, and closes the body once it has ended;
    /// returns the number of bytes encoded from the pending raw bytes.
    pub fn process_data(&mut self) -> (r: ProtResult<usize>)
        ensures
            spec_process_recv(old(self)@, final(self)@, r),
    {
        let b = self.process_begin();
        let ghost s = self@;
        assert(spec_begin(old(self)@, s, b));
        match b {
            Err(e) => Err(e),
            Ok(None) => Ok(0),
            Ok(Some(n)) => {
                let f = self.process_finish(false);
                assert(spec_finish(s, false, self@, f));
                match f {
                    Err(e) => Err(e),
                    Ok(_) => Ok(n),
                }
            },
        }
    }

    /// Processes what is pending, then moves the encoded bytes to the end of
    /// `read_data`; returns how many were moved.
    pub fn read_data(&mut self, read_data: &mut Vec<u8>) -> (r: ProtResult<usize>)
        ensures
            match r {
                Ok(n) => exists|s: RecvView, k: usize|
                    #[trigger] spec_process_recv(old(self)@, s, Ok::<usize, ProtError>(k))
                        && final(self)@ == (RecvView { cache: Seq::empty(), ..s })
                        && final(read_data)@ == old(read_data)@ + s.cache
                        && n == s.cache.len(),
                Err(e) => spec_process_recv(old(self)@, final(self)@, Err::<usize, ProtError>(e))
                    && final(read_data)@ == old(read_data)@,
            },
    {
        let p = self.process_data();
        let k = match p {
            Err(e) => {
                return Err(e);
            },
            Ok(k) => k,
        };
        let ghost s = self@;
        assert(spec_process_recv(old(self)@, s, Ok::<usize, ProtError>(k)));
        let size = self.cache_body_data.len();
        append_bytes(read_data, self.cache_body_data.as_slice());
        self.cache_body_data.clear();
        assert(self@ == (RecvView { cache: Seq::empty(), ..s }));
        assert(read_data@ == old(read_data)@ + s.cache);
        Ok(size)
    }
}

} // verus!
