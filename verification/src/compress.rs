use brotli::{CompressorWriter, Decompressor};
use flate2::read::{DeflateDecoder, GzDecoder};
use flate2::write::{DeflateEncoder, GzEncoder};
use flate2::Compression;
use std::io::{Read, Write};
use vstd::prelude::*;

verus! {

// The encoders of flate2 and brotli are generic over a `std::io::Write`
// stream; Verus refuses to declare them with that bound, so each one is held
// in a private field of a struct whose contents Verus does not see. What
// such an encoder holds is named: the bytes fed to it so far, and the bytes
// taken out of it so far.

/// A gzip encoder (flate2, default level) writing into a byte vector.
#[verifier::external_body]
pub struct GzipWriter {
    inner: GzEncoder<Vec<u8>>,
}

/// A deflate encoder (flate2, default level) writing into a byte vector.
#[verifier::external_body]
pub struct DeflateWriter {
    inner: DeflateEncoder<Vec<u8>>,
}

/// A brotli encoder (buffer 4096, quality 11, window 22) writing into a
/// byte vector.
#[verifier::external_body]
pub struct BrotliWriter {
    inner: CompressorWriter<Vec<u8>>,
}

/// The bytes fed to a gzip encoder so far.
pub uninterp spec fn gzip_fed(w: GzipWriter) -> Seq<u8>;

/// The bytes taken out of a gzip encoder so far.
pub uninterp spec fn gzip_sent(w: GzipWriter) -> Seq<u8>;

/// The bytes fed to a deflate encoder so far.
pub uninterp spec fn deflate_fed(w: DeflateWriter) -> Seq<u8>;

/// The bytes taken out of a deflate encoder so far.
pub uninterp spec fn deflate_sent(w: DeflateWriter) -> Seq<u8>;

/// The bytes fed to a brotli encoder so far.
pub uninterp spec fn brotli_fed(w: BrotliWriter) -> Seq<u8>;

/// The bytes taken out of a brotli encoder so far.
pub uninterp spec fn brotli_sent(w: BrotliWriter) -> Seq<u8>;

/// What a gzip stream decodes to (`None`: it is not a complete, valid one).
pub uninterp spec fn gzip_decoded(data: Seq<u8>) -> Option<Seq<u8>>;

/// What a raw deflate stream decodes to.
pub uninterp spec fn deflate_decoded(data: Seq<u8>) -> Option<Seq<u8>>;

/// What a brotli stream decodes to.
pub uninterp spec fn brotli_decoded(data: Seq<u8>) -> Option<Seq<u8>>;

/// `flate2::write::GzEncoder::new` over an empty vector, default level:
/// nothing fed, nothing taken out.
#[verifier::external_body]
pub(crate) fn gzip_writer_new() -> (r: GzipWriter)
    ensures
        gzip_fed(r) == Seq::<u8>::empty(),
        gzip_sent(r) == Seq::<u8>::empty(),
{
    GzipWriter { inner: GzEncoder::new(Vec::new(), Compression::default()) }
}

/// `std::io::Write::write_all` on the gzip encoder (writing into a vector
/// does not fail): the data is fed to it.
#[verifier::external_body]
pub(crate) fn gzip_write_all(w: &mut GzipWriter, data: &[u8])
    ensures
        gzip_fed(*final(w)) == gzip_fed(*old(w)) + data@,
        gzip_sent(*final(w)) == gzip_sent(*old(w)),
{
    w.inner.write_all(data).unwrap()
}

/// `flate2::write::GzEncoder::get_mut`, its vector moved out: the bytes the
/// encoder emitted since they were last taken.
#[verifier::external_body]
pub(crate) fn gzip_take_output(w: &mut GzipWriter) -> (r: Vec<u8>)
    ensures
        gzip_fed(*final(w)) == gzip_fed(*old(w)),
        gzip_sent(*final(w)) == gzip_sent(*old(w)) + r@,
{
    std::mem::take(w.inner.get_mut())
}

/// `flate2::write::GzEncoder::finish`: ends the gzip stream and returns the
/// bytes still held. Claimed, as flate2 documents a gzip encoder: all the
/// bytes taken out of it, followed by these, form a gzip stream that decodes
/// to all the bytes fed to it.
#[verifier::external_body]
pub(crate) fn gzip_finish(w: GzipWriter) -> (r: Vec<u8>)
    ensures
        gzip_decoded(gzip_sent(w) + r@) == Some(gzip_fed(w)),
{
    w.inner.finish().unwrap()
}

/// `flate2::write::DeflateEncoder::new` over an empty vector, default level.
#[verifier::external_body]
pub(crate) fn deflate_writer_new() -> (r: DeflateWriter)
    ensures
        deflate_fed(r) == Seq::<u8>::empty(),
        deflate_sent(r) == Seq::<u8>::empty(),
{
    DeflateWriter { inner: DeflateEncoder::new(Vec::new(), Compression::default()) }
}

/// `std::io::Write::write_all` on the deflate encoder: the data is fed to it.
#[verifier::external_body]
pub(crate) fn deflate_write_all(w: &mut DeflateWriter, data: &[u8])
    ensures
        deflate_fed(*final(w)) == deflate_fed(*old(w)) + data@,
        deflate_sent(*final(w)) == deflate_sent(*old(w)),
{
    w.inner.write_all(data).unwrap()
}

/// `flate2::write::DeflateEncoder::get_mut`, its vector moved out.
#[verifier::external_body]
pub(crate) fn deflate_take_output(w: &mut DeflateWriter) -> (r: Vec<u8>)
    ensures
        deflate_fed(*final(w)) == deflate_fed(*old(w)),
        deflate_sent(*final(w)) == deflate_sent(*old(w)) + r@,
{
    std::mem::take(w.inner.get_mut())
}

/// `flate2::write::DeflateEncoder::finish`: ends the stream and returns the
/// bytes still held; with all the bytes taken out before, they form a
/// deflate stream that decodes to all the bytes fed.
#[verifier::external_body]
pub(crate) fn deflate_finish(w: DeflateWriter) -> (r: Vec<u8>)
    ensures
        deflate_decoded(deflate_sent(w) + r@) == Some(deflate_fed(w)),
{
    w.inner.finish().unwrap()
}

/// `brotli::CompressorWriter::new` over an empty vector with a 4096 byte
/// buffer, quality 11 and window 22.
#[verifier::external_body]
pub(crate) fn brotli_writer_new() -> (r: BrotliWriter)
    ensures
        brotli_fed(r) == Seq::<u8>::empty(),
        brotli_sent(r) == Seq::<u8>::empty(),
{
    BrotliWriter { inner: CompressorWriter::new(Vec::new(), 4096, 11, 22) }
}

/// `std::io::Write::write_all` on the brotli encoder: the data is fed to it.
#[verifier::external_body]
pub(crate) fn brotli_write_all(w: &mut BrotliWriter, data: &[u8])
    ensures
        brotli_fed(*final(w)) == brotli_fed(*old(w)) + data@,
        brotli_sent(*final(w)) == brotli_sent(*old(w)),
{
    w.inner.write_all(data).unwrap()
}

/// `brotli::CompressorWriter::get_mut`, its vector moved out.
#[verifier::external_body]
pub(crate) fn brotli_take_output(w: &mut BrotliWriter) -> (r: Vec<u8>)
    ensures
        brotli_fed(*final(w)) == brotli_fed(*old(w)),
        brotli_sent(*final(w)) == brotli_sent(*old(w)) + r@,
{
    std::mem::take(w.inner.get_mut())
}

/// `std::io::Write::flush` on the brotli encoder (`false`: it failed); what
/// it emits stays in the encoder's vector until it is taken out.
#[verifier::external_body]
pub(crate) fn brotli_flush(w: &mut BrotliWriter) -> (r: bool)
    ensures
        brotli_fed(*final(w)) == brotli_fed(*old(w)),
        brotli_sent(*final(w)) == brotli_sent(*old(w)),
{
    w.inner.flush().is_ok()
}

/// `brotli::CompressorWriter::into_inner`: finishes the stream and returns
/// the bytes still held; with all the bytes taken out before, they form a
/// brotli stream that decodes to all the bytes fed.
#[verifier::external_body]
pub(crate) fn brotli_into_inner(w: BrotliWriter) -> (r: Vec<u8>)
    ensures
        brotli_decoded(brotli_sent(w) + r@) == Some(brotli_fed(w)),
{
    w.inner.into_inner()
}

/// `flate2::read::GzDecoder` over `data`, read to its end with
/// `std::io::Read::read_to_end`. Claimed: the result is [`gzip_decoded`] of
/// the data.
#[verifier::external_body]
pub(crate) fn gzip_decode(data: &[u8]) -> (r: Option<Vec<u8>>)
    ensures
        match r {
            Some(v) => gzip_decoded(data@) == Some(v@),
            None => gzip_decoded(data@) is None,
        },
{
    let mut out = Vec::new();
    match GzDecoder::new(data).read_to_end(&mut out) {
        Ok(_) => Some(out),
        Err(_) => None,
    }
}

/// `flate2::read::DeflateDecoder` over `data`, read to its end. Claimed:
/// the result is [`deflate_decoded`] of the data.
#[verifier::external_body]
pub(crate) fn deflate_decode(data: &[u8]) -> (r: Option<Vec<u8>>)
    ensures
        match r {
            Some(v) => deflate_decoded(data@) == Some(v@),
            None => deflate_decoded(data@) is None,
        },
{
    let mut out = Vec::new();
    match DeflateDecoder::new(data).read_to_end(&mut out) {
        Ok(_) => Some(out),
        Err(_) => None,
    }
}

/// `brotli::Decompressor` (4096 byte buffer) over `data`, read to its end.
/// Claimed: the result is [`brotli_decoded`] of the data.
#[verifier::external_body]
pub(crate) fn brotli_decode(data: &[u8]) -> (r: Option<Vec<u8>>)
    ensures
        match r {
            Some(v) => brotli_decoded(data@) == Some(v@),
            None => brotli_decoded(data@) is None,
        },
{
    let mut out = Vec::new();
    match Decompressor::new(data, 4096).read_to_end(&mut out) {
        Ok(_) => Some(out),
        Err(_) => None,
    }
}

} // verus!
