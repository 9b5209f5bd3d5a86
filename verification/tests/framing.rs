use std::io::{Read, Write};
use wenmeng::recv_stream::inner_encode_write_data;
use wenmeng::send_stream::chunk_size_fits;
use wenmeng::{Consts, ProtError, RecvStream, SendStream, WebFault};

fn decode_all(stream: &mut SendStream) -> Vec<u8> {
    let mut out = Vec::new();
    stream.read_data(&mut out).unwrap();
    out
}

#[test]
fn chunked_body_decodes_to_its_pieces() {
    let mut s = SendStream::empty();
    s.set_new_body();
    s.set_chunked(true);
    s.put_slice(b"5\r\nhello\r\n6\r\n world\r\n0\r\n\r\n");
    let out = decode_all(&mut s);
    assert_eq!(out, b"hello world".to_vec());
    assert!(s.is_end());
}

#[test]
fn chunked_roundtrip_through_encoder_and_decoder() {
    // what the encoder writes for two pieces, then the closing chunk
    let mut wire = Vec::new();
    inner_encode_write_data(&mut wire, b"abc", true);
    inner_encode_write_data(&mut wire, b"0123456789abcdef", true);
    inner_encode_write_data(&mut wire, b"", true);
    assert_eq!(wire, b"3\r\nabc\r\n10\r\n0123456789abcdef\r\n0\r\n\r\n".to_vec());
    let mut s = SendStream::empty();
    s.set_new_body();
    s.set_chunked(true);
    s.put_slice(&wire);
    assert_eq!(decode_all(&mut s), b"abc0123456789abcdef".to_vec());
    assert!(s.is_end());
    assert!(s.read_buf.is_empty());
}

#[test]
fn chunked_body_arriving_in_parts_waits_for_more() {
    let mut s = SendStream::empty();
    s.set_new_body();
    s.set_chunked(true);
    s.put_slice(b"5\r\nhel");
    assert_eq!(decode_all(&mut s), Vec::<u8>::new());
    assert!(!s.is_end());
    s.put_slice(b"lo\r\n0\r\n\r\n");
    assert_eq!(decode_all(&mut s), b"hello".to_vec());
    assert!(s.is_end());
}

#[test]
fn chunked_body_with_bad_line_end_is_refused() {
    let mut s = SendStream::empty();
    s.set_new_body();
    s.set_chunked(true);
    s.put_slice(b"3\r\nabcXY");
    let mut out = Vec::new();
    let r = s.read_data(&mut out);
    assert!(matches!(r, Err(ProtError::Web(_))));
}

#[test]
fn oversized_chunk_size_is_refused() {
    assert!(chunk_size_fits(b"ff\r\n"));
    assert!(!chunk_size_fits(b"ffffffffffffffffffff\r\n"));
    let mut s = SendStream::empty();
    s.set_new_body();
    s.set_chunked(true);
    s.put_slice(b"ffffffffffffffffffff\r\n");
    let mut out = Vec::new();
    assert!(matches!(s.read_data(&mut out), Err(ProtError::ChunkTooLarge)));
}

#[test]
fn body_of_known_length_stops_at_its_length() {
    let mut s = SendStream::empty();
    s.set_new_body();
    s.set_left_body(4);
    s.put_slice(b"abcdefgh");
    assert_eq!(decode_all(&mut s), b"abcd".to_vec());
    assert!(s.is_end());
    assert_eq!(s.read_buf, b"efgh".to_vec());
}

#[test]
fn nothing_is_decoded_before_the_headers_end() {
    let mut s = SendStream::empty();
    s.set_end_headers(false);
    s.set_left_body(3);
    s.put_slice(b"abc");
    assert_eq!(decode_all(&mut s), Vec::<u8>::new());
}

#[test]
fn plain_body_is_encoded_as_is() {
    let mut r = RecvStream::new(b"hello".to_vec(), true);
    let mut out = Vec::new();
    let n = r.read_data(&mut out).unwrap();
    assert_eq!(out, b"hello".to_vec());
    assert_eq!(n, 5);
    assert!(r.is_end());
}

#[test]
fn chunked_body_is_framed_and_closed() {
    let mut r = RecvStream::new(b"hello".to_vec(), true);
    r.set_chunked(true);
    let mut out = Vec::new();
    r.read_data(&mut out).unwrap();
    assert_eq!(out, b"5\r\nhello\r\n0\r\n\r\n".to_vec());
}

#[test]
fn unfinished_chunked_body_is_not_closed() {
    let mut r = RecvStream::new(b"abc".to_vec(), false);
    r.set_chunked(true);
    let mut out = Vec::new();
    r.read_data(&mut out).unwrap();
    assert_eq!(out, b"3\r\nabc\r\n".to_vec());
    assert!(!r.is_end());
}

#[test]
fn cached_bytes_are_counted() {
    let mut r = RecvStream::new(Vec::new(), false);
    assert_eq!(r.cache_buffer(b"12345"), 5);
    assert_eq!(r.origin_len(), 5);
    assert_eq!(r.copy_now(), b"12345".to_vec());
    assert_eq!(r.binary(), b"12345".to_vec());
    assert_eq!(r.origin_len(), 0);
}

fn gunzip(data: &[u8]) -> Vec<u8> {
    let mut d = flate2::read::GzDecoder::new(data);
    let mut out = Vec::new();
    d.read_to_end(&mut out).unwrap();
    out
}

#[test]
fn gzip_body_compresses_and_decompresses() {
    let text = b"compressible compressible compressible compressible".to_vec();
    let mut r = RecvStream::new(text.clone(), true);
    assert_eq!(r.add_compress_method(Consts::COMPRESS_METHOD_GZIP), Consts::COMPRESS_METHOD_GZIP);
    assert_eq!(r.get_now_compress(), Consts::COMPRESS_METHOD_GZIP);
    let mut out = Vec::new();
    r.read_data(&mut out).unwrap();
    assert_eq!(&out[..2], &[0x1f, 0x8b]);
    assert_eq!(gunzip(&out), text);
}

#[test]
fn received_gzip_body_is_decoded_once_it_has_ended() {
    let mut e = flate2::write::GzEncoder::new(Vec::new(), flate2::Compression::default());
    e.write_all(b"plain text after all").unwrap();
    let zipped = e.finish().unwrap();
    let mut r = RecvStream::new(zipped.clone(), true);
    r.set_origin_compress_method(Consts::COMPRESS_METHOD_GZIP);
    assert_eq!(r.add_compress_method(Consts::COMPRESS_METHOD_NONE), Consts::COMPRESS_METHOD_NONE);
    let mut out = Vec::new();
    r.read_data(&mut out).unwrap();
    assert_eq!(out, b"plain text after all".to_vec());
    // a body still arriving waits, its bytes kept as they are
    let mut streaming = RecvStream::new(zipped.clone(), false);
    streaming.set_origin_compress_method(Consts::COMPRESS_METHOD_GZIP);
    let mut none = Vec::new();
    assert_eq!(streaming.read_data(&mut none).unwrap(), 0);
    assert!(none.is_empty());
    assert_eq!(streaming.copy_now(), zipped);
}

#[test]
fn corrupt_compressed_body_is_an_error() {
    let mut r = RecvStream::new(b"not gzip at all".to_vec(), true);
    r.set_origin_compress_method(Consts::COMPRESS_METHOD_GZIP);
    let mut out = Vec::new();
    assert!(matches!(r.read_data(&mut out), Err(ProtError::Io)));
}

#[test]
fn compressed_chunked_body_dechunks_and_decodes() {
    let text = b"streamed and compressed streamed and compressed".to_vec();
    let mut r = RecvStream::new(text.clone(), true);
    r.set_chunked(true);
    r.add_compress_method(Consts::COMPRESS_METHOD_GZIP);
    let mut wire = Vec::new();
    r.read_data(&mut wire).unwrap();
    assert!(wire.ends_with(b"0\r\n\r\n"));
    let mut s = SendStream::empty();
    s.set_new_body();
    s.set_chunked(true);
    s.put_slice(&wire);
    let zipped = decode_all(&mut s);
    assert_eq!(gunzip(&zipped), text);
}

#[test]
fn same_encoding_passes_through_unchanged() {
    let mut r = RecvStream::new(b"already encoded".to_vec(), true);
    r.set_origin_compress_method(Consts::COMPRESS_METHOD_GZIP);
    assert_eq!(r.add_compress_method(Consts::COMPRESS_METHOD_GZIP), Consts::COMPRESS_METHOD_NONE);
    let mut out = Vec::new();
    r.read_data(&mut out).unwrap();
    assert_eq!(out, b"already encoded".to_vec());
}

#[test]
fn web_fault_variants_are_distinct() {
    assert_ne!(WebFault::Partial, WebFault::Token);
    assert_ne!(WebFault::NewLine, WebFault::Other);
}

#[test]
fn deflate_body_compresses_and_decompresses() {
    let text = b"deflate me deflate me deflate me".to_vec();
    let mut r = RecvStream::new(text.clone(), true);
    assert_eq!(r.add_compress_method(Consts::COMPRESS_METHOD_DEFLATE), Consts::COMPRESS_METHOD_DEFLATE);
    let mut out = Vec::new();
    r.read_data(&mut out).unwrap();
    let mut d = flate2::read::DeflateDecoder::new(out.as_slice());
    let mut plain = Vec::new();
    d.read_to_end(&mut plain).unwrap();
    assert_eq!(plain, text);
}

#[test]
fn brotli_body_compresses_and_decompresses() {
    let text = b"brotli brotli brotli brotli brotli".to_vec();
    let mut r = RecvStream::new(text.clone(), true);
    assert_eq!(r.add_compress_method(Consts::COMPRESS_METHOD_BROTLI), Consts::COMPRESS_METHOD_BROTLI);
    let mut out = Vec::new();
    r.read_data(&mut out).unwrap();
    let mut d = brotli::Decompressor::new(out.as_slice(), 4096);
    let mut plain = Vec::new();
    d.read_to_end(&mut plain).unwrap();
    assert_eq!(plain, text);
}

#[test]
fn body_reads_as_text() {
    assert_eq!(RecvStream::new(b"hello".to_vec(), true).into_string(), "hello".to_string());
    assert_eq!(RecvStream::new(vec![0x66, 0xff], true).into_string(), "f\u{FFFD}".to_string());
    assert_eq!(RecvStream::empty().into_string(), String::new());
}

#[test]
fn a_run_of_compressed_writes_decodes_to_all_data() {
    let mut r = RecvStream::empty();
    r.set_end(false);
    r.add_compress_method(Consts::COMPRESS_METHOD_GZIP);
    r.encode_write_data(b"hello ").unwrap();
    r.encode_write_data(b"compressed ").unwrap();
    r.encode_write_data(b"world").unwrap();
    r.encode_write_data(b"").unwrap();
    let mut wire = Vec::new();
    r.read_data(&mut wire).unwrap();
    let mut d = flate2::read::GzDecoder::new(wire.as_slice());
    let mut plain = Vec::new();
    d.read_to_end(&mut plain).unwrap();
    assert_eq!(plain, b"hello compressed world".to_vec());
}
