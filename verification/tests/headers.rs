use wenmeng::http_helper::AcceptEncoding;
use wenmeng::{
    BaseMiddleware, Consts, HeaderEdits, HeaderFacts, HeaderHelper, HttpHelper, HttpVersion, RecvStream,
};

#[test]
fn compress_method_follows_content_encoding() {
    assert_eq!(HeaderHelper::get_compress_method(Some(b"gzip")), Consts::COMPRESS_METHOD_GZIP);
    assert_eq!(HeaderHelper::get_compress_method(Some(b"x-deflate")), Consts::COMPRESS_METHOD_DEFLATE);
    assert_eq!(HeaderHelper::get_compress_method(Some(b"br")), Consts::COMPRESS_METHOD_BROTLI);
    assert_eq!(HeaderHelper::get_compress_method(Some(b"identity")), Consts::COMPRESS_METHOD_NONE);
    assert_eq!(HeaderHelper::get_compress_method(None), Consts::COMPRESS_METHOD_NONE);
    // gzip wins over the others when several are named
    assert_eq!(HeaderHelper::get_compress_method(Some(b"br, gzip")), Consts::COMPRESS_METHOD_GZIP);
}

#[test]
fn server_sets_length_of_a_complete_plain_body() {
    let mut body = RecvStream::new(b"Hello World".to_vec(), true);
    let facts = HeaderFacts { is_chunked: false, body_len: 0 };
    let edits = HeaderHelper::process_headers(HttpVersion::Http11, false, None, facts, &mut body).1.unwrap();
    assert_eq!(edits, HeaderEdits { remove_connection_headers: false, content_length: Some(11), set_chunked: false });
}

#[test]
fn http2_drops_connection_headers() {
    let mut body = RecvStream::new(b"abc".to_vec(), true);
    let facts = HeaderFacts { is_chunked: false, body_len: 3 };
    let edits = HeaderHelper::process_headers(HttpVersion::Http2, false, None, facts, &mut body).1.unwrap();
    assert_eq!(edits, HeaderEdits { remove_connection_headers: true, content_length: None, set_chunked: false });
}

#[test]
fn unfinished_compressed_http1_body_goes_chunked() {
    let mut body = RecvStream::new(b"partial".to_vec(), false);
    let facts = HeaderFacts { is_chunked: false, body_len: 0 };
    let edits =
        HeaderHelper::process_headers(HttpVersion::Http11, false, Some(b"gzip"), facts, &mut body).1.unwrap();
    assert_eq!(edits, HeaderEdits { remove_connection_headers: false, content_length: None, set_chunked: true });
    assert_eq!(body.get_now_compress(), Consts::COMPRESS_METHOD_GZIP);
}

#[test]
fn client_passes_received_encoding_through() {
    let mut body = RecvStream::new(b"zipped bytes".to_vec(), true);
    let facts = HeaderFacts { is_chunked: false, body_len: 12 };
    HeaderHelper::process_headers(HttpVersion::Http11, true, Some(b"gzip"), facts, &mut body).1.unwrap();
    assert_eq!(body.get_now_compress(), Consts::COMPRESS_METHOD_NONE);
}

#[test]
fn base_middleware_prepares_requests_like_the_header_helper() {
    let mut m = BaseMiddleware::new(false);
    assert!(!m.is_client);
    let mut body = RecvStream::new(b"0123456789".to_vec(), true);
    let facts = HeaderFacts { is_chunked: false, body_len: 0 };
    let edits = m.process_request(HttpVersion::Http11, None, facts, &mut body).1.unwrap();
    assert_eq!(edits.content_length, Some(10));
    let mut body = RecvStream::new(b"xyz".to_vec(), true);
    let edits = m.process_response(HttpVersion::Http2, None, facts, &mut body).1.unwrap();
    assert_eq!(edits, HeaderEdits { remove_connection_headers: true, content_length: Some(3), set_chunked: false });
    assert!(BaseMiddleware::new(true).is_client);
}

#[test]
fn convert_value_fills_in_variables() {
    assert_eq!(HeaderHelper::convert_value(b"plain", true, None, None, b"/"), b"plain".to_vec());
    assert_eq!(HeaderHelper::convert_value(b"", true, None, None, b"/"), Vec::<u8>::new());
    assert_eq!(HeaderHelper::convert_value(b"{client_ip}", true, Some(b"10.0.0.1"), None, b"/"), b"10.0.0.1".to_vec());
    assert_eq!(HeaderHelper::convert_value(b"{host}", true, None, Some(b"example.com"), b"/"), b"example.com".to_vec());
    assert_eq!(HeaderHelper::convert_value(b"{host}", true, None, None, b"/"), Vec::<u8>::new());
    assert_eq!(HeaderHelper::convert_value(b"{url}", true, None, None, b"http://a/b"), b"http://a/b".to_vec());
    assert_eq!(HeaderHelper::convert_value(b"{other}", true, None, None, b"/"), b"unknown".to_vec());
    assert_eq!(HeaderHelper::convert_value(b"{host}", false, None, Some(b"h"), b"/"), b"unknown".to_vec());
}

#[test]
fn accept_encoding_is_read_by_substring() {
    let a = HttpHelper::accept_encoding(Some(b"gzip, deflate, br"));
    assert_eq!(a, AcceptEncoding { gzip: true, deflate: true, br: true });
    let b = HttpHelper::accept_encoding(Some(b"deflate"));
    assert_eq!(b, AcceptEncoding { gzip: false, deflate: true, br: false });
    assert_eq!(HttpHelper::accept_encoding(None), AcceptEncoding { gzip: false, deflate: false, br: false });
}

#[test]
fn response_encoding_prefers_gzip_then_brotli_then_deflate() {
    let all = AcceptEncoding { gzip: true, deflate: true, br: true };
    let no_gzip = AcceptEncoding { gzip: false, deflate: true, br: true };
    let only_deflate = AcceptEncoding { gzip: false, deflate: true, br: false };
    assert_eq!(HttpHelper::response_encoding(all, 0, false, false, 0), Some(Consts::COMPRESS_METHOD_GZIP));
    assert_eq!(HttpHelper::response_encoding(no_gzip, 0, false, false, 0), Some(Consts::COMPRESS_METHOD_BROTLI));
    assert_eq!(HttpHelper::response_encoding(only_deflate, 0, false, false, 0), Some(Consts::COMPRESS_METHOD_DEFLATE));
}

#[test]
fn small_or_declared_or_encoded_responses_are_not_compressed() {
    let all = AcceptEncoding { gzip: true, deflate: true, br: true };
    // a finished body of at most 1024 bytes
    assert_eq!(HttpHelper::response_encoding(all, 0, false, true, 1024), None);
    assert_eq!(HttpHelper::response_encoding(all, 0, false, true, 1025), Some(Consts::COMPRESS_METHOD_GZIP));
    // a declared length
    assert_eq!(HttpHelper::response_encoding(all, 10, false, false, 0), None);
    // already encoded
    assert_eq!(HttpHelper::response_encoding(all, 0, true, false, 0), None);
}

#[test]
fn http_versions_are_told_apart() {
    assert!(HttpVersion::Http11.is_http1());
    assert!(HttpVersion::Http10.is_http1());
    assert!(!HttpVersion::Http2.is_http1());
    assert!(HttpVersion::Http2.is_http2());
    assert!(!HttpVersion::Unset.is_http2());
}

#[test]
fn http2_connection_headers_go_even_when_the_body_is_refused() {
    let mut body = RecvStream::new(b"not gzip at all".to_vec(), true);
    body.set_compress_origin_gzip();
    let facts = HeaderFacts { is_chunked: false, body_len: 0 };
    let (remove, edits) = HeaderHelper::process_headers(HttpVersion::Http2, false, None, facts, &mut body);
    assert!(remove);
    assert!(edits.is_err());
}
