use wenmeng::http1::ConnectionInfo;
use wenmeng::http1_read::{compress_method_of, method_has_body, RequestStep, ResponseStep};
use wenmeng::client::HeaderPair;
use wenmeng::{Consts, ProtError, SendStream, WebFault};

fn stream_with(bytes: &[u8]) -> SendStream {
    let mut s = SendStream::empty();
    s.put_slice(bytes);
    s
}

#[test]
fn complete_request_head_is_taken_off_the_buffer() {
    let mut info = ConnectionInfo::new();
    let mut stream = stream_with(b"GET /index HTTP/1.1\r\nHost: example.com\r\nConnection: Keep-Alive\r\n\r\nNEXT");
    match info.poll_request(&mut stream) {
        RequestStep::Request(head, body, more) => {
            assert_eq!(head.method, b"GET".to_vec());
            assert_eq!(head.path, b"/index".to_vec());
            assert_eq!(head.version, b"HTTP/1.1".to_vec());
            assert_eq!(head.headers.len(), 2);
            assert!(head.keep_alive);
            assert!(body.is_end());
            assert!(!more);
        }
        _ => panic!("expected a request"),
    }
    assert_eq!(stream.read_bytes(), b"NEXT");
    assert!(info.is_keep_alive);
    assert!(!info.req_status.is_read_header_end);
}

#[test]
fn partial_request_head_waits() {
    let mut info = ConnectionInfo::new();
    let mut stream = stream_with(b"GET /index HT");
    assert!(matches!(info.poll_request(&mut stream), RequestStep::NeedMore));
    assert_eq!(stream.read_bytes(), b"GET /index HT");
    assert_eq!(info, ConnectionInfo::new());
}

#[test]
fn refused_head_fails_unless_it_is_the_http2_preface() {
    let mut info = ConnectionInfo::new();
    let mut stream = SendStream::empty();
    assert!(matches!(
        info.poll_request_step(&mut stream, Err(WebFault::Token)),
        RequestStep::Fail(ProtError::Web(WebFault::Token))
    ));
    let mut preface = stream_with(b"PRI * HTTP/2.0\r\n\r\nSM\r\n\r\n");
    assert!(matches!(info.poll_request_step(&mut preface, Err(WebFault::Other)), RequestStep::UpgradeHttp2));
    assert_eq!(preface.read_bytes().len(), 24);
}

#[test]
fn response_with_length_carries_its_body() {
    let mut info = ConnectionInfo::new();
    let mut stream = stream_with(b"HTTP/1.1 200 OK\r\nContent-Length: 5\r\nContent-Encoding: gzip\r\n\r\nhello");
    match info.poll_response(&mut stream, false) {
        ResponseStep::Response(head, body, more) => {
            assert_eq!(head.status, 200);
            assert_eq!(head.body_len, 5);
            assert_eq!(body.copy_now(), b"hello".to_vec());
            assert!(body.is_end());
            assert!(more);
        }
        _ => panic!("expected a response"),
    }
    assert_eq!(stream.read_bytes().len(), 0);
    assert!(!info.res_status.is_read_header_end);
}

#[test]
fn chunked_response_starts_reading_chunks() {
    let mut info = ConnectionInfo::new();
    let mut stream = stream_with(b"HTTP/1.1 200 OK\r\nTransfer-Encoding: chunked\r\n\r\n3\r\nabc\r\n");
    match info.poll_response(&mut stream, false) {
        ResponseStep::Response(head, body, more) => {
            assert!(head.chunked);
            assert_eq!(body.copy_now(), b"abc".to_vec());
            assert!(!body.is_end());
            assert!(more);
        }
        _ => panic!("expected a response"),
    }
    assert!(info.res_status.is_chunked);
    assert_eq!(info.res_status.left_read_body_len, usize::MAX);
}

#[test]
fn partial_response_after_close_ends_the_connection() {
    let mut info = ConnectionInfo::new();
    let mut stream = stream_with(b"HTTP/1.1 20");
    assert!(matches!(info.poll_response(&mut stream, false), ResponseStep::NeedMore));
    assert!(matches!(info.poll_response(&mut stream, true), ResponseStep::Closed));
    assert!(info.is_delay_close);
}

#[test]
fn content_encoding_header_names_the_compression() {
    let hs = vec![
        HeaderPair { name: b"Host".to_vec(), value: b"a".to_vec() },
        HeaderPair { name: b"content-encoding".to_vec(), value: b"br".to_vec() },
        HeaderPair { name: b"Content-Encoding".to_vec(), value: b"gzip".to_vec() },
    ];
    assert_eq!(compress_method_of(&hs), Consts::COMPRESS_METHOD_BROTLI);
    assert_eq!(compress_method_of(&Vec::new()), Consts::COMPRESS_METHOD_NONE);
}

#[test]
fn bodiless_methods() {
    assert!(!method_has_body(b"GET"));
    assert!(!method_has_body(b"HEAD"));
    assert!(!method_has_body(b"OPTIONS"));
    assert!(!method_has_body(b"CONNECT"));
    assert!(method_has_body(b"POST"));
    assert!(method_has_body(b"get"));
}

#[test]
fn request_body_is_exactly_its_content_length() {
    let mut info = ConnectionInfo::new();
    let mut stream = stream_with(b"POST /p HTTP/1.1\r\nContent-Length: 3\r\n\r\nabcGET");
    match info.poll_request(&mut stream) {
        RequestStep::Request(head, body, more) => {
            assert_eq!(head.path, b"/p".to_vec());
            assert_eq!(body.copy_now(), b"abc".to_vec());
            assert!(body.is_end());
            assert!(more);
        }
        _ => panic!("expected a request"),
    }
    assert_eq!(stream.read_bytes(), b"GET");
    assert!(!info.req_status.is_read_header_end);
}
