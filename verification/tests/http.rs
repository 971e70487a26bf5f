use fracture::error::FailureKind;
use fracture::proxy::handler::ReadOutcome;
use fracture::proxy::http::{absorb_http_read, http_head_step, parse_host_header, HeaderField, HttpHead};

fn header(name: &str, value: &[u8]) -> HeaderField {
    HeaderField { name: name.to_string(), value: value.to_vec() }
}

#[test]
fn test_http_missing_port_fallback() {
    let headers = vec![header("Host", b"127.0.0.1")];

    let result = parse_host_header(&headers);

    assert!(result.is_ok(), "Parser failed to process valid Host header");
    let (host, port) = result.unwrap();

    assert_eq!(host, "127.0.0.1");
    assert_eq!(port, 80, "Did not fallback to the default HTTP port 80");
}

#[test]
fn host_header_with_port() {
    let headers = vec![header("User-Agent", b"curl"), header("hOsT", b" example.com :8080")];
    assert_eq!(parse_host_header(&headers).unwrap(), ("example.com".to_string(), 8080));
}

#[test]
fn host_header_unreadable_port_falls_back() {
    let headers = vec![header("Host", b"example.com: 8080")];
    assert_eq!(parse_host_header(&headers).unwrap(), ("example.com".to_string(), 80));
    let headers = vec![header("Host", b"example.com:70000")];
    assert_eq!(parse_host_header(&headers).unwrap(), ("example.com".to_string(), 80));
    let headers = vec![header("Host", b"example.com:+81")];
    assert_eq!(parse_host_header(&headers).unwrap(), ("example.com".to_string(), 81));
}

#[test]
fn host_header_first_one_wins() {
    let headers = vec![header("Host", b"a.example"), header("Host", b"b.example:1")];
    assert_eq!(parse_host_header(&headers).unwrap(), ("a.example".to_string(), 80));
}

#[test]
fn host_header_missing() {
    let headers = vec![header("User-Agent", b"curl")];
    let err = parse_host_header(&headers).unwrap_err();
    assert_eq!(err.kind, FailureKind::InvalidData);
    assert!(err.message.contains("No Host header found"));
}

#[test]
fn host_header_invalid_utf8() {
    let headers = vec![header("Host", &[0x66, 0xff, 0x66])];
    let err = parse_host_header(&headers).unwrap_err();
    assert_eq!(err.kind, FailureKind::InvalidData);
    assert_eq!(err.message, "Host header contains invalid UTF-8");
}

#[test]
fn http_head_complete_request() {
    let buffer = b"GET / HTTP/1.1\r\nHost: 127.0.0.1:9000\r\nUser-Agent: curl/7.68.0\r\n\r\n".to_vec();
    match http_head_step(&buffer) {
        HttpHead::Target(host, port) => {
            assert_eq!(host, "127.0.0.1");
            assert_eq!(port, 9000);
        }
        other => panic!("unexpected {:?}", other),
    }
}

#[test]
fn http_head_missing_host_header() {
    let buffer = b"GET / HTTP/1.1\r\nUser-Agent: curl\r\n\r\n".to_vec();
    match http_head_step(&buffer) {
        HttpHead::Failed(e) => {
            assert_eq!(e.kind, FailureKind::InvalidData);
            assert!(e.message.contains("No Host header found"));
        }
        other => panic!("unexpected {:?}", other),
    }
}

#[test]
fn http_head_malformed_header_line() {
    let buffer = b"GET / HTTP/1.1\r\nMalformedHeaderLineNoColon\r\n\r\n".to_vec();
    match http_head_step(&buffer) {
        HttpHead::Failed(e) => {
            assert_eq!(e.kind, FailureKind::InvalidData);
            assert_eq!(e.message, "Failed to parse HTTP request: invalid header name");
        }
        other => panic!("unexpected {:?}", other),
    }
}

#[test]
fn http_head_partial_needs_more() {
    let buffer = b"GET / HTTP/1.1\r\nHost: exa".to_vec();
    assert!(matches!(http_head_step(&buffer), HttpHead::NeedMore));
}

#[test]
fn http_head_partial_too_large() {
    let mut buffer = b"GET / HTTP/1.1\r\nX-Pad: ".to_vec();
    buffer.extend(std::iter::repeat(b'a').take(9000));
    match http_head_step(&buffer) {
        HttpHead::Failed(e) => {
            assert_eq!(e.kind, FailureKind::InvalidData);
            assert_eq!(e.message, "HTTP header metrics breached maximum allowed ceiling (8KB limit)");
        }
        other => panic!("unexpected {:?}", other),
    }
}

#[test]
fn http_reads_are_absorbed() {
    let mut buffer = b"GET".to_vec();
    assert!(absorb_http_read(&mut buffer, ReadOutcome::Data(b" /".to_vec())).is_ok());
    assert_eq!(buffer, b"GET /".to_vec());
    let e = absorb_http_read(&mut buffer, ReadOutcome::Closed).unwrap_err();
    assert_eq!(e.kind, FailureKind::UnexpectedEof);
    assert_eq!(e.message, "Early client EOF during HTTP header acquisition");
    let e = absorb_http_read(&mut buffer, ReadOutcome::TimedOut).unwrap_err();
    assert_eq!(e.kind, FailureKind::TimedOut);
    assert_eq!(e.message, "HTTP header read timeout");
    assert_eq!(buffer, b"GET /".to_vec());
}
