use fracture::error::FailureKind;
use fracture::proxy::handler::ReadOutcome;
use fracture::proxy::https::{
    absorb_connect_read, client_hello_fragments, connect_head_status, parse_connect_target,
    tls_payload_length, ConnectHead,
};
use fracture::AppConfig;

#[test]
fn connect_target_with_port() {
    let data = b"CONNECT 127.0.0.1:4433 HTTP/1.1\r\nHost: 127.0.0.1\r\n\r\n";
    assert_eq!(parse_connect_target(data).unwrap(), ("127.0.0.1".to_string(), 4433));
}

#[test]
fn connect_target_without_port_defaults_to_443() {
    let data = b"CONNECT INVALID_TARGET_NO_PORT HTTP/1.1\r\n\r\n";
    assert_eq!(parse_connect_target(data).unwrap(), ("INVALID_TARGET_NO_PORT".to_string(), 443));
    let data = b"CONNECT example.com:https HTTP/1.1\r\n\r\n";
    assert_eq!(parse_connect_target(data).unwrap(), ("example.com".to_string(), 443));
}

#[test]
fn connect_target_errors() {
    let cases: Vec<(&[u8], &str)> = vec![
        (b"\xff\xfe", "CONNECT request is not valid UTF-8"),
        (b"", "Empty CONNECT request"),
        (b"CONNECT\r\nHost: x\r\n\r\n", "CONNECT request is missing target host:port"),
        (b"\r\nCONNECT a:1 HTTP/1.1\r\n", "CONNECT request is missing target host:port"),
        (b"GET a:1 HTTP/1.1\r\n\r\n", "Expected CONNECT method"),
        (b"connect a:1 HTTP/1.1\r\n\r\n", "Expected CONNECT method"),
        (b"CONNECT :443 HTTP/1.1\r\n\r\n", "CONNECT target host is empty"),
    ];
    for (data, message) in cases {
        let e = parse_connect_target(data).unwrap_err();
        assert_eq!(e.kind, FailureKind::InvalidData);
        assert_eq!(e.message, message);
    }
}

#[test]
fn connect_target_line_handling() {
    // Only the first line counts, and a carriage return before its line feed is dropped.
    let data = b"  CONNECT\t host.example:8443\r\nCONNECT other:1\r\n";
    assert_eq!(parse_connect_target(data).unwrap(), ("host.example".to_string(), 8443));
    // A line without a line feed is the whole text.
    let data = b"CONNECT h:1";
    assert_eq!(parse_connect_target(data).unwrap(), ("h".to_string(), 1));
}

#[test]
fn connect_head_buffering() {
    let complete = b"CONNECT a:1 HTTP/1.1\r\n\r\n".to_vec();
    assert!(matches!(connect_head_status(&complete), ConnectHead::Complete));
    let partial = b"CONNECT a:1 HTTP/1.1\r\n".to_vec();
    assert!(matches!(connect_head_status(&partial), ConnectHead::NeedMore));
    let long = vec![b'a'; 4097];
    match connect_head_status(&long) {
        ConnectHead::TooLarge(e) => {
            assert_eq!(e.kind, FailureKind::InvalidData);
            assert_eq!(e.message, "Inbound HTTP CONNECT target payload breached header line safety margins");
        }
        other => panic!("unexpected {:?}", other),
    }
    assert!(matches!(connect_head_status(&vec![b'a'; 4096]), ConnectHead::NeedMore));
}

#[test]
fn connect_reads_are_absorbed() {
    let mut buffer = b"CONN".to_vec();
    assert!(absorb_connect_read(&mut buffer, ReadOutcome::Data(b"ECT".to_vec())).is_ok());
    assert_eq!(buffer, b"CONNECT".to_vec());
    let e = absorb_connect_read(&mut buffer, ReadOutcome::Closed).unwrap_err();
    assert_eq!(e.kind, FailureKind::UnexpectedEof);
    assert_eq!(e.message, "Early client EOF during proxy tunnel allocation request");
    let e = absorb_connect_read(&mut buffer, ReadOutcome::TimedOut).unwrap_err();
    assert_eq!(e.kind, FailureKind::TimedOut);
    assert_eq!(e.message, "CONNECT sequence buffer timeout");
}

#[test]
fn tls_payload_length_limits() {
    assert_eq!(tls_payload_length(&[22, 3, 3, 0, 10]).unwrap(), 10);
    assert_eq!(tls_payload_length(&[22, 3, 3, 0x40, 0x00]).unwrap(), 16384);
    let e = tls_payload_length(&[22, 3, 3, 0x40, 0x01]).unwrap_err();
    assert_eq!(e.kind, FailureKind::InvalidData);
    assert_eq!(e.message, "TLS record payload exceeded maximum allowed size");
}

#[test]
fn client_hello_blind_and_strict() {
    let header = [22u8, 3, 3, 0, 10];
    let payload = b"1234567890";
    let mut config = AppConfig::default();
    config.fragmentation_size = 5;
    config.tls_record_fragmentation = false;
    let blind = client_hello_fragments(&header, payload, &config);
    assert_eq!(blind, vec![vec![22, 3, 3, 0, 10], b"12345".to_vec(), b"67890".to_vec()]);
    config.tls_record_fragmentation = true;
    let strict = client_hello_fragments(&header, payload, &config);
    assert_eq!(
        strict,
        vec![
            vec![22, 3, 3, 0, 5, b'1', b'2', b'3', b'4', b'5'],
            vec![22, 3, 3, 0, 5, b'6', b'7', b'8', b'9', b'0'],
        ]
    );
}
