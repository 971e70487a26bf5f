use fracture::error::FailureKind;
use fracture::proxy::handler::{absorb_request_bytes, contains_head_terminator, route_request, HeadProgress, Route};

#[test]
fn head_terminator_detection() {
    assert!(contains_head_terminator(&b"GET / HTTP/1.1\r\n\r\n".to_vec()));
    assert!(!contains_head_terminator(&b"GET / HTTP/1.1\r\n".to_vec()));
    assert!(!contains_head_terminator(&b"\r\n\r".to_vec()));
    assert!(contains_head_terminator(&b"\r\n\r\n".to_vec()));
}

#[test]
fn closing_before_anything_is_quiet() {
    let mut buffer = Vec::new();
    assert!(matches!(absorb_request_bytes(&mut buffer, &[]), HeadProgress::ClosedQuietly));
}

#[test]
fn closing_mid_head_fails() {
    let mut buffer = b"GET /".to_vec();
    match absorb_request_bytes(&mut buffer, &[]) {
        HeadProgress::Failed(e) => {
            assert_eq!(e.kind, FailureKind::UnexpectedEof);
            assert_eq!(e.message, "Connection closed before complete headers received");
        }
        other => panic!("unexpected {:?}", other),
    }
}

#[test]
fn head_completes_across_reads() {
    let mut buffer = Vec::new();
    assert!(matches!(absorb_request_bytes(&mut buffer, b"GET / HTTP/1.1\r\n\r"), HeadProgress::NeedMore));
    assert!(matches!(absorb_request_bytes(&mut buffer, b"\n"), HeadProgress::Complete));
    assert_eq!(buffer, b"GET / HTTP/1.1\r\n\r\n".to_vec());
}

#[test]
fn oversized_head_is_refused() {
    let mut buffer = vec![b'a'; 8000];
    assert!(matches!(absorb_request_bytes(&mut buffer, &[b'b'; 192]), HeadProgress::NeedMore));
    match absorb_request_bytes(&mut buffer, b"c") {
        HeadProgress::Failed(e) => {
            assert_eq!(e.kind, FailureKind::InvalidData);
            assert_eq!(e.message, "Header too large");
        }
        other => panic!("unexpected {:?}", other),
    }
}

#[test]
fn routing() {
    let connect = b"CONNECT a:443 HTTP/1.1\r\n\r\n".to_vec();
    let get = b"GET / HTTP/1.1\r\nHost: example.com\r\n\r\n".to_vec();
    assert!(matches!(route_request(&connect, false), Route::Tunnel));
    assert!(matches!(route_request(&connect, true), Route::Tunnel));
    assert!(matches!(route_request(&get, false), Route::Forward));
    match route_request(&get, true) {
        Route::Blocked(e) => {
            assert_eq!(e.kind, FailureKind::ConnectionAborted);
            assert_eq!(e.message, "Insecure HTTP blocked");
        }
        other => panic!("unexpected {:?}", other),
    }
    // The method must be followed by a space.
    assert!(matches!(route_request(&b"CONNECTX".to_vec(), false), Route::Forward));
}
