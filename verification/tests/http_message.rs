use halter_providers::http_message::{content_length, find_headers_end, is_complete};

#[test]
fn find_headers_end_locates_terminator_or_none() {
    assert_eq!(find_headers_end(b"POST / HTTP/1.1\r\nA: b\r\n\r\nbody"), Some(21));
    assert_eq!(find_headers_end(b"POST / HTTP/1.1\r\nA: b\r\n"), None);
}

#[test]
fn content_length_parses_case_insensitively_or_none() {
    assert_eq!(content_length(b"POST / HTTP/1.1\r\nContent-Length: 12\r\n"), Some(12));
    assert_eq!(content_length(b"POST / HTTP/1.1\r\ncontent-length:7\r\n"), Some(7));
    assert_eq!(content_length(b"POST / HTTP/1.1\r\nHost: x\r\n"), None);
    assert_eq!(content_length(b"POST / HTTP/1.1\r\nContent-Length: nope\r\n"), None);
}

#[test]
fn a_message_is_complete_once_its_body_has_come() {
    assert!(!is_complete(b"POST / HTTP/1.1\r\nContent-Length: 4\r\n\r\nbod"));
    assert!(is_complete(b"POST / HTTP/1.1\r\nContent-Length: 4\r\n\r\nbody"));
    assert!(is_complete(b"GET / HTTP/1.1\r\n\r\n"));
    assert!(!is_complete(b"GET / HTTP/1.1\r\n"));
}
