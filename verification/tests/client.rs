use h1_dispatcher::client::{prepare, split_len, SendError};
use h1_dispatcher::message::{BodySize, Header};

fn header(name: &str, value: &str) -> Header {
    Header { name: name.as_bytes().to_vec(), value: value.as_bytes().to_vec() }
}

fn pairs(headers: &[Header]) -> Vec<(String, String)> {
    headers
        .iter()
        .map(|h| {
            (String::from_utf8(h.name.clone()).unwrap(), String::from_utf8(h.value.clone()).unwrap())
        })
        .collect()
}

fn pair(name: &str, value: &str) -> (String, String) {
    (name.to_string(), value.to_string())
}

#[test]
fn length_is_written_anew_from_the_size() {
    let given = vec![
        header("Content-Length", "99"),
        header("accept", "*/*"),
        header("Connection", "keep-alive"),
        header("Transfer-Encoding", "chunked"),
        header("Upgrade", "h2c"),
    ];
    let p = prepare(&given, b"POST", BodySize::Sized(1234), b"today").unwrap();
    assert_eq!(
        pairs(&p.headers),
        vec![pair("accept", "*/*"), pair("content-length", "1234"), pair("date", "today")]
    );
    assert!(!p.is_eof);
    assert!(!p.end_of_stream);
    assert!(!p.is_head);
    assert!(p.protocol.is_none());
    let p = prepare(&given, b"POST", BodySize::Sized(0), b"today").unwrap();
    assert_eq!(
        pairs(&p.headers),
        vec![pair("accept", "*/*"), pair("content-length", "0"), pair("date", "today")]
    );
    assert!(p.is_eof);
    assert!(p.end_of_stream);
    let p = prepare(&given, b"HEAD", BodySize::NoBody, b"today").unwrap();
    assert_eq!(pairs(&p.headers), vec![pair("accept", "*/*"), pair("date", "today")]);
    assert!(p.is_eof && p.end_of_stream && p.is_head);
    let p = prepare(&given, b"PUT", BodySize::Stream, b"today").unwrap();
    assert_eq!(pairs(&p.headers), vec![pair("accept", "*/*"), pair("date", "today")]);
    assert!(!p.is_eof && !p.end_of_stream);
}

#[test]
fn date_of_the_request_is_kept() {
    let given = vec![header("Date", "then"), header("x", "y")];
    let p = prepare(&given, b"GET", BodySize::NoBody, b"today").unwrap();
    assert_eq!(pairs(&p.headers), vec![pair("Date", "then"), pair("x", "y")]);
}

#[test]
fn protocol_needs_connect_or_an_empty_body() {
    let given = vec![header("x", "y"), header("Protocol", "websocket")];
    assert_eq!(
        prepare(&given, b"GET", BodySize::Stream, b"d").unwrap_err(),
        SendError::Protocol
    );
    assert_eq!(
        prepare(&given, b"connect", BodySize::Sized(3), b"d").unwrap_err(),
        SendError::Protocol
    );
    let p = prepare(&given, b"CONNECT", BodySize::Stream, b"d").unwrap();
    assert_eq!(p.protocol, Some(b"websocket".to_vec()));
    assert!(!p.end_of_stream);
    assert_eq!(pairs(&p.headers), vec![pair("x", "y"), pair("date", "d")]);
    let p = prepare(&given, b"GET", BodySize::NoBody, b"d").unwrap();
    assert_eq!(p.protocol, Some(b"websocket".to_vec()));
    assert!(p.is_eof);
    assert!(!p.end_of_stream);
    let odd = vec![Header { name: b"protocol".to_vec(), value: b"web\x00socket".to_vec() }];
    let p = prepare(&odd, b"GET", BodySize::NoBody, b"d").unwrap();
    assert!(p.protocol.is_none());
    assert!(p.end_of_stream);
}

#[test]
fn chunks_are_split_to_the_capacity() {
    assert_eq!(split_len(3, 10), 3);
    assert_eq!(split_len(10, 3), 3);
    assert_eq!(split_len(0, 3), 0);
    assert_eq!(split_len(4, 4), 4);
}
