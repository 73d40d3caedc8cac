use h1_dispatcher::error::Parse;
use h1_dispatcher::message::Header;
use h1_dispatcher::multipart::{
    boundary, boundary_from, check_headers, check_text, content_length_opt, find_header,
    headers_from, parse_headers, part_from, MediaType, MultipartError,
};

fn header(name: &str, value: &str) -> Header {
    Header { name: name.as_bytes().to_vec(), value: value.as_bytes().to_vec() }
}

#[test]
fn boundary_of_a_multipart_request() {
    let headers = vec![
        header("Host", "x"),
        header("content-type", "multipart/form-data; boundary=abbc761f78ff4d7cb7573b5a23f96ef0"),
    ];
    assert_eq!(boundary(&headers), Ok(b"abbc761f78ff4d7cb7573b5a23f96ef0".to_vec()));
    assert_eq!(boundary(&vec![header("Host", "x")]), Err(MultipartError::NoContentType));
    assert_eq!(
        boundary(&vec![header("Content-Type", "not a media type")]),
        Err(MultipartError::ParseContentType)
    );
    assert_eq!(
        boundary(&vec![Header { name: b"Content-Type".to_vec(), value: b"text/plain\x01".to_vec() }]),
        Err(MultipartError::ParseContentType)
    );
    assert_eq!(
        boundary(&vec![header("Content-Type", "multipart/form-data")]),
        Err(MultipartError::Boundary)
    );
    // the first header of the name counts
    let two = vec![header("Content-Type", "text/plain"), header("Content-Type", "a/b; boundary=x")];
    assert_eq!(boundary(&two), Err(MultipartError::Boundary));
}

#[test]
fn boundary_from_parsed_media_type() {
    assert_eq!(boundary_from(None), Err(MultipartError::NoContentType));
    assert_eq!(boundary_from(Some(None)), Err(MultipartError::ParseContentType));
    let without = MediaType { kind: b"text".to_vec(), boundary: None };
    assert_eq!(boundary_from(Some(Some(without))), Err(MultipartError::Boundary));
    let with = MediaType { kind: b"multipart".to_vec(), boundary: Some(b"xyz".to_vec()) };
    assert_eq!(boundary_from(Some(Some(with))), Ok(b"xyz".to_vec()));
}

#[test]
fn part_headers_are_checked() {
    let plain = vec![header("Content-Disposition", "form-data; name=\"a\"")];
    assert_eq!(check_headers(&plain), Ok(()));
    let text = vec![
        header("content-disposition", "form-data; name=\"a\""),
        header("Content-Type", "text/plain; charset=utf-8"),
    ];
    assert_eq!(check_headers(&text), Ok(()));
    let nested = vec![
        header("Content-Disposition", "form-data; name=\"a\""),
        header("Content-Type", "Multipart/mixed; boundary=x"),
    ];
    assert_eq!(check_headers(&nested), Err(MultipartError::Nested));
    let bare = vec![header("Content-Type", "multipart/mixed; boundary=x")];
    assert_eq!(check_headers(&bare), Err(MultipartError::NoContentDisposition));
    let odd = vec![header("Content-Disposition", "x"), header("Content-Type", "???")];
    assert_eq!(check_headers(&odd), Ok(()));
    assert_eq!(part_from(false, None), Err(MultipartError::NoContentDisposition));
    assert_eq!(part_from(true, None), Ok(()));
    let media = MediaType { kind: b"MULTIPART".to_vec(), boundary: None };
    assert_eq!(part_from(true, Some(media)), Err(MultipartError::Nested));
}

#[test]
fn part_length_is_optional() {
    assert_eq!(content_length_opt(&vec![header("Host", "x")]), Ok(None));
    assert_eq!(content_length_opt(&vec![header("Content-Length", "42")]), Ok(Some(42)));
    assert_eq!(content_length_opt(&vec![header("content-length", "+42")]), Ok(Some(42)));
    let bad = Err(MultipartError::Header(Parse::HeaderValue));
    assert_eq!(content_length_opt(&vec![header("Content-Length", " 42")]), bad);
    assert_eq!(content_length_opt(&vec![header("Content-Length", "+")]), bad);
    assert_eq!(content_length_opt(&vec![header("Content-Length", "")]), bad);
    assert_eq!(content_length_opt(&vec![header("Content-Length", "-1")]), bad);
    assert_eq!(content_length_opt(&vec![header("Content-Length", "18446744073709551616")]), bad);
    let two = vec![header("Content-Length", "1"), header("Content-Length", "x")];
    assert_eq!(content_length_opt(&two), Ok(Some(1)));
}

#[test]
fn part_headers_are_parsed() {
    let headers =
        parse_headers(b"Content-Disposition: form-data; name=\"a\"\r\nContent-Type: text/plain\r\n\r\nbody")
            .unwrap();
    assert_eq!(headers.len(), 2);
    assert_eq!(headers[0].name, b"Content-Disposition");
    assert_eq!(headers[0].value, b"form-data; name=\"a\"");
    assert_eq!(headers[1].name, b"Content-Type");
    assert_eq!(headers[1].value, b"text/plain");
    assert_eq!(find_header(&headers, "content-type"), Some(1));
    assert_eq!(find_header(&headers, "host"), None);
    assert_eq!(
        parse_headers(b"Content-Type: text/plain\r\n").unwrap_err(),
        MultipartError::Header(Parse::HeaderTooLarge)
    );
    assert_eq!(
        parse_headers(b"bad header\r\n\r\n").unwrap_err(),
        MultipartError::Header(Parse::Malformed)
    );
    let mut many = Vec::new();
    for _ in 0..17 {
        many.extend_from_slice(b"a: b\r\n");
    }
    many.extend_from_slice(b"\r\n");
    assert_eq!(parse_headers(&many).unwrap_err(), MultipartError::Header(Parse::HeaderTooLarge));
    assert_eq!(headers_from(Ok(None)).unwrap_err(), MultipartError::Header(Parse::HeaderTooLarge));
    assert_eq!(headers_from(Ok(Some(Vec::new()))).unwrap().len(), 0);
    assert_eq!(
        headers_from(Err(Parse::Malformed)).unwrap_err(),
        MultipartError::Header(Parse::Malformed)
    );
}

#[test]
fn header_text() {
    assert!(check_text(b"text/plain; a=\"b\"\t"));
    assert!(check_text(b""));
    assert!(!check_text(b"caf\xc3\xa9"));
    assert!(!check_text(b"a\x7f"));
    assert!(!check_text(b"a\nb"));
}
