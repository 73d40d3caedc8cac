use bytes::Bytes;
use h1_dispatcher::buf::{ReadBuf, WriteBuf};
use h1_dispatcher::coding::{ChunkedState, TransferCoding};
use h1_dispatcher::context::{read_headers, ConnectionType, Context};
use h1_dispatcher::encode::reason;
use h1_dispatcher::error::{ChunkError, Parse, ProtoError};
use h1_dispatcher::message::{bad_request, header_too_large, BodySize, Header, Parts, Version};
use h1_dispatcher::parse::RawHead;

const DATE: &[u8] = b"Thu, 01 Jan 1970 00:00:00 GMT";

fn read_buf(bytes: &[u8]) -> ReadBuf<4096> {
    let mut buf = ReadBuf::<4096>::new();
    assert_eq!(buf.fill(bytes), bytes.len());
    buf
}

fn header(name: &str, value: &str) -> Header {
    Header { name: name.as_bytes().to_vec(), value: value.as_bytes().to_vec() }
}

fn decode_all(coding: &mut TransferCoding, buf: &mut ReadBuf<4096>) -> Vec<Vec<u8>> {
    let mut chunks = Vec::new();
    while let Some(chunk) = coding.decode(buf).unwrap() {
        let end = chunk.is_empty();
        chunks.push(chunk.to_vec());
        if end {
            break;
        }
    }
    chunks
}

#[test]
fn decode_head_get() {
    let mut ctx = Context::<64>::new();
    let mut buf = read_buf(b"GET / HTTP/1.1\r\nHost: x\r\n\r\nrest");
    let (req, coding) = ctx.decode_head(&mut buf).unwrap().unwrap();
    assert_eq!(req.method, b"GET");
    assert_eq!(req.uri, b"/");
    assert_eq!(req.version, Version::Http11);
    assert_eq!(req.headers.len(), 1);
    assert_eq!(req.headers[0].name, b"Host");
    assert_eq!(req.headers[0].value, b"x");
    assert_eq!(coding, TransferCoding::Eof);
    assert_eq!(ctx.ctype(), ConnectionType::KeepAlive);
    assert!(!ctx.is_expect_header());
    assert!(!ctx.is_connection_closed());
    assert_eq!(buf.as_slice(), b"rest");
}

#[test]
fn decode_head_partial_leaves_everything() {
    let mut ctx = Context::<64>::new();
    let mut buf = read_buf(b"GET / HTTP/1.1\r\nHost:");
    assert!(ctx.decode_head(&mut buf).unwrap().is_none());
    assert_eq!(buf.len(), 21);
    assert_eq!(ctx.ctype(), ConnectionType::Init);
}

#[test]
fn decode_head_partial_in_full_buffer_is_too_large() {
    let mut ctx = Context::<64>::new();
    let mut buf = ReadBuf::<21>::new();
    assert_eq!(buf.fill(b"GET / HTTP/1.1\r\nHost: example"), 21);
    assert!(buf.backpressure());
    assert_eq!(ctx.decode_head(&mut buf).unwrap_err(), ProtoError::Parse(Parse::HeaderTooLarge));
    assert_eq!(buf.len(), 21);
}

#[test]
fn decode_head_malformed() {
    let mut ctx = Context::<64>::new();
    let mut buf = read_buf(b"GET / HTTP/1.1\r\nbad header\r\n\r\n");
    assert_eq!(ctx.decode_head(&mut buf).unwrap_err(), ProtoError::Parse(Parse::Malformed));
}

#[test]
fn decode_head_too_many_headers() {
    let mut ctx = Context::<1>::new();
    let mut buf = read_buf(b"GET / HTTP/1.1\r\na: 1\r\nb: 2\r\n\r\n");
    assert_eq!(ctx.decode_head(&mut buf).unwrap_err(), ProtoError::Parse(Parse::HeaderTooLarge));
}

#[test]
fn decode_parsed_takes_the_head_out_of_the_buffer() {
    let mut ctx = Context::<64>::new();
    let mut buf = read_buf(b"0123456789");
    let head = RawHead {
        method: b"PUT".to_vec(),
        path: b"/x".to_vec(),
        minor: 0,
        headers: vec![header("Content-Length", " 12 "), header("Expect", "100-Continue")],
        len: 4,
    };
    let (req, coding) = ctx.decode_parsed(&mut buf, Ok(Some(head))).unwrap().unwrap();
    assert_eq!(req.method, b"PUT");
    assert_eq!(req.uri, b"/x");
    assert_eq!(req.version, Version::Http10);
    assert_eq!(coding, TransferCoding::Length(12));
    assert_eq!(ctx.ctype(), ConnectionType::Close);
    assert!(ctx.is_expect_header());
    assert!(ctx.is_connection_closed());
    assert_eq!(buf.as_slice(), b"456789");
    assert!(ctx.decode_parsed(&mut buf, Ok(None)).unwrap().is_none());
    assert_eq!(
        ctx.decode_parsed(&mut buf, Err(Parse::Malformed)).unwrap_err(),
        ProtoError::Parse(Parse::Malformed)
    );
    assert_eq!(buf.as_slice(), b"456789");
}

#[test]
fn headers_decide_the_coding_in_order() {
    let upgrade = vec![
        header("Connection", "keep-alive, Upgrade"),
        header("Transfer-Encoding", "gzip, chunked"),
    ];
    assert_eq!(
        read_headers(&upgrade, 1),
        Ok((TransferCoding::Upgrade, ConnectionType::KeepAlive, false))
    );
    let chunked = vec![header("transfer-encoding", "Chunked")];
    assert_eq!(
        read_headers(&chunked, 1),
        Ok((TransferCoding::Chunked(ChunkedState::Size, 0), ConnectionType::KeepAlive, false))
    );
    let sized = vec![header("CONTENT-LENGTH", "7"), header("content-length", "7")];
    assert_eq!(
        read_headers(&sized, 1),
        Ok((TransferCoding::Length(7), ConnectionType::KeepAlive, false))
    );
    let empty = vec![header("Content-Length", "0")];
    assert_eq!(read_headers(&empty, 1), Ok((TransferCoding::Eof, ConnectionType::KeepAlive, false)));
    assert_eq!(read_headers(&Vec::new(), 0), Ok((TransferCoding::Eof, ConnectionType::Close, false)));
}

#[test]
fn headers_that_disagree_are_rejected() {
    let differ = vec![header("Content-Length", "7"), header("Content-Length", "8")];
    assert_eq!(read_headers(&differ, 1), Err(Parse::Framing));
    let both = vec![header("Content-Length", "7"), header("Transfer-Encoding", "chunked")];
    assert_eq!(read_headers(&both, 1), Err(Parse::Framing));
    let bad = vec![header("Content-Length", "7"), header("Content-Length", "x")];
    assert_eq!(read_headers(&bad, 1), Err(Parse::HeaderValue));
    let sign = vec![header("Content-Length", "+7")];
    assert_eq!(read_headers(&sign, 1), Err(Parse::HeaderValue));
    let large = vec![header("Content-Length", "18446744073709551616")];
    assert_eq!(read_headers(&large, 1), Err(Parse::HeaderValue));
    let most = vec![header("Content-Length", "18446744073709551615")];
    assert_eq!(
        read_headers(&most, 1),
        Ok((TransferCoding::Length(u64::MAX), ConnectionType::KeepAlive, false))
    );
}

#[test]
fn connection_tokens_override_in_order() {
    let close = vec![header("Connection", "keep-alive"), header("connection", "x, close ,y")];
    assert_eq!(read_headers(&close, 1), Ok((TransferCoding::Eof, ConnectionType::Close, false)));
    let keep = vec![header("Connection", "close, Keep-Alive")];
    assert_eq!(read_headers(&keep, 0), Ok((TransferCoding::Eof, ConnectionType::KeepAlive, false)));
    let expect = vec![header("Expect", "100-continue"), header("Expect", "other")];
    assert_eq!(read_headers(&expect, 1), Ok((TransferCoding::Eof, ConnectionType::KeepAlive, true)));
    let other = vec![header("Expect", "other")];
    assert_eq!(read_headers(&other, 1), Ok((TransferCoding::Eof, ConnectionType::KeepAlive, false)));
}

#[test]
fn encode_head_sized() {
    let ctx = Context::<64>::new();
    let mut out = WriteBuf::<4096>::new(false);
    let parts = Parts { status: 200, version: Version::Http11, headers: vec![header("x-a", "b")] };
    let mut coding = ctx.encode_head(parts, BodySize::Sized(2), DATE, &mut out);
    assert_eq!(coding, TransferCoding::Length(2));
    coding.encode(Bytes::from_static(b"hi"), &mut out);
    assert_eq!(coding, TransferCoding::Length(0));
    coding.encode_eof(&mut out);
    assert_eq!(coding, TransferCoding::Eof);
    assert_eq!(
        out.to_vec(),
        b"HTTP/1.1 200 OK\r\nx-a: b\r\nDate: Thu, 01 Jan 1970 00:00:00 GMT\r\nContent-Length: 2\r\n\r\nhi".to_vec()
    );
}

#[test]
fn encode_head_framing_follows_the_size() {
    let ctx = Context::<64>::new();
    let given = || Parts {
        status: 204,
        version: Version::Http10,
        headers: vec![
            header("Content-Length", "99"),
            header("date", "now"),
            header("Transfer-Encoding", "chunked"),
            header("Connection", "keep-alive"),
        ],
    };
    let mut out = WriteBuf::<4096>::new(true);
    assert_eq!(ctx.encode_head(given(), BodySize::NoBody, DATE, &mut out), TransferCoding::Eof);
    assert_eq!(
        out.to_vec(),
        b"HTTP/1.0 204 No Content\r\ndate: now\r\nConnection: keep-alive\r\n\r\n".to_vec()
    );
    let mut out = WriteBuf::<4096>::new(true);
    assert_eq!(ctx.encode_head(given(), BodySize::Sized(0), DATE, &mut out), TransferCoding::Eof);
    assert_eq!(
        out.to_vec(),
        b"HTTP/1.0 204 No Content\r\ndate: now\r\nConnection: keep-alive\r\nContent-Length: 0\r\n\r\n".to_vec()
    );
    let mut out = WriteBuf::<4096>::new(true);
    assert_eq!(
        ctx.encode_head(given(), BodySize::Stream, DATE, &mut out),
        TransferCoding::Chunked(ChunkedState::Size, 0)
    );
    assert_eq!(
        out.to_vec(),
        b"HTTP/1.0 204 No Content\r\ndate: now\r\nConnection: keep-alive\r\nTransfer-Encoding: chunked\r\n\r\n".to_vec()
    );
}

#[test]
fn encode_head_says_close_on_a_closing_connection() {
    let mut ctx = Context::<64>::new();
    ctx.set_ctype(ConnectionType::Close);
    let mut out = WriteBuf::<4096>::new(false);
    let parts = Parts { status: 799, version: Version::Http11, headers: Vec::new() };
    ctx.encode_head(parts, BodySize::Sized(18446744073709551615), b"d", &mut out);
    assert_eq!(
        out.to_vec(),
        b"HTTP/1.1 799 \r\nConnection: close\r\nDate: d\r\nContent-Length: 18446744073709551615\r\n\r\n".to_vec()
    );
}

#[test]
fn encode_continue_writes_the_interim_response() {
    let ctx = Context::<64>::new();
    let mut out = WriteBuf::<4096>::new(false);
    out.extend_from_slice(b"x");
    ctx.encode_continue(&mut out);
    assert_eq!(out.to_vec(), b"xHTTP/1.1 100 Continue\r\n\r\n".to_vec());
}

#[test]
fn canned_responses() {
    let res = header_too_large();
    assert_eq!(res.parts.status, 431);
    assert!(res.parts.headers.is_empty());
    assert!(res.body.is_empty());
    let (parts, body) = bad_request().into_parts();
    assert_eq!(parts.status, 400);
    assert_eq!(parts.version, Version::Http11);
    assert!(body.is_empty());
    assert_eq!(reason(431), "Request Header Fields Too Large");
    assert_eq!(reason(400), "Bad Request");
    assert_eq!(reason(200), "OK");
    assert_eq!(reason(299), "");
}

#[test]
fn encode_length_takes_no_more_than_declared() {
    let mut out = WriteBuf::<64>::new(false);
    let mut coding = TransferCoding::length(4);
    coding.encode(Bytes::from_static(b"ab"), &mut out);
    assert_eq!(coding, TransferCoding::Length(2));
    coding.encode(Bytes::from_static(b"cdef"), &mut out);
    assert_eq!(coding, TransferCoding::Length(0));
    coding.encode(Bytes::from_static(b"gh"), &mut out);
    assert_eq!(out.to_vec(), b"abcd".to_vec());
}

#[test]
fn encode_chunked_frames_each_chunk() {
    for vectored in [false, true] {
        let mut out = WriteBuf::<64>::new(vectored);
        let mut coding = TransferCoding::chunked();
        coding.encode(Bytes::from_static(b"hello"), &mut out);
        coding.encode(Bytes::new(), &mut out);
        coding.encode(Bytes::from(vec![b'x'; 26]), &mut out);
        assert!(!coding.is_eof());
        coding.encode_eof(&mut out);
        assert!(coding.is_eof());
        let mut expected = b"5\r\nhello\r\n1A\r\n".to_vec();
        expected.extend_from_slice(&[b'x'; 26]);
        expected.extend_from_slice(b"\r\n0\r\n\r\n");
        assert_eq!(out.to_vec(), expected);
    }
}

#[test]
fn encode_upgrade_and_eof() {
    let mut out = WriteBuf::<64>::new(false);
    let mut coding = TransferCoding::upgrade();
    assert!(coding.is_upgrade());
    coding.encode(Bytes::from_static(b"raw"), &mut out);
    coding.encode_eof(&mut out);
    assert_eq!(coding, TransferCoding::Upgrade);
    let mut coding = TransferCoding::eof();
    coding.encode(Bytes::from_static(b"dropped"), &mut out);
    assert_eq!(out.to_vec(), b"raw".to_vec());
}

#[test]
fn encode_eof_twice_is_a_no_op() {
    let mut out = WriteBuf::<64>::new(false);
    let mut coding = TransferCoding::chunked();
    coding.encode_eof(&mut out);
    coding.encode_eof(&mut out);
    assert_eq!(coding, TransferCoding::Eof);
    assert_eq!(out.to_vec(), b"0\r\n\r\n".to_vec());
}

#[test]
fn decode_on_empty_buffer_returns_none() {
    let mut buf = ReadBuf::<4096>::new();
    for start in [
        TransferCoding::eof(),
        TransferCoding::length(3),
        TransferCoding::chunked(),
        TransferCoding::upgrade(),
        TransferCoding::Chunked(ChunkedState::Body, 4),
    ] {
        let mut coding = start;
        assert!(coding.decode(&mut buf).unwrap().is_none());
        assert_eq!(coding, start);
    }
    let mut done = TransferCoding::length(0);
    assert!(done.decode(&mut buf).unwrap().unwrap().is_empty());
    assert_eq!(done, TransferCoding::Eof);
    assert!(done.decode(&mut buf).unwrap().is_none());
}

#[test]
fn decode_length() {
    let mut buf = read_buf(b"hello world");
    let mut coding = TransferCoding::length(7);
    assert_eq!(decode_all(&mut coding, &mut buf), vec![b"hello w".to_vec(), Vec::new()]);
    assert_eq!(coding, TransferCoding::Eof);
    assert_eq!(buf.as_slice(), b"orld");
    let mut buf = read_buf(b"he");
    let mut coding = TransferCoding::length(5);
    assert_eq!(decode_all(&mut coding, &mut buf), vec![b"he".to_vec()]);
    assert_eq!(coding, TransferCoding::Length(3));
}

#[test]
fn decode_upgrade_never_ends() {
    let mut buf = read_buf(b"anything");
    let mut coding = TransferCoding::upgrade();
    assert_eq!(decode_all(&mut coding, &mut buf), vec![b"anything".to_vec()]);
    assert_eq!(coding, TransferCoding::Upgrade);
    assert!(buf.is_empty());
}

#[test]
fn decode_chunked() {
    let mut buf = read_buf(b"5\r\nhello\r\n1a;ext=1\r\nabcdefghijklmnopqrstuvwxyz\r\n0\r\nTrailer: x\r\n\r\nnext");
    let mut coding = TransferCoding::chunked();
    assert_eq!(
        decode_all(&mut coding, &mut buf),
        vec![b"hello".to_vec(), b"abcdefghijklmnopqrstuvwxyz".to_vec(), Vec::new()]
    );
    assert_eq!(coding, TransferCoding::Eof);
    assert_eq!(buf.as_slice(), b"next");
}

#[test]
fn decode_chunked_byte_by_byte() {
    let wire = b"3 \r\nabc\r\nA\r\n0123456789\r\n0\r\n\r\n";
    let mut buf = ReadBuf::<4096>::new();
    let mut coding = TransferCoding::chunked();
    let mut body = Vec::new();
    let mut ended = false;
    for b in wire.iter() {
        assert!(!ended);
        assert_eq!(buf.fill(&[*b]), 1);
        while let Some(chunk) = coding.decode(&mut buf).unwrap() {
            if chunk.is_empty() {
                ended = true;
                break;
            }
            body.extend_from_slice(&chunk);
        }
        assert!(buf.is_empty());
    }
    assert!(ended);
    assert_eq!(body, b"abc0123456789".to_vec());
}

#[test]
fn decode_chunked_rejects_malformed_framing() {
    let cases: [(&[u8], ChunkError); 6] = [
        (b"x\r\n", ChunkError::Size),
        (b"\r\n", ChunkError::Size),
        (b"5\n", ChunkError::Size),
        (b"11111111111111111\r\n", ChunkError::Overflow),
        (b"1\r\nab", ChunkError::DataEnd),
        (b"0\r\n\rx", ChunkError::Trailer),
    ];
    for (wire, e) in cases {
        let mut buf = read_buf(wire);
        let mut coding = TransferCoding::chunked();
        let mut got = None;
        loop {
            match coding.decode(&mut buf) {
                Ok(Some(_)) => {}
                Ok(None) => break,
                Err(e) => {
                    got = Some(e);
                    break;
                }
            }
        }
        assert_eq!(got, Some(ProtoError::Chunk(e)));
    }
    let mut buf = read_buf(b"xyz");
    let mut coding = TransferCoding::chunked();
    assert!(coding.decode(&mut buf).is_err());
    assert_eq!(buf.as_slice(), b"xyz");
    assert_eq!(coding, TransferCoding::chunked());
    let mut buf = read_buf(b"ffffffffffffffff\r\n");
    let mut coding = TransferCoding::chunked();
    assert!(coding.decode(&mut buf).unwrap().is_none());
    assert_eq!(coding, TransferCoding::Chunked(ChunkedState::Body, u64::MAX));
}
