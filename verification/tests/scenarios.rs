use bytes::Bytes;
use h1_dispatcher::body::{Received, RequestBody, RequestBodyHandle};
use h1_dispatcher::coding::TransferCoding;
use h1_dispatcher::config::HttpServiceConfig;
use h1_dispatcher::context::ConnectionType;
use h1_dispatcher::dispatcher::{
    conclude, Dispatcher, FeedAction, FeedEvent, Turn, Phase, ReadEvent, RespAction, RespEvent,
};
use h1_dispatcher::error::{Error, IoKind, Parse, ProtoError};
use h1_dispatcher::io::{Progress, ReadOutcome, WriteOutcome};
use h1_dispatcher::message::{BodySize, Parts, Request, Version};

const DATE: &[u8] = b"Thu, 01 Jan 1970 00:00:00 GMT";

type Conn = Dispatcher<8, 256, 64>;
type Failure = Error<(), ()>;

/// An in-memory transport: what the peer sends, and what it gets.
struct Wire {
    input: Vec<u8>,
    pos: usize,
    output: Vec<u8>,
    /// How many bytes one read hands over at most.
    step: usize,
}

impl Wire {
    fn new(input: &[u8]) -> Wire {
        Wire { input: input.to_vec(), pos: 0, output: Vec::new(), step: 7 }
    }
}

/// Reads until the transport would block or the read buffer is full.
fn read(d: &mut Conn, wire: &mut Wire) -> Result<(), IoKind> {
    loop {
        let window = d.io().read_window();
        if window == 0 {
            return Ok(());
        }
        let n = window.min(wire.step).min(wire.input.len() - wire.pos);
        let res = if n == 0 {
            d.try_read(ReadOutcome::WouldBlock)
        } else {
            let res = d.try_read(ReadOutcome::Data(&wire.input[wire.pos..wire.pos + n]));
            wire.pos += n;
            res
        };
        match res? {
            Progress::Again => {}
            Progress::Done => return Ok(()),
        }
    }
}

/// Writes until the write buffer is empty; the transport takes at most
/// five bytes at a time.
fn drain(d: &mut Conn, wire: &mut Wire) -> Result<(), IoKind> {
    while d.io().want_write() {
        let chunk = d.io().write_buf.chunk(0);
        let n = chunk.len().min(5);
        wire.output.extend_from_slice(&chunk[..n]);
        d.try_write(WriteOutcome::Written(n))?;
    }
    Ok(())
}

/// What the service of a test does with a request.
struct Service {
    /// Whether it reads the request body.
    reads_body: bool,
    /// The size it declares for the response body.
    size: fn(usize) -> BodySize,
}

/// What came of one connection.
struct Served {
    result: Result<(), Failure>,
    requests: Vec<(Vec<u8>, Vec<u8>)>,
}

/// Feeds the request body and lets the service read it, to its end.
fn read_body(
    d: &mut Conn,
    wire: &mut Wire,
    handle: &mut Option<RequestBodyHandle>,
    body: &mut RequestBody,
) -> Result<Vec<u8>, Failure> {
    let mut got = Vec::new();
    let mut ev = FeedEvent::Wake;
    loop {
        match body.poll_next() {
            Received::Chunk(b) => {
                got.extend_from_slice(&b);
                continue;
            }
            Received::End => return Ok(got),
            Received::Failed(_) => return Ok(got),
            Received::Pending => {}
        }
        match d.request_body_handler(handle, body, ev)? {
            FeedAction::Park => {
                assert!(handle.is_none());
                ev = FeedEvent::Wake;
                if body.is_eof() {
                    continue;
                }
                return Ok(got);
            }
            FeedAction::WaitForPoll | FeedAction::AwaitReady => ev = FeedEvent::Wake,
            FeedAction::DrainWrite => ev = FeedEvent::Io(drain(d, wire)),
            FeedAction::Read => {
                let before = wire.pos;
                let res = read(d, wire);
                if res.is_ok() && wire.pos == before {
                    // the peer sends no more: the body stays incomplete
                    return Ok(got);
                }
                ev = FeedEvent::Io(res);
            }
        }
    }
}

/// Runs one connection over `wire` until the peer has nothing more to send
/// and the keep-alive deadline passes.
fn serve(wire: &mut Wire, service: &Service) -> (Conn, Served) {
    let mut d = Conn::new(HttpServiceConfig::new().disable_vectored_write(), false, 0);
    let mut requests = Vec::new();
    let result = run(&mut d, wire, service, &mut requests);
    (d, Served { result: conclude(result), requests })
}

fn run(
    d: &mut Conn,
    wire: &mut Wire,
    service: &Service,
    requests: &mut Vec<(Vec<u8>, Vec<u8>)>,
) -> Result<(), Failure> {
    loop {
        match d.turn(0) {
            Turn::Write => {
                drain(d, wire).map_err(Error::from_io)?;
                continue;
            }
            Turn::Shutdown => return Ok(()),
            Turn::Read => {}
        }
        let before = wire.pos;
        let res = read(d, wire);
        if res.is_ok() && wire.pos == before {
            d.on_read::<(), ()>(ReadEvent::Expired)?;
        }
        d.on_read::<(), ()>(ReadEvent::Done(res))?;
        while d.phase() == Phase::Decoding {
            match d.decode_head() {
                None => break,
                Some(Err(ProtoError::Parse(e))) => {
                    d.request_error(e, DATE);
                    break;
                }
                Some(Err(e)) => return Err(Error::Proto(e)),
                Some(Ok((req, handle))) => respond(d, wire, service, req, handle, requests)?,
            }
        }
    }
}

fn respond(
    d: &mut Conn,
    wire: &mut Wire,
    service: &Service,
    req: Request<RequestBody>,
    mut handle: Option<RequestBodyHandle>,
    requests: &mut Vec<(Vec<u8>, Vec<u8>)>,
) -> Result<(), Failure> {
    let mut body = req.body;
    let received = if service.reads_body {
        read_body(d, wire, &mut handle, &mut body)?
    } else {
        Vec::new()
    };
    requests.push((req.uri.clone(), received.clone()));
    let answer: Vec<u8> = if received.is_empty() { b"hi".to_vec() } else { received };
    let size = (service.size)(answer.len());
    let parts = Parts { status: 200, version: Version::Http11, headers: Vec::new() };
    let mut encoder = d.encode_head(parts, size, DATE);
    let mut items: Vec<Option<Result<Bytes, ()>>> =
        answer.chunks(3).map(|c| Some(Ok(Bytes::copy_from_slice(c)))).collect();
    if size == BodySize::NoBody {
        items.clear();
    }
    items.push(None);
    for item in items {
        while !d.try_poll_body() {
            match d.response_body_handler::<(), ()>(&mut handle, &mut body, RespEvent::Wake)? {
                RespAction::Again => {}
                _ => drain(d, wire).map_err(Error::from_io)?,
            }
        }
        if d.response_handler(&mut encoder, &mut handle, &body, item)? {
            return Ok(());
        }
    }
    unreachable!()
}

const ECHO: Service = Service { reads_body: true, size: |n| BodySize::Sized(n as u64) };
const STREAM: Service = Service { reads_body: true, size: |_| BodySize::Stream };
const DEAF: Service = Service { reads_body: false, size: |n| BodySize::Sized(n as u64) };

fn find(haystack: &[u8], needle: &[u8]) -> Option<usize> {
    haystack.windows(needle.len()).position(|w| w == needle)
}

#[test]
fn get_is_answered_with_a_sized_body() {
    let mut wire = Wire::new(b"GET / HTTP/1.1\r\nHost: x\r\n\r\n");
    let (d, served) = serve(&mut wire, &ECHO);
    assert!(served.result.is_ok());
    assert_eq!(served.requests, vec![(b"/".to_vec(), Vec::new())]);
    assert_eq!(
        wire.output,
        b"HTTP/1.1 200 OK\r\nDate: Thu, 01 Jan 1970 00:00:00 GMT\r\nContent-Length: 2\r\n\r\nhi".to_vec()
    );
    assert_eq!(d.ctype(), ConnectionType::KeepAlive);
}

#[test]
fn pipelined_requests_are_answered_in_order() {
    let mut wire =
        Wire::new(b"GET /a HTTP/1.1\r\nHost: x\r\n\r\nGET /b HTTP/1.1\r\nHost: x\r\n\r\n");
    let (_, served) = serve(&mut wire, &ECHO);
    assert!(served.result.is_ok());
    assert_eq!(served.requests.len(), 2);
    assert_eq!(served.requests[0].0, b"/a");
    assert_eq!(served.requests[1].0, b"/b");
    let one = b"HTTP/1.1 200 OK\r\nDate: Thu, 01 Jan 1970 00:00:00 GMT\r\nContent-Length: 2\r\n\r\nhi";
    let mut both = one.to_vec();
    both.extend_from_slice(one);
    assert_eq!(wire.output, both);
}

#[test]
fn expect_continue_is_answered_when_the_body_is_read() {
    let mut wire = Wire::new(
        b"POST / HTTP/1.1\r\nHost: x\r\nExpect: 100-continue\r\nContent-Length: 5\r\n\r\nhello",
    );
    let (_, served) = serve(&mut wire, &ECHO);
    assert!(served.result.is_ok());
    assert_eq!(served.requests, vec![(b"/".to_vec(), b"hello".to_vec())]);
    assert_eq!(
        wire.output,
        b"HTTP/1.1 100 Continue\r\n\r\nHTTP/1.1 200 OK\r\nDate: Thu, 01 Jan 1970 00:00:00 GMT\r\nContent-Length: 5\r\n\r\nhello".to_vec()
    );
}

#[test]
fn expect_continue_is_not_answered_when_the_body_is_not_read() {
    let mut wire = Wire::new(
        b"POST / HTTP/1.1\r\nHost: x\r\nExpect: 100-continue\r\nContent-Length: 5\r\n\r\nhe",
    );
    let (d, served) = serve(&mut wire, &DEAF);
    assert!(served.result.is_ok());
    assert!(find(&wire.output, b"100 Continue").is_none());
    assert!(wire.output.starts_with(b"HTTP/1.1 200 OK\r\n"));
    // a rest of the request body is still to come on the wire
    assert_eq!(d.ctype(), ConnectionType::Close);
    assert!(find(&wire.output, b"Connection: close").is_none());
    assert_eq!(d.phase(), Phase::Closing);
}

#[test]
fn request_body_that_arrived_in_full_keeps_the_connection() {
    let mut wire = Wire::new(b"POST / HTTP/1.1\r\nHost: x\r\nContent-Length: 5\r\n\r\nhello");
    let (d, served) = serve(&mut wire, &DEAF);
    assert!(served.result.is_ok());
    assert_eq!(served.requests, vec![(b"/".to_vec(), Vec::new())]);
    assert_eq!(d.ctype(), ConnectionType::KeepAlive);
}

#[test]
fn head_that_fills_the_read_buffer_is_too_large() {
    let mut input = b"GET / HTTP/1.1\r\nX-Long: ".to_vec();
    while input.len() < 257 {
        input.push(b'a');
    }
    let mut wire = Wire::new(&input);
    let (d, served) = serve(&mut wire, &ECHO);
    assert!(served.result.is_ok());
    assert!(served.requests.is_empty());
    assert_eq!(
        wire.output,
        b"HTTP/1.1 431 Request Header Fields Too Large\r\nConnection: close\r\nDate: Thu, 01 Jan 1970 00:00:00 GMT\r\nContent-Length: 0\r\n\r\n".to_vec()
    );
    assert_eq!(d.phase(), Phase::Closing);
    assert_eq!(d.ctype(), ConnectionType::Close);
    assert!(!d.io().want_write());
    // the read buffer never holds more than its limit
    assert_eq!(wire.pos, 256);
}

#[test]
fn chunked_request_is_answered_with_chunked_framing() {
    let mut wire = Wire::new(
        b"POST / HTTP/1.1\r\nHost: x\r\nTransfer-Encoding: chunked\r\n\r\n5\r\nhello\r\n0\r\n\r\n",
    );
    let (d, served) = serve(&mut wire, &STREAM);
    assert!(served.result.is_ok());
    assert_eq!(served.requests, vec![(b"/".to_vec(), b"hello".to_vec())]);
    assert_eq!(
        wire.output,
        b"HTTP/1.1 200 OK\r\nDate: Thu, 01 Jan 1970 00:00:00 GMT\r\nTransfer-Encoding: chunked\r\n\r\n3\r\nhel\r\n2\r\nlo\r\n0\r\n\r\n".to_vec()
    );
    assert!(wire.output.ends_with(b"0\r\n\r\n"));
    assert_eq!(d.ctype(), ConnectionType::KeepAlive);
}

#[test]
fn idle_connection_ends_quietly_at_the_deadline() {
    let mut wire = Wire::new(b"");
    let (d, served) = serve(&mut wire, &ECHO);
    assert!(served.result.is_ok());
    assert!(wire.output.is_empty());
    assert_eq!(d.phase(), Phase::Closing);
    assert_eq!(d.ctype(), ConnectionType::Init);
}

#[test]
fn malformed_head_is_answered_with_400() {
    let mut wire = Wire::new(b"GET / HTTP/9.9\r\n\r\n");
    let (d, served) = serve(&mut wire, &ECHO);
    assert!(served.result.is_ok());
    assert!(wire.output.starts_with(b"HTTP/1.1 400 Bad Request\r\nConnection: close\r\n"));
    assert_eq!(d.phase(), Phase::Closing);
}

#[test]
fn too_many_headers_are_a_head_too_large() {
    let mut input = b"GET / HTTP/1.1\r\n".to_vec();
    for _ in 0..9 {
        input.extend_from_slice(b"a: b\r\n");
    }
    input.extend_from_slice(b"\r\n");
    let mut d = Conn::new(HttpServiceConfig::new(), false, 0);
    assert_eq!(d.turn(0), Turn::Read);
    let mut wire = Wire::new(&input);
    read(&mut d, &mut wire).unwrap();
    d.on_read::<(), ()>(ReadEvent::Done(Ok(()))).unwrap();
    match d.decode_head() {
        Some(Err(e)) => assert_eq!(e, ProtoError::Parse(Parse::HeaderTooLarge)),
        _ => panic!("the head has nine headers and there are eight slots"),
    }
}

#[test]
fn connection_close_ends_the_connection_after_the_response() {
    let mut wire = Wire::new(
        b"GET /a HTTP/1.1\r\nConnection: close\r\n\r\nGET /b HTTP/1.1\r\nHost: x\r\n\r\n",
    );
    let (d, served) = serve(&mut wire, &ECHO);
    assert!(served.result.is_ok());
    assert_eq!(served.requests.len(), 1);
    assert_eq!(
        wire.output,
        b"HTTP/1.1 200 OK\r\nConnection: close\r\nDate: Thu, 01 Jan 1970 00:00:00 GMT\r\nContent-Length: 2\r\n\r\nhi".to_vec()
    );
    assert_eq!(d.phase(), Phase::Closing);
}

#[test]
fn http10_closes_by_default_and_keeps_alive_on_request() {
    let mut wire = Wire::new(b"GET / HTTP/1.0\r\n\r\n");
    let (d, _) = serve(&mut wire, &ECHO);
    assert_eq!(d.ctype(), ConnectionType::Close);
    let mut wire = Wire::new(b"GET / HTTP/1.0\r\nConnection: Keep-Alive\r\n\r\n");
    let (d, _) = serve(&mut wire, &ECHO);
    assert_eq!(d.ctype(), ConnectionType::KeepAlive);
}

#[test]
fn keep_alive_deadline_follows_the_clock() {
    let mut d = Conn::new(HttpServiceConfig::new().keep_alive_timeout(30), false, 100);
    assert_eq!(d.deadline(), 130);
    d.update_timer(u64::MAX - 3);
    assert_eq!(d.deadline(), u64::MAX);
    d.update_timer(1000);
    assert_eq!(d.deadline(), 1030);
}

#[test]
fn failed_read_ends_the_connection() {
    let mut d = Conn::new(HttpServiceConfig::new(), false, 0);
    assert_eq!(d.turn(0), Turn::Read);
    let r = d.on_read::<(), ()>(ReadEvent::Done(Err(IoKind::Other)));
    assert!(matches!(r, Err(Error::Io(IoKind::Other))));
    assert_eq!(d.phase(), Phase::Closing);
    assert!(matches!(conclude(r), Err(Error::Io(IoKind::Other))));
    let mut d = Conn::new(HttpServiceConfig::new(), false, 0);
    assert_eq!(d.turn(0), Turn::Read);
    let r = d.on_read::<(), ()>(ReadEvent::Done(Err(IoKind::UnexpectedEof)));
    assert!(matches!(r, Err(Error::Closed)));
    assert!(conclude(r).is_ok());
}

#[test]
fn response_body_error_closes_the_connection() {
    let mut wire = Wire::new(b"GET / HTTP/1.1\r\nHost: x\r\n\r\n");
    let mut d = Conn::new(HttpServiceConfig::new(), false, 0);
    assert_eq!(d.turn(0), Turn::Read);
    read(&mut d, &mut wire).unwrap();
    d.on_read::<(), ()>(ReadEvent::Done(Ok(()))).unwrap();
    let (req, mut handle) = d.decode_head().unwrap().unwrap();
    let parts = Parts { status: 200, version: Version::Http11, headers: Vec::new() };
    let mut encoder = d.encode_head(parts, BodySize::Stream, DATE);
    assert_eq!(encoder, TransferCoding::chunked());
    let r = d.response_handler::<(), u8>(&mut encoder, &mut handle, &req.body, Some(Err(7)));
    assert!(matches!(r, Err(Error::Body(7))));
    assert_eq!(d.ctype(), ConnectionType::Close);
    assert_eq!(d.phase(), Phase::Closing);
}

#[test]
fn http10_stream_without_length_closes_the_connection() {
    let mut wire = Wire::new(b"GET / HTTP/1.0\r\nConnection: Keep-Alive\r\n\r\n");
    let (d, served) = serve(&mut wire, &STREAM);
    assert!(served.result.is_ok());
    assert_eq!(d.ctype(), ConnectionType::Close);
    assert_eq!(d.phase(), Phase::Closing);
    assert_eq!(
        wire.output,
        b"HTTP/1.1 200 OK\r\nConnection: close\r\nDate: Thu, 01 Jan 1970 00:00:00 GMT\r\nTransfer-Encoding: chunked\r\n\r\n2\r\nhi\r\n0\r\n\r\n".to_vec()
    );
}

/// Takes one response off the front of `wire`: its status, and its body as
/// its framing delimits it.
fn take_response(wire: &mut Vec<u8>) -> (u16, Vec<u8>) {
    let mut slots = [httparse::EMPTY_HEADER; 8];
    let mut res = httparse::Response::new(&mut slots);
    let len = match res.parse(wire).unwrap() {
        httparse::Status::Complete(len) => len,
        httparse::Status::Partial => panic!("the head of the response is complete"),
    };
    let status = res.code.unwrap();
    assert_eq!(res.version, Some(1));
    assert!(res.headers.iter().any(|h| h.name == "Date" && h.value == DATE));
    let length = res
        .headers
        .iter()
        .find(|h| h.name == "Content-Length")
        .map(|h| std::str::from_utf8(h.value).unwrap().parse::<usize>().unwrap());
    let chunked =
        res.headers.iter().any(|h| h.name == "Transfer-Encoding" && h.value == b"chunked");
    let mut rest = wire.split_off(len);
    let body = match (length, chunked) {
        (Some(n), false) => {
            let tail = rest.split_off(n);
            let body = rest;
            rest = tail;
            body
        }
        (None, true) => {
            let mut body = Vec::new();
            loop {
                let (used, size) = match httparse::parse_chunk_size(&rest).unwrap() {
                    httparse::Status::Complete(found) => found,
                    httparse::Status::Partial => panic!("the chunk size is complete"),
                };
                let size = size as usize;
                body.extend_from_slice(&rest[used..used + size]);
                assert_eq!(&rest[used + size..used + size + 2], b"\r\n");
                rest.drain(..used + size + 2);
                if size == 0 {
                    break;
                }
            }
            body
        }
        _ => panic!("the response is framed by a length or by chunks"),
    };
    *wire = rest;
    (status, body)
}

#[test]
fn requests_of_a_grammar_are_echoed_byte_for_byte() {
    let methods = ["GET", "POST", "PUT", "DELETE"];
    let uris = ["/", "/a/b?c=d", "*"];
    let extras = ["", "Accept: */*\r\n", "X-One: 1\r\nx-two:  2 \r\n"];
    let bodies: [&[u8]; 4] = [b"", b"a", b"hello world", &[7u8; 90]];
    for method in methods {
        for uri in uris {
            for extra in extras {
                for body in bodies {
                    for chunked in [false, true] {
                        for service in [&ECHO, &STREAM] {
                            let mut input =
                                format!("{method} {uri} HTTP/1.1\r\nHost: x\r\n{extra}").into_bytes();
                            if chunked {
                                input.extend_from_slice(b"Transfer-Encoding: chunked\r\n\r\n");
                                for part in body.chunks(4) {
                                    input.extend_from_slice(format!("{:x}\r\n", part.len()).as_bytes());
                                    input.extend_from_slice(part);
                                    input.extend_from_slice(b"\r\n");
                                }
                                input.extend_from_slice(b"0\r\n\r\n");
                            } else {
                                input.extend_from_slice(
                                    format!("Content-Length: {}\r\n\r\n", body.len()).as_bytes(),
                                );
                                input.extend_from_slice(body);
                            }
                            let mut twice = input.clone();
                            twice.extend_from_slice(&input);
                            let mut wire = Wire::new(&twice);
                            let (d, served) = serve(&mut wire, service);
                            assert!(served.result.is_ok());
                            assert_eq!(d.ctype(), ConnectionType::KeepAlive);
                            assert_eq!(served.requests.len(), 2);
                            let expected: &[u8] = if body.is_empty() { b"hi" } else { body };
                            let mut output = wire.output.clone();
                            for request in served.requests.iter() {
                                assert_eq!(request.0, uri.as_bytes());
                                assert_eq!(request.1, body);
                                let (status, echoed) = take_response(&mut output);
                                assert_eq!(status, 200);
                                assert_eq!(echoed, expected);
                            }
                            assert!(output.is_empty());
                        }
                    }
                }
            }
        }
    }
}

#[test]
fn backpressure_engages_and_disengages() {
    // a response far larger than the write buffer's limit of 64 bytes
    let body = vec![b'z'; 5000];
    let mut input = format!("POST / HTTP/1.1\r\nContent-Length: {}\r\n\r\n", body.len()).into_bytes();
    input.extend_from_slice(&body);
    let mut wire = Wire::new(&input);
    wire.step = 100;
    let (d, served) = serve(&mut wire, &STREAM);
    assert!(served.result.is_ok());
    assert_eq!(served.requests[0].1, body);
    let mut output = wire.output.clone();
    let (status, echoed) = take_response(&mut output);
    assert_eq!(status, 200);
    assert_eq!(echoed, body);
    assert!(!d.io().want_write());
}

#[test]
fn malformed_request_body_ends_the_connection() {
    let mut wire = Wire::new(
        b"POST / HTTP/1.1\r\nHost: x\r\nTransfer-Encoding: chunked\r\n\r\n5\r\nhelloXX",
    );
    let (d, served) = serve(&mut wire, &ECHO);
    assert!(matches!(
        served.result,
        Err(Error::Proto(ProtoError::Chunk(h1_dispatcher::error::ChunkError::DataEnd)))
    ));
    assert_eq!(d.phase(), Phase::Closing);
    assert!(wire.output.is_empty());
}
