use bytes::Bytes;
use h1_dispatcher::ascii::{
    bytes_eq, bytes_eq_ignore_case, find_comma, hex_digit, list_has, next_item, parse_dec,
    push_dec, push_hex, to_lower, trim_bounds,
};
use h1_dispatcher::body::{DecodeState, Readiness, Received, RequestBody, RequestBodyHandle};
use h1_dispatcher::buf::{ReadBuf, WriteBuf};
use h1_dispatcher::coding::TransferCoding;
use h1_dispatcher::context::{ConnectionType, Context};
use h1_dispatcher::error::{BodyError, ChunkError, Error, IoKind, ProtoError};
use h1_dispatcher::futures::{never, poll_fn, select2, timeout, Poll, Select2};
use h1_dispatcher::io::{Await, BufferedIo, Interest, Progress, ReadOutcome, WriteOutcome};
use h1_dispatcher::keep_alive::KeepAlive;

#[test]
fn decimal_and_hexadecimal_digits() {
    let mut out = b"n=".to_vec();
    push_dec(&mut out, 0);
    push_dec(&mut out, 1234567890);
    push_dec(&mut out, u64::MAX);
    assert_eq!(out, b"n=0123456789018446744073709551615".to_vec());
    let mut out = Vec::new();
    push_hex(&mut out, 0);
    push_hex(&mut out, 0x1A2B);
    push_hex(&mut out, u64::MAX);
    assert_eq!(out, b"01A2BFFFFFFFFFFFFFFFF".to_vec());
    assert_eq!(hex_digit(b'7'), Some(7));
    assert_eq!(hex_digit(b'a'), Some(10));
    assert_eq!(hex_digit(b'F'), Some(15));
    assert_eq!(hex_digit(b'g'), None);
    assert_eq!(parse_dec(b"0042"), Some(42));
    assert_eq!(parse_dec(b""), None);
    assert_eq!(parse_dec(b"4 2"), None);
    assert_eq!(parse_dec(b"18446744073709551615"), Some(u64::MAX));
    assert_eq!(parse_dec(b"18446744073709551616"), None);
    assert_eq!(parse_dec(b"99999999999999999999999"), None);
}

#[test]
fn case_and_whitespace() {
    assert_eq!(to_lower(b'A'), b'a');
    assert_eq!(to_lower(b'Z'), b'z');
    assert_eq!(to_lower(b'['), b'[');
    assert!(bytes_eq_ignore_case(b"Keep-Alive", b"keep-alive"));
    assert!(!bytes_eq_ignore_case(b"Keep-Alive", b"keep_alive"));
    assert!(!bytes_eq_ignore_case(b"close", b"closed"));
    assert!(bytes_eq(b"abc", b"abc"));
    assert!(!bytes_eq(b"abc", b"abC"));
    assert_eq!(trim_bounds(b" \t a b\t "), (3, 6));
    assert_eq!(trim_bounds(b"   "), (3, 3));
    assert_eq!(trim_bounds(b""), (0, 0));
    assert_eq!(find_comma(b"a,b,c", 2), 3);
    assert_eq!(find_comma(b"a,b,c", 4), 5);
    assert_eq!(next_item(b"a , bc ,d", 3), (&b"bc"[..], 7));
    assert_eq!(next_item(b"a , bc ,d", 8), (&b"d"[..], 9));
    assert!(list_has(b"gzip , Chunked", b"chunked"));
    assert!(list_has(b"chunked", b"chunked"));
    assert!(!list_has(b"gzip, chunkedx", b"chunked"));
    assert!(list_has(b",", b""));
}

#[test]
fn read_buf_never_exceeds_its_limit() {
    let mut buf = ReadBuf::<8>::new();
    assert!(buf.is_empty());
    assert_eq!(buf.spare(), 8);
    assert_eq!(buf.fill(b"hello"), 5);
    assert!(!buf.backpressure());
    assert_eq!(buf.fill(b"world"), 3);
    assert!(buf.backpressure());
    assert_eq!(buf.len(), 8);
    assert_eq!(buf.as_slice(), b"hellowor");
    assert_eq!(buf.fill(b"x"), 0);
    assert_eq!(&buf.split_to(5)[..], b"hello");
    buf.advance(1);
    assert_eq!(buf.as_slice(), b"or");
    assert_eq!(buf.spare(), 6);
}

#[test]
fn write_buf_is_first_in_first_out() {
    for vectored in [false, true] {
        let mut buf = WriteBuf::<10>::new(vectored);
        assert_eq!(buf.is_vectored(), vectored);
        assert!(!buf.want_write());
        assert_eq!(buf.chunk_count(), 0);
        buf.extend_from_slice(b"head");
        buf.extend_from_slice(b"");
        buf.push(Bytes::from_static(b"body!"));
        buf.push(Bytes::new());
        assert!(buf.want_write());
        assert!(!buf.backpressure());
        assert!(buf.holds(9));
        assert!(!buf.holds(10));
        buf.push(Bytes::from_static(b"z"));
        assert!(buf.backpressure());
        assert_eq!(buf.to_vec(), b"headbody!z".to_vec());
        if vectored {
            assert_eq!(buf.chunk_count(), 3);
            assert_eq!(buf.chunk(0), b"head");
            assert_eq!(buf.chunk(1), b"body!");
            assert_eq!(buf.chunk(2), b"z");
        } else {
            assert_eq!(buf.chunk_count(), 1);
            assert_eq!(buf.chunk(0), b"headbody!z");
        }
        buf.advance(6);
        assert_eq!(buf.to_vec(), b"dy!z".to_vec());
        assert_eq!(buf.chunk(0), if vectored { &b"dy!"[..] } else { &b"dy!z"[..] });
        buf.advance(0);
        buf.advance(4);
        assert!(!buf.want_write());
        assert_eq!(buf.chunk_count(), 0);
    }
}

#[test]
fn try_read_steps() {
    let mut io = BufferedIo::<6, 6>::new(false);
    assert_eq!(io.read_window(), 6);
    assert_eq!(io.try_read(ReadOutcome::Data(b"abc")), Ok(Progress::Again));
    assert_eq!(io.try_read(ReadOutcome::WouldBlock), Ok(Progress::Done));
    assert_eq!(io.try_read(ReadOutcome::Data(b"")), Err(IoKind::UnexpectedEof));
    assert_eq!(io.try_read(ReadOutcome::Failed(IoKind::Other)), Err(IoKind::Other));
    assert_eq!(io.try_read(ReadOutcome::Data(b"defg")), Err(IoKind::Overrun));
    assert_eq!(io.read_buf.as_slice(), b"abc");
    assert_eq!(io.try_read(ReadOutcome::Data(b"def")), Ok(Progress::Done));
    assert_eq!(io.read_window(), 0);
    assert_eq!(io.read_buf.as_slice(), b"abcdef");
}

#[test]
fn try_write_steps() {
    let mut io = BufferedIo::<6, 6>::new(true);
    assert!(!io.want_write());
    io.write_buf.extend_from_slice(b"abcdef");
    assert!(io.want_write());
    assert_eq!(io.try_write(WriteOutcome::Written(0)), Err(IoKind::WriteZero));
    assert_eq!(io.try_write(WriteOutcome::Written(7)), Err(IoKind::Overrun));
    assert_eq!(io.try_write(WriteOutcome::WouldBlock), Ok(Progress::Done));
    assert_eq!(io.try_write(WriteOutcome::Failed(IoKind::Other)), Err(IoKind::Other));
    assert_eq!(io.write_buf.to_vec(), b"abcdef".to_vec());
    assert_eq!(io.try_write(WriteOutcome::Written(4)), Ok(Progress::Again));
    assert_eq!(io.write_buf.to_vec(), b"ef".to_vec());
    assert_eq!(io.try_write(WriteOutcome::Written(2)), Ok(Progress::Done));
    assert!(!io.want_write());
}

#[test]
fn ready_waits_for_the_service_first() {
    let mut io = BufferedIo::<6, 6>::new(false);
    let mut ctx = Context::<4>::new();
    ctx.set_ctype(ConnectionType::KeepAlive);
    let (handle, mut body) = RequestBodyHandle::new_pair(TransferCoding::length(3));
    let handle = handle.unwrap();
    let both = Interest { readable: true, writable: true };
    let read = Interest { readable: true, writable: false };
    assert_eq!(io.ready(&handle, &body, &mut ctx), Ok(Await::Io(read)));
    io.write_buf.extend_from_slice(b"x");
    assert_eq!(io.ready(&handle, &body, &mut ctx), Ok(Await::Io(both)));
    body.feed_data(Bytes::from_static(b"a"));
    assert_eq!(io.ready(&handle, &body, &mut ctx), Ok(Await::BodyOrWritable));
    io.write_buf.advance(1);
    assert_eq!(io.ready(&handle, &body, &mut ctx), Ok(Await::Body));
    assert_eq!(ctx.ctype(), ConnectionType::KeepAlive);
    body.close();
    assert_eq!(io.ready(&handle, &body, &mut ctx), Err(IoKind::BodyDropped));
    assert_eq!(ctx.ctype(), ConnectionType::Close);
}

#[test]
fn body_channel_hands_over_in_order() {
    let (handle, mut body) = RequestBodyHandle::new_pair(TransferCoding::eof());
    assert!(handle.is_none());
    assert!(body.is_eof());
    assert!(matches!(body.poll_next(), Received::End));
    let mut body = RequestBody::create(false);
    assert_eq!(body.poll_ready(), Readiness::Ready);
    assert_eq!(body.poll_wait_for_poll(), Readiness::Pending);
    assert!(matches!(body.poll_next(), Received::Pending));
    assert_eq!(body.poll_wait_for_poll(), Readiness::Ready);
    body.feed_data(Bytes::from_static(b"one"));
    body.feed_data(Bytes::from_static(b"two"));
    assert_eq!(body.poll_ready(), Readiness::Pending);
    assert_eq!(body.poll_wait_for_poll(), Readiness::Ready);
    match body.poll_next() {
        Received::Chunk(b) => assert_eq!(&b[..], b"one"),
        _ => panic!("a chunk was fed"),
    }
    body.feed_error(BodyError::Io(IoKind::Other));
    match body.poll_next() {
        Received::Chunk(b) => assert_eq!(&b[..], b"two"),
        _ => panic!("a second chunk was fed"),
    }
    assert_eq!(body.poll_ready(), Readiness::Ready);
    assert!(matches!(body.poll_next(), Received::Failed(BodyError::Io(IoKind::Other))));
    assert!(matches!(body.poll_next(), Received::End));
    assert!(!body.is_eof());
}

#[test]
fn dropped_receiver_closes_the_channel() {
    let mut body = RequestBody::create(false);
    body.feed_data(Bytes::from_static(b"one"));
    body.close();
    assert_eq!(body.poll_ready(), Readiness::Closed);
    assert_eq!(body.poll_wait_for_poll(), Readiness::Closed);
    body.feed_data(Bytes::from_static(b"two"));
    body.feed_eof();
    assert!(body.is_eof());
    assert!(matches!(body.poll_next(), Received::End));
}

#[test]
fn handle_decodes_into_the_channel() {
    let (handle, mut body) = RequestBodyHandle::new_pair(TransferCoding::chunked());
    let mut handle = handle.unwrap();
    let mut buf = ReadBuf::<64>::new();
    buf.fill(b"2\r\nab\r\n3\r\ncd");
    assert_eq!(handle.decode(&mut buf, &mut body), Ok(DecodeState::Continue));
    assert!(buf.is_empty());
    buf.fill(b"e\r\n0\r\n\r\nGET");
    assert_eq!(handle.decode(&mut buf, &mut body), Ok(DecodeState::Eof));
    assert_eq!(buf.as_slice(), b"GET");
    assert!(body.is_eof());
    let mut got = Vec::new();
    loop {
        match body.poll_next() {
            Received::Chunk(b) => got.push(b.to_vec()),
            Received::End => break,
            _ => panic!("the body is complete"),
        }
    }
    assert_eq!(got, vec![b"ab".to_vec(), b"cd".to_vec(), b"e".to_vec()]);
    let (handle, mut body) = RequestBodyHandle::new_pair(TransferCoding::chunked());
    let mut handle = handle.unwrap();
    buf.advance(3);
    buf.fill(b"1\r\nab");
    assert_eq!(
        handle.decode(&mut buf, &mut body),
        Err(ProtoError::Chunk(ChunkError::DataEnd))
    );
    assert!(matches!(body.poll_next(), Received::Chunk(_)));
    assert_eq!(handle.wait_for_poll(&body), Readiness::Ready);
}

#[test]
fn keep_alive_timer() {
    let mut timer = KeepAlive::new(10);
    assert!(!timer.is_expired(9));
    assert!(timer.is_expired(10));
    timer.update(20);
    timer.update(20);
    assert!(!timer.is_expired(19));
    assert!(timer.is_expired(21));
    assert_eq!(KeepAlive::after(5, 7), 12);
    assert_eq!(KeepAlive::after(u64::MAX, 1), u64::MAX);
}

#[test]
fn select_prefers_the_first() {
    let polled = std::cell::Cell::new(false);
    let second = || {
        polled.set(true);
        Poll::Ready(2u8)
    };
    assert!(matches!(select2(Poll::Ready(1u8), second), Poll::Ready(Select2::A(1))));
    assert!(!polled.get());
    assert!(matches!(select2(Poll::<u8>::Pending, second), Poll::Ready(Select2::B(2))));
    assert!(polled.get());
    assert!(matches!(select2(Poll::<u8>::Pending, || never::<u8>()), Poll::Pending));
    assert!(matches!(timeout(Poll::Ready(1u8), || Poll::Ready(())), Poll::Ready(Ok(1))));
    assert!(matches!(timeout(Poll::<u8>::Pending, || Poll::Ready(())), Poll::Ready(Err(()))));
    assert!(matches!(timeout(Poll::<u8>::Pending, || Poll::Pending), Poll::Pending));
    assert!(matches!(poll_fn(|| Poll::Ready(3u8)), Poll::Ready(3)));
}

#[test]
fn end_of_stream_is_a_closed_connection() {
    assert!(matches!(Error::<(), ()>::from_io(IoKind::UnexpectedEof), Error::Closed));
    assert!(matches!(Error::<(), ()>::from_io(IoKind::WriteZero), Error::Closed));
    assert!(matches!(Error::<(), ()>::from_io(IoKind::BodyDropped), Error::Io(IoKind::BodyDropped)));
    assert!(matches!(Error::<(), ()>::from_io(IoKind::Other), Error::Io(IoKind::Other)));
}
