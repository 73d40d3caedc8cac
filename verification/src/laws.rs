//! What holds of the dispatcher as a whole.

use vstd::prelude::*;
use vstd::string::StringSliceAdditionalSpecFns;
use crate::ascii::{eq_ignore_case, hex_digits};
use crate::body::{RequestBodyHandle, RequestBodyView};
use crate::coding::{decoded, Decoded, TransferCoding};
use crate::context::{connection_type, named, tokens_applied, token_applied, ConnectionType, Field};
use crate::dispatcher::{feed_step, response_step, turned, Conn, FeedEvent, Phase, Turn};
use crate::encode::{continue_bytes, response_coding, response_head};
use crate::message::{BodySize, Version};
use crate::roundtrip::{body_wire, encoded_all};

verus! {

/// A number that fits in 64 bits has at most sixteen hexadecimal digits.
pub proof fn lemma_hex_digits_len(n: nat)
    ensures
        1 <= hex_digits(n).len(),
        n < 0x10 ==> hex_digits(n).len() == 1,
        n <= u64::MAX ==> hex_digits(n).len() <= 16,
{
    reveal_with_fuel(hex_digits, 17);
}

/// Write-buffer bound: a chunk of the response body that is encoded while
/// the write buffer is under its limit leaves the buffer under the limit
/// plus that chunk in its frame, and the frame adds at most twenty bytes to
/// the chunk.
pub proof fn lemma_write_bound<SE, BE>(
    c: Conn,
    encoder: TransferCoding,
    handle: Option<RequestBodyHandle>,
    body_eof: bool,
    bytes: Seq<u8>,
    limit: nat,
)
    requires
        c.unwritten.len() < limit,
        bytes.len() <= u64::MAX,
    ensures
        response_step::<SE, BE>(c, encoder, handle, body_eof, Some(Ok(bytes))).conn.unwritten.len()
            < limit + encoder.encoded(bytes).1.len(),
        encoder.encoded(bytes).1.len() <= bytes.len() + 20,
{
    lemma_hex_digits_len(bytes.len());
}

/// Ordering: of two responses on one connection the earlier lies wholly
/// before the later in the stream of encoded bytes, of which the transport
/// takes a prefix; so once it has taken any byte of the later response, it
/// has taken the earlier one in full.
pub proof fn lemma_ordering(c: Conn, i: int, j: int)
    requires
        c.wf(),
        0 <= i < j < c.spans.len(),
    ensures
        c.spans[i].0 <= c.spans[i].1 <= c.spans[j].0 <= c.spans[j].1 <= c.out.len(),
        c.unwritten == c.out.skip(c.taken as int),
        c.taken > c.spans[j].0 ==> c.taken >= c.spans[i].1,
{
}

/// 100 Continue: a step of feeding the request body encodes the interim
/// response if the request expects it, the service has begun to read the
/// body and the response was not encoded before; otherwise the step
/// encodes nothing. Nothing is decoded until the interim response is
/// written out in full.
pub proof fn lemma_continue<SE, BE>(
    c: Conn,
    handle: Option<RequestBodyHandle>,
    body: RequestBodyView,
    ev: FeedEvent,
)
    requires
        c.wf(),
    ensures
        ({
            let s = feed_step::<SE, BE>(c, handle, body, ev);
            if handle is Some && (c.feed is Start || c.feed is AwaitingPoll) && c.expect
                && body.polled() is Ready {
                s.conn.out == c.out + continue_bytes() && s.conn.feed is Flushing
            } else {
                s.conn.out == c.out && (s.conn.feed is AwaitingPoll ==> c.feed is Start || c.feed
                    is AwaitingPoll)
            }
        }),
        handle is Some && c.feed is Flushing && c.unwritten.len() > 0 && !(ev matches FeedEvent::Io(
            Err(_),
        )) ==> {
            let s = feed_step::<SE, BE>(c, handle, body, ev);
            s.conn == c && s.body == body && s.handle == handle && s.out == Ok::<
                crate::dispatcher::FeedAction,
                crate::error::Error<SE, BE>,
            >(crate::dispatcher::FeedAction::DrainWrite)
        },
{
}

/// Close: a connection that is to be closed neither waits for a request nor
/// decodes one.
pub proof fn lemma_close_policy(c: Conn)
    requires
        c.wf(),
        c.ctype is Close,
    ensures
        !(c.phase is Reading),
        !(c.phase is Decoding),
{
}

/// Keep-alive: after a completed response the connection goes on to decode
/// the next request unless it is to be closed; a connection that is to be
/// closed never reads again.
pub proof fn lemma_keep_alive<SE, BE>(
    c: Conn,
    encoder: TransferCoding,
    handle: Option<RequestBodyHandle>,
    body_eof: bool,
    now: u64,
)
    ensures
        ({
            let s = response_step::<SE, BE>(c, encoder, handle, body_eof, None);
            &&& s.out == Ok::<bool, crate::error::Error<SE, BE>>(true)
            &&& s.conn.phase == if s.conn.ctype is Close {
                Phase::Closing
            } else {
                Phase::Decoding
            }
            &&& handle is None ==> s.conn.ctype == c.ctype
        }),
        c.phase is Closing ==> turned(c, now).0.phase is Closing && turned(c, now).1 != Turn::Read,
        c.phase is Idle && c.ctype is Close ==> turned(c, now).1 != Turn::Read,
        c.phase is Idle && !(c.ctype is Close) && c.unwritten.len() == 0 ==> turned(c, now).1
            == Turn::Read,
{
}

/// Headers without a `Connection` leave the connection type at what the
/// version stands for.
pub proof fn lemma_connection_default(hs: Seq<Field>, c: ConnectionType)
    requires
        forall|j: int| !#[trigger] named(hs, j, "connection"),
    ensures
        connection_type(hs, c) == c,
    decreases hs.len(),
{
    if hs.len() > 0 {
        assert(!named(hs, 0, "connection"));
        assert forall|j: int| !#[trigger] named(hs.drop_first(), j, "connection") by {
            if 0 <= j < hs.drop_first().len() {
                assert(!named(hs, j + 1, "connection"));
                assert(hs.drop_first()[j] == hs[j + 1]);
            }
        }
        lemma_connection_default(hs.drop_first(), c);
    }
}

/// The last element of a `Connection` header that is `close` or
/// `keep-alive` decides: behind it the connection type is what it says,
/// whatever stood before.
pub proof fn lemma_last_token(items: Seq<Seq<u8>>, c: ConnectionType)
    requires
        items.len() > 0,
    ensures
        eq_ignore_case(items.last(), "keep-alive".spec_bytes()) ==> tokens_applied(items, c)
            == ConnectionType::KeepAlive,
        !eq_ignore_case(items.last(), "keep-alive".spec_bytes()) && eq_ignore_case(
            items.last(),
            "close".spec_bytes(),
        ) ==> tokens_applied(items, c) == ConnectionType::Close,
    decreases items.len(),
{
    if items.len() == 1 {
        assert(items.drop_first().len() == 0);
        assert(tokens_applied(items, c) == tokens_applied(
            items.drop_first(),
            token_applied(items[0], c),
        ));
        assert(tokens_applied(items.drop_first(), token_applied(items[0], c)) == token_applied(
            items[0],
            c,
        ));
    } else {
        assert(items.drop_first().last() == items.last());
        lemma_last_token(items.drop_first(), token_applied(items[0], c));
    }
}

/// Idempotence of the end: ending a body that has ended writes nothing and
/// changes nothing, and so does ending any body a second time.
pub proof fn lemma_encode_eof_idempotent(coding: TransferCoding)
    ensures
        TransferCoding::Eof.ended() == (TransferCoding::Eof, Seq::<u8>::empty()),
        coding.ended().0.ended() == (coding.ended().0, Seq::<u8>::empty()),
        coding.ended().0.complete(),
{
}

/// Decoding an empty buffer hands out nothing and changes nothing, unless
/// the body is complete and only its end is still to be handed out.
pub proof fn lemma_decode_empty(coding: TransferCoding)
    requires
        !(coding matches TransferCoding::Length(n) && n == 0),
        !(coding matches TransferCoding::Chunked(state, _) && state is End),
    ensures
        decoded(coding, Seq::empty()) == (Decoded { coding, used: 0, out: Ok(None) }),
{
}

/// The connection `c` after the chunks `cs` of a response body were
/// encoded with `encoder`, one after the other, and then its end.
pub open spec fn body_written<SE, BE>(
    c: Conn,
    encoder: TransferCoding,
    handle: Option<RequestBodyHandle>,
    body_eof: bool,
    cs: Seq<Seq<u8>>,
) -> Conn
    decreases cs.len(),
{
    if cs.len() == 0 {
        response_step::<SE, BE>(c, encoder, handle, body_eof, None).conn
    } else {
        let step = response_step::<SE, BE>(c, encoder, handle, body_eof, Some(Ok(cs[0])));
        body_written::<SE, BE>(step.conn, step.encoder, step.handle, body_eof, cs.drop_first())
    }
}

/// A response on the wire: the bytes that a response adds to the stream of
/// encoded bytes are the frames of its body, chunk by chunk, and its end;
/// they are recorded as the span of the response, which begins where the
/// connection had it begin.
pub proof fn lemma_body_written<SE, BE>(
    c: Conn,
    encoder: TransferCoding,
    handle: Option<RequestBodyHandle>,
    body_eof: bool,
    cs: Seq<Seq<u8>>,
)
    ensures
        ({
            let d = body_written::<SE, BE>(c, encoder, handle, body_eof, cs);
            &&& d.out == c.out + body_wire(encoder, cs)
            &&& d.spans == c.spans.push((c.begun, d.out.len()))
            &&& d.begun == d.out.len()
            &&& d.taken == c.taken
            &&& d.unread == c.unread
        }),
    decreases cs.len(),
{
    if cs.len() == 0 {
        assert(body_wire(encoder, cs) =~= encoder.ended().1);
    } else {
        let step = response_step::<SE, BE>(c, encoder, handle, body_eof, Some(Ok(cs[0])));
        lemma_body_written::<SE, BE>(step.conn, step.encoder, step.handle, body_eof, cs.drop_first());
        let rest = encoded_all(step.encoder, cs.drop_first());
        assert(c.out + encoder.encoded(cs[0]).1 + (rest.1 + rest.0.ended().1) =~= c.out + (
        encoder.encoded(cs[0]).1 + rest.1 + rest.0.ended().1));
    }
}

/// A response on the wire begins with its head: encoding the head of a
/// response and then its body adds the head and the body, as the coding of
/// its size frames it, to the stream of encoded bytes.
pub proof fn lemma_response_written<SE, BE>(
    c: Conn,
    version: Version,
    status: u16,
    headers: Seq<Field>,
    size: BodySize,
    date: Seq<u8>,
    handle: Option<RequestBodyHandle>,
    body_eof: bool,
    cs: Seq<Seq<u8>>,
)
    ensures
        ({
            let head = crate::dispatcher::answered(c, version, status, headers, size, date);
            let d = body_written::<SE, BE>(head, response_coding(size), handle, body_eof, cs);
            d.out == c.out + response_head(version, status, headers, size, date, head.ctype)
                + body_wire(response_coding(size), cs)
        }),
{
    let head = crate::dispatcher::answered(c, version, status, headers, size, date);
    lemma_body_written::<SE, BE>(head, response_coding(size), handle, body_eof, cs);
}

} // verus!
