//! The state machine of one HTTP/1.x connection.
//!
//! The dispatcher owns the buffers, the context and the keep-alive deadline
//! of a connection. Its caller owns the transport, the clock and the
//! service: it waits and performs I/O as the dispatcher asks, and hands each
//! outcome back.

use vstd::prelude::*;
use bytes::Bytes;
use crate::body::{
    fed, lemma_fed_flags, DecodeState, Readiness, RequestBody, RequestBodyHandle, RequestBodyView,
};
use crate::bytes_spec::shared_bytes;
use crate::coding::TransferCoding;
use crate::config::HttpServiceConfig;
use crate::context::{
    head_decoded, version_of, ConnectionType, Context,
};
use crate::encode::{continue_bytes, response_coding, response_head};
use crate::error::{io_error, BodyError, Error, IoKind, Parse, ProtoError};
use crate::io::{
    awaited, read_step, write_step, Await, BufferedIo, Interest, Progress, ReadOutcome, Ready,
    WriteOutcome,
};
use crate::keep_alive::{instant_after, KeepAlive};
use crate::message::{header_views, BodySize, Parts, Request, Version};
use crate::parse::parsed_request;

verus! {

/// Where a connection stands.
#[derive(Clone, Copy, Debug, PartialEq, Eq, Structural)]
pub enum Phase {
    /// Between requests: what is left to write is written, then the
    /// connection type decides whether more is read.
    Idle,
    /// Waiting for bytes of the next request, against the keep-alive
    /// deadline.
    Reading,
    /// Bytes have come: a request head is decoded from the read buffer.
    Decoding,
    /// A request was decoded and the service is at work on it.
    Serving,
    /// The service has answered and the response is written out.
    Responding,
    /// No more requests are served: what is left to write is written, then
    /// the transport is shut down.
    Closing,
}

/// Where the feeding of a request body to the service stands while the
/// service is at work.
#[derive(Clone, Copy, Debug, PartialEq, Eq, Structural)]
pub enum Feed {
    /// Nothing was done yet.
    Start,
    /// The request expects `100 Continue`, which waits for the service to
    /// begin reading the body.
    AwaitingPoll,
    /// `100 Continue` was encoded and is written out.
    Flushing,
    /// Waiting for the service to take what was fed.
    AwaitingReady,
    /// Waiting for more bytes of the body from the transport.
    Reading,
    /// Nothing more is fed: there is no body, it is complete, or the
    /// service has dropped it.
    Parked,
}

/// The connection as mathematical values.
pub struct Conn {
    pub phase: Phase,
    pub feed: Feed,
    /// Whether the connection serves another request.
    pub ctype: ConnectionType,
    /// Whether the current request bears `Expect: 100-continue`.
    pub expect: bool,
    /// The version of the current request.
    pub version: Version,
    /// The bytes read and not yet decoded.
    pub unread: Seq<u8>,
    /// The bytes encoded and not yet written.
    pub unwritten: Seq<u8>,
    /// Whether the write buffer keeps a queue of chunks.
    pub vectored: bool,
    /// The instant at which the keep-alive timer expires.
    pub deadline: u64,
    /// The keep-alive timeout.
    pub ka_dur: u64,
    /// Every byte that was ever encoded, in order.
    pub out: Seq<u8>,
    /// How many of those bytes the transport has taken.
    pub taken: nat,
    /// Where in `out` each completed response begins and ends.
    pub spans: Seq<(nat, nat)>,
    /// Where in `out` the current response begins.
    pub begun: nat,
}

/// Whether the spans lie one behind the other and end at or before `end`.
pub open spec fn in_order(spans: Seq<(nat, nat)>, end: nat) -> bool {
    &&& forall|i: int| 0 <= i < spans.len() ==> (#[trigger] spans[i]).0 <= spans[i].1 <= end
    &&& forall|i: int, j: int|
        0 <= i < j < spans.len() ==> (#[trigger] spans[i]).1 <= (#[trigger] spans[j]).0
}

impl Conn {
    /// What holds of every connection: the bytes to write are those that
    /// were encoded and not yet taken, the responses lie in `out` one behind
    /// the other, `100 Continue` is only waited for where the request
    /// expects it, and no request is read or decoded on a connection that
    /// is to be closed.
    pub open spec fn wf(self) -> bool {
        &&& self.taken <= self.out.len()
        &&& self.unwritten == self.out.skip(self.taken as int)
        &&& self.begun <= self.out.len()
        &&& in_order(self.spans, self.begun)
        &&& self.feed is AwaitingPoll || self.feed is Flushing ==> self.expect
        &&& self.phase is Reading || self.phase is Decoding ==> !(self.ctype is Close)
    }

    /// The connection after `bytes` were encoded.
    pub open spec fn wrote(self, bytes: Seq<u8>) -> Conn {
        Conn { unwritten: self.unwritten + bytes, out: self.out + bytes, ..self }
    }

    /// The connection after its current response was completed.
    pub open spec fn completed(self) -> Conn {
        Conn { spans: self.spans.push((self.begun, self.out.len())), begun: self.out.len(), ..self }
    }
}

/// Encoding keeps a connection well-formed.
pub proof fn lemma_wrote(c: Conn, bytes: Seq<u8>)
    requires
        c.wf(),
    ensures
        c.wrote(bytes).wf(),
{
    assert((c.out + bytes).skip(c.taken as int) =~= c.out.skip(c.taken as int) + bytes);
}

/// Completing a response keeps a connection well-formed.
pub proof fn lemma_completed(c: Conn)
    requires
        c.wf(),
    ensures
        c.completed().wf(),
{
    let d = c.completed();
    assert forall|i: int| 0 <= i < d.spans.len() implies (#[trigger] d.spans[i]).0 <= d.spans[i].1
        <= d.begun by {
        if i < c.spans.len() {
            assert(d.spans[i] == c.spans[i]);
        }
    }
    assert forall|i: int, j: int| 0 <= i < j < d.spans.len() implies (#[trigger] d.spans[i]).1 <= (
    #[trigger] d.spans[j]).0 by {
        assert(d.spans[i] == c.spans[i]);
        if j < c.spans.len() {
            assert(d.spans[j] == c.spans[j]);
        }
    }
    assert(in_order(d.spans, d.begun));
}

/// What the caller is to do between requests.
#[derive(Clone, Copy, Debug, PartialEq, Eq, Structural)]
pub enum Turn {
    /// Wait until the transport is writable, write, and ask again.
    Write,
    /// Wait for bytes of the next request, against the keep-alive deadline.
    Read,
    /// Shut the transport down: the connection has ended.
    Shutdown,
}

/// The connection `c` at the turn between two requests, at the instant `now`.
///
/// First what is left to write is written. Then a connection that is to be
/// closed is shut down. Otherwise the next request is read; a connection
/// that is kept alive gets a new deadline for it.
pub open spec fn turned(c: Conn, now: u64) -> (Conn, Turn) {
    if c.unwritten.len() > 0 {
        (c, Turn::Write)
    } else if c.phase is Closing || c.ctype is Close {
        (Conn { phase: Phase::Closing, ..c }, Turn::Shutdown)
    } else {
        (
            Conn {
                phase: Phase::Reading,
                deadline: if c.ctype is KeepAlive {
                    instant_after(now, c.ka_dur)
                } else {
                    c.deadline
                },
                ..c
            },
            Turn::Read,
        )
    }
}

/// How the wait for the bytes of the next request ended.
#[derive(Clone, Copy, Debug)]
pub enum ReadEvent {
    /// The read ended, with bytes in the read buffer or with an error.
    Done(Result<(), IoKind>),
    /// The keep-alive deadline passed first.
    Expired,
}

/// The connection `c` after the wait for the next request ended with `ev`.
///
/// Bytes lead to decoding. A failed read ends the connection. So does the
/// deadline; where it passes in the middle of a request, the connection
/// type becomes `Close`.
pub open spec fn read_ended<SE, BE>(c: Conn, ev: ReadEvent) -> (Conn, Result<(), Error<SE, BE>>) {
    match ev {
        ReadEvent::Done(Ok(())) => (Conn { phase: Phase::Decoding, ..c }, Ok(())),
        ReadEvent::Done(Err(e)) => (Conn { phase: Phase::Closing, ..c }, Err(io_error(e))),
        ReadEvent::Expired => (
            Conn {
                phase: Phase::Closing,
                ctype: if c.unread.len() > 0 {
                    ConnectionType::Close
                } else {
                    c.ctype
                },
                ..c
            },
            Err(Error::KeepAliveExpire),
        ),
    }
}

/// What `decode_head` owes for the outcome `d` of decoding, on a connection
/// that was `pre` and is `post`.
///
/// A head begins a response and leads to serving: the context is set from
/// the headers, the head leaves the read buffer, and the body gets a handle
/// unless there is none. An incomplete head leads back to the turn between
/// requests. A rejected head changes nothing.
pub open spec fn head_taken(
    d: Result<Option<crate::context::HeadFacts>, ProtoError>,
    r: Option<Result<(Request<RequestBody>, Option<RequestBodyHandle>), ProtoError>>,
    pre: Conn,
    post: Conn,
) -> bool {
    match d {
        Err(e) => r == Some(
            Err::<(Request<RequestBody>, Option<RequestBodyHandle>), ProtoError>(e),
        ) && post == pre,
        Ok(None) => r is None && post == (Conn { phase: Phase::Idle, ..pre }),
        Ok(Some(f)) => {
            &&& r matches Some(Ok((req, handle)))
            &&& req.method@ == f.head.method
            &&& req.uri@ == f.head.path
            &&& req.version == version_of(f.head.minor)
            &&& header_views(req.headers@) == f.head.headers
            &&& req.body@ == (RequestBodyView {
                chunks: Seq::empty(),
                eof: f.coding is Eof,
                error: None,
                failed: false,
                closed: false,
                polled: false,
            })
            &&& handle == if f.coding is Eof {
                None
            } else {
                Some(RequestBodyHandle { decoder: f.coding })
            }
            &&& post == (Conn {
                phase: Phase::Serving,
                feed: Feed::Start,
                ctype: f.ctype,
                expect: f.expect,
                version: version_of(f.head.minor),
                unread: pre.unread.skip(f.head.len as int),
                begun: pre.out.len(),
                ..pre
            })
        },
    }
}

/// The status of the response to a request that was rejected for `e`.
pub open spec fn rejection_status(e: Parse) -> u16 {
    if e is HeaderTooLarge {
        431
    } else {
        400
    }
}

/// The connection `c` after the request was rejected for `e`: it is to be
/// closed, and the canned response is its last.
pub open spec fn rejected(c: Conn, e: Parse, date: Seq<u8>) -> Conn {
    let closed = Conn { ctype: ConnectionType::Close, begun: c.out.len(), ..c };
    Conn {
        phase: Phase::Closing,
        ..closed.wrote(
            response_head(
                Version::Http11,
                rejection_status(e),
                Seq::empty(),
                BodySize::Sized(0),
                date,
                ConnectionType::Close,
            ),
        ).completed()
    }
}

/// What happened while the request body is fed.
#[derive(Clone, Copy, Debug)]
pub enum FeedEvent {
    /// Something may have changed: the service has touched the body, or
    /// nothing has happened yet.
    Wake,
    /// The write or read that was asked for has ended.
    Io(Result<(), IoKind>),
}

/// What the caller is to do next for the request body.
#[derive(Clone, Copy, Debug, PartialEq, Eq, Structural)]
pub enum FeedAction {
    /// Nothing, ever: only the service's answer is waited for.
    Park,
    /// Wait until the service begins to read the body, or drops it.
    WaitForPoll,
    /// Write until the write buffer is empty.
    DrainWrite,
    /// Wait until the service has taken what was fed, or drops the body.
    AwaitReady,
    /// Wait until the transport is readable, and read.
    Read,
}

/// A step of feeding: the connection, the handle and the channel after it,
/// and what to do next.
pub struct FeedStep<SE, BE> {
    pub conn: Conn,
    pub handle: Option<RequestBodyHandle>,
    pub body: RequestBodyView,
    pub out: Result<FeedAction, Error<SE, BE>>,
}

/// Feeding ends: the handle goes.
pub open spec fn feed_parked<SE, BE>(c: Conn, body: RequestBodyView) -> FeedStep<SE, BE> {
    FeedStep { conn: Conn { feed: Feed::Parked, ..c }, handle: None, body, out: Ok(FeedAction::Park) }
}

/// Feeding where `100 Continue` is expected.
///
/// It is encoded once the service has begun to read the body, and only
/// then. Where the service has dropped the body instead, nothing is sent
/// and feeding ends.
pub open spec fn feed_poll<SE, BE>(
    c: Conn,
    handle: RequestBodyHandle,
    body: RequestBodyView,
) -> FeedStep<SE, BE> {
    match body.polled() {
        Readiness::Pending => FeedStep {
            conn: Conn { feed: Feed::AwaitingPoll, ..c },
            handle: Some(handle),
            body,
            out: Ok(FeedAction::WaitForPoll),
        },
        Readiness::Closed => feed_parked(c, body),
        Readiness::Ready => FeedStep {
            conn: Conn { feed: Feed::Flushing, ..c.wrote(continue_bytes()) },
            handle: Some(handle),
            body,
            out: Ok(FeedAction::DrainWrite),
        },
    }
}

/// Feeding once the service may be ready for more.
///
/// While it has not taken what was fed, nothing is decoded. Where it has
/// dropped the body, the connection is to be closed and feeding ends. Where
/// it is ready, the read buffer is decoded into the channel: a complete
/// body ends feeding, an incomplete one asks for a read, and malformed
/// framing ends the connection.
pub open spec fn feed_ready<SE, BE>(
    c: Conn,
    handle: RequestBodyHandle,
    body: RequestBodyView,
) -> FeedStep<SE, BE> {
    match body.producer_ready() {
        Readiness::Pending => FeedStep {
            conn: Conn { feed: Feed::AwaitingReady, ..c },
            handle: Some(handle),
            body,
            out: Ok(FeedAction::AwaitReady),
        },
        Readiness::Closed => feed_parked(Conn { ctype: ConnectionType::Close, ..c }, body),
        Readiness::Ready => {
            let f = fed(handle.decoder, c.unread, body);
            let taken = Conn { unread: c.unread.skip(f.used as int), ..c };
            match f.out {
                Err(e) => FeedStep {
                    conn: Conn { phase: Phase::Closing, ..taken },
                    handle: Some(RequestBodyHandle { decoder: f.coding }),
                    body: f.body,
                    out: Err(Error::Proto(e)),
                },
                Ok(DecodeState::Continue) => FeedStep {
                    conn: Conn { feed: Feed::Reading, ..taken },
                    handle: Some(RequestBodyHandle { decoder: f.coding }),
                    body: f.body,
                    out: Ok(FeedAction::Read),
                },
                Ok(DecodeState::Eof) => feed_parked(taken, f.body),
            }
        },
    }
}

/// One step of feeding the request body while the service is at work.
///
/// Without a handle nothing is fed. A request that expects `100 Continue`
/// waits for the service to read; the interim response is written out in
/// full before anything is fed. A failed write or read ends the connection.
pub open spec fn feed_step<SE, BE>(
    c: Conn,
    handle: Option<RequestBodyHandle>,
    body: RequestBodyView,
    ev: FeedEvent,
) -> FeedStep<SE, BE> {
    match handle {
        None => feed_parked(c, body),
        Some(h) => match c.feed {
            Feed::Parked => feed_parked(c, body),
            Feed::Start => if c.expect {
                feed_poll(c, h, body)
            } else {
                feed_ready(c, h, body)
            },
            Feed::AwaitingPoll => feed_poll(c, h, body),
            Feed::AwaitingReady => feed_ready(c, h, body),
            Feed::Flushing => match ev {
                FeedEvent::Io(Err(e)) => FeedStep {
                    conn: Conn { phase: Phase::Closing, ..c },
                    handle,
                    body,
                    out: Err(io_error(e)),
                },
                _ => if c.unwritten.len() > 0 {
                    FeedStep { conn: c, handle, body, out: Ok(FeedAction::DrainWrite) }
                } else {
                    feed_ready(c, h, body)
                },
            },
            Feed::Reading => match ev {
                FeedEvent::Io(Err(e)) => FeedStep {
                    conn: Conn { phase: Phase::Closing, ..c },
                    handle,
                    body,
                    out: Err(io_error(e)),
                },
                FeedEvent::Io(Ok(())) => feed_ready(c, h, body),
                FeedEvent::Wake => FeedStep { conn: c, handle, body, out: Ok(FeedAction::Read) },
            },
        },
    }
}

/// The connection `c` after the head of the response was encoded.
///
/// A response without a length to a request of HTTP/1.0 ends with the
/// connection, which is therefore to be closed.
pub open spec fn answered(
    c: Conn,
    version: Version,
    status: u16,
    headers: Seq<(Seq<u8>, Seq<u8>)>,
    size: BodySize,
    date: Seq<u8>,
) -> Conn {
    let ctype = if c.version is Http10 && size is Stream {
        ConnectionType::Close
    } else {
        c.ctype
    };
    Conn {
        phase: Phase::Responding,
        feed: Feed::Parked,
        ..(Conn { ctype, ..c }).wrote(response_head(version, status, headers, size, date, ctype))
    }
}

/// A step of the response: the connection, the encoder and the handle after
/// it, and whether the response is complete.
pub struct ResponseStep<SE, BE> {
    pub conn: Conn,
    pub encoder: TransferCoding,
    pub handle: Option<RequestBodyHandle>,
    pub out: Result<bool, Error<SE, BE>>,
}

/// The item of a response body by the bytes it holds.
pub open spec fn item_view<BE>(item: Option<Result<Bytes, BE>>) -> Option<Result<Seq<u8>, BE>> {
    match item {
        Some(Ok(b)) => Some(Ok(shared_bytes(b))),
        Some(Err(e)) => Some(Err(e)),
        None => None,
    }
}

/// One item of the response body.
///
/// A chunk is encoded. An error ends the connection, which is to be closed.
/// The end of the body ends the response: where a request body is left
/// that is neither complete nor an upgrade, an unread rest remains on the
/// wire and the connection is to be closed; the handle goes; the end of the
/// body is encoded; and the connection goes on to the next request unless
/// it is to be closed.
pub open spec fn response_step<SE, BE>(
    c: Conn,
    encoder: TransferCoding,
    handle: Option<RequestBodyHandle>,
    body_eof: bool,
    item: Option<Result<Seq<u8>, BE>>,
) -> ResponseStep<SE, BE> {
    match item {
        Some(Ok(bytes)) => ResponseStep {
            conn: c.wrote(encoder.encoded(bytes).1),
            encoder: encoder.encoded(bytes).0,
            handle,
            out: Ok(false),
        },
        Some(Err(e)) => ResponseStep {
            conn: Conn { phase: Phase::Closing, ctype: ConnectionType::Close, ..c },
            encoder,
            handle,
            out: Err(Error::Body(e)),
        },
        None => {
            let unread_rest = handle matches Some(h) && !body_eof && !(h.decoder is Upgrade);
            let ctype = if unread_rest {
                ConnectionType::Close
            } else {
                c.ctype
            };
            ResponseStep {
                conn: Conn {
                    phase: if ctype is Close {
                        Phase::Closing
                    } else {
                        Phase::Decoding
                    },
                    ..(Conn { ctype, ..c }).wrote(encoder.ended().1).completed()
                },
                encoder: encoder.ended().0,
                handle: None,
                out: Ok(true),
            }
        },
    }
}

/// What happened while the response is written.
#[derive(Clone, Copy, Debug)]
pub enum RespEvent {
    /// Something may have changed, or nothing has happened yet.
    Wake,
    /// The wait for the transport has ended.
    Ready(Result<Ready, IoKind>),
}

/// What the caller is to do next beside polling the response body.
#[derive(Clone, Copy, Debug, PartialEq, Eq, Structural)]
pub enum RespAction {
    /// Ask again at once.
    Again,
    /// Wait.
    Wait(Await),
    /// Read where `readable`, then write where `writable`.
    Perform(Ready),
    /// Nothing: only the response body is waited for.
    Pending,
}

/// A step beside the response body: the connection, the handle and the
/// channel after it, and what to do next.
pub struct SideStep<SE, BE> {
    pub conn: Conn,
    pub handle: Option<RequestBodyHandle>,
    pub body: RequestBodyView,
    pub out: Result<RespAction, Error<SE, BE>>,
}

/// One step of what goes on beside the response body: the rest of the
/// request body is fed, and what was encoded is written.
///
/// With a handle, the read buffer is decoded into the channel first. A
/// complete body lets the handle go. An incomplete one waits as `awaited`
/// says; where the service has dropped the body, the channel gets the error
/// and the handle goes. Without a handle, only a write is waited for, and
/// only where bytes wait to be written. Once the transport is ready, what it
/// is ready for is performed; a failed wait goes to the channel where there
/// is a handle, and ends the connection where there is none.
pub open spec fn side_step<SE, BE>(
    c: Conn,
    handle: Option<RequestBodyHandle>,
    body: RequestBodyView,
    ev: RespEvent,
) -> SideStep<SE, BE> {
    match ev {
        RespEvent::Wake => match handle {
            None => SideStep {
                conn: c,
                handle,
                body,
                out: Ok(
                    if c.unwritten.len() > 0 {
                        RespAction::Wait(Await::Io(Interest { readable: false, writable: true }))
                    } else {
                        RespAction::Pending
                    },
                ),
            },
            Some(h) => {
                let f = fed(h.decoder, c.unread, body);
                let taken = Conn { unread: c.unread.skip(f.used as int), ..c };
                match f.out {
                    Err(e) => SideStep {
                        conn: Conn { phase: Phase::Closing, ..taken },
                        handle: Some(RequestBodyHandle { decoder: f.coding }),
                        body: f.body,
                        out: Err(Error::Proto(e)),
                    },
                    Ok(DecodeState::Eof) => SideStep {
                        conn: taken,
                        handle: None,
                        body: f.body,
                        out: Ok(RespAction::Again),
                    },
                    Ok(DecodeState::Continue) => match awaited(
                        c.unwritten.len() > 0,
                        f.body.producer_ready(),
                    ) {
                        Err(k) => SideStep {
                            conn: Conn { ctype: ConnectionType::Close, ..taken },
                            handle: None,
                            body: f.body.fed_error(BodyError::Io(k)),
                            out: Ok(RespAction::Again),
                        },
                        Ok(a) => SideStep {
                            conn: taken,
                            handle: Some(RequestBodyHandle { decoder: f.coding }),
                            body: f.body,
                            out: Ok(RespAction::Wait(a)),
                        },
                    },
                }
            },
        },
        RespEvent::Ready(Ok(ready)) => SideStep {
            conn: c,
            handle,
            body,
            out: Ok(
                RespAction::Perform(
                    Ready {
                        readable: ready.readable && handle is Some,
                        writable: ready.writable && c.unwritten.len() > 0,
                    },
                ),
            ),
        },
        RespEvent::Ready(Err(k)) => match handle {
            Some(_) => SideStep {
                conn: c,
                handle: None,
                body: body.fed_error(BodyError::Io(k)),
                out: Ok(RespAction::Again),
            },
            None => SideStep {
                conn: Conn { phase: Phase::Closing, ..c },
                handle,
                body,
                out: Err(io_error(k)),
            },
        },
    }
}

/// The dispatcher of one HTTP/1.x connection.
pub struct Dispatcher<
    const HEADER_LIMIT: usize,
    const READ_BUF_LIMIT: usize,
    const WRITE_BUF_LIMIT: usize,
> {
    io: BufferedIo<READ_BUF_LIMIT, WRITE_BUF_LIMIT>,
    timer: KeepAlive,
    ka_dur: u64,
    ctx: Context<HEADER_LIMIT>,
    phase: Phase,
    feed: Feed,
    out: Ghost<Seq<u8>>,
    taken: Ghost<nat>,
    spans: Ghost<Seq<(nat, nat)>>,
    begun: Ghost<nat>,
}

impl<
    const HEADER_LIMIT: usize,
    const READ_BUF_LIMIT: usize,
    const WRITE_BUF_LIMIT: usize,
> View for Dispatcher<HEADER_LIMIT, READ_BUF_LIMIT, WRITE_BUF_LIMIT> {
    type V = Conn;

    closed spec fn view(&self) -> Conn {
        Conn {
            phase: self.phase,
            feed: self.feed,
            ctype: self.ctx.ctype,
            expect: self.ctx.expect,
            version: self.ctx.version,
            unread: self.io.read_buf@,
            unwritten: self.io.write_buf@,
            vectored: self.io.write_buf.is_list(),
            deadline: self.timer.deadline,
            ka_dur: self.ka_dur,
            out: self.out@,
            taken: self.taken@,
            spans: self.spans@,
            begun: self.begun@,
        }
    }
}

impl<
    const HEADER_LIMIT: usize,
    const READ_BUF_LIMIT: usize,
    const WRITE_BUF_LIMIT: usize,
> Dispatcher<HEADER_LIMIT, READ_BUF_LIMIT, WRITE_BUF_LIMIT> {
    /// The dispatcher's invariant: its buffers are valid, the read buffer
    /// holds no more than its limit, and the connection is well-formed.
    pub closed spec fn inv(&self) -> bool {
        self.io.inv() && self@.wf()
    }

    /// The invariant bounds the read buffer and orders the responses.
    pub proof fn lemma_inv(&self)
        requires
            self.inv(),
        ensures
            self@.unread.len() <= READ_BUF_LIMIT,
            self@.wf(),
    {
    }

    /// The dispatcher of a fresh connection, at the instant `now`.
    ///
    /// Vectored writes are used where the configuration allows them and the
    /// transport offers them. The first request has the keep-alive timeout
    /// to arrive.
    pub fn new(
        config: HttpServiceConfig<HEADER_LIMIT, READ_BUF_LIMIT, WRITE_BUF_LIMIT>,
        io_vectored: bool,
        now: u64,
    ) -> (r: Self)
        ensures
            r.inv(),
            r@ == (Conn {
                phase: Phase::Idle,
                feed: Feed::Parked,
                ctype: ConnectionType::Init,
                expect: false,
                version: Version::Http11,
                unread: Seq::empty(),
                unwritten: Seq::empty(),
                vectored: config.vectored_write && io_vectored,
                deadline: instant_after(now, config.keep_alive_timeout),
                ka_dur: config.keep_alive_timeout,
                out: Seq::empty(),
                taken: 0,
                spans: Seq::empty(),
                begun: 0,
            }),
    {
        let r = Dispatcher {
            io: BufferedIo::new(config.vectored_write && io_vectored),
            timer: KeepAlive::new(KeepAlive::after(now, config.keep_alive_timeout)),
            ka_dur: config.keep_alive_timeout,
            ctx: Context::new(),
            phase: Phase::Idle,
            feed: Feed::Parked,
            out: Ghost(Seq::empty()),
            taken: Ghost(0),
            spans: Ghost(Seq::empty()),
            begun: Ghost(0),
        };
        assert(r@.out.skip(0) =~= r@.unwritten);
        r
    }

    /// Where the connection stands.
    pub fn phase(&self) -> (r: Phase)
        ensures
            r == self@.phase,
    {
        self.phase
    }

    /// The connection type.
    pub fn ctype(&self) -> (r: ConnectionType)
        ensures
            r == self@.ctype,
    {
        self.ctx.ctype()
    }

    /// The instant at which the keep-alive timer expires.
    pub fn deadline(&self) -> (r: u64)
        ensures
            r == self@.deadline,
    {
        self.timer.deadline
    }

    /// The buffers, for the caller to read what is to be written.
    pub fn io(&self) -> (r: &BufferedIo<READ_BUF_LIMIT, WRITE_BUF_LIMIT>)
        ensures
            r.read_buf@ == self@.unread,
            r.write_buf@ == self@.unwritten,
            r.write_buf.is_list() == self@.vectored,
            self.inv() ==> r.inv(),
    {
        &self.io
    }

    /// Moves the keep-alive deadline to the timeout after `now`.
    pub fn update_timer(&mut self, now: u64)
        ensures
            final(self)@ == (Conn { deadline: instant_after(now, old(self)@.ka_dur), ..old(self)@ }),
            old(self).inv() ==> final(self).inv(),
    {
        self.timer.update(KeepAlive::after(now, self.ka_dur));
    }

    /// Takes the outcome of one read of the transport.
    pub fn try_read(&mut self, res: ReadOutcome<'_>) -> (r: Result<Progress, IoKind>)
        requires
            old(self).inv(),
        ensures
            final(self).inv(),
            final(self)@ == (Conn {
                unread: read_step(old(self)@.unread, READ_BUF_LIMIT as nat, res).0,
                ..old(self)@
            }),
            r == read_step(old(self)@.unread, READ_BUF_LIMIT as nat, res).1,
    {
        self.io.try_read(res)
    }

    /// Takes the outcome of one write of the front of the write buffer.
    pub fn try_write(&mut self, res: WriteOutcome) -> (r: Result<Progress, IoKind>)
        requires
            old(self).inv(),
        ensures
            final(self).inv(),
            final(self)@ == (Conn {
                unwritten: write_step(old(self)@.unwritten, res).0,
                taken: (old(self)@.taken + old(self)@.unwritten.len() - write_step(
                    old(self)@.unwritten,
                    res,
                ).0.len()) as nat,
                ..old(self)@
            }),
            r == write_step(old(self)@.unwritten, res).1,
    {
        let ghost before = self.io.write_buf@.len();
        let r = self.io.try_write(res);
        proof {
            let n = (before - self.io.write_buf@.len()) as nat;
            self.taken@ = self.taken@ + n;
            assert(old(self)@.out.skip(old(self)@.taken as int).skip(n as int) =~= old(self)@.out.skip(
                (old(self)@.taken + n) as int,
            ));
            assert(old(self)@.unwritten.skip(0) =~= old(self)@.unwritten);
        }
        r
    }

    /// Decides at the turn between two requests, at the instant `now`.
    pub fn turn(&mut self, now: u64) -> (r: Turn)
        requires
            old(self).inv(),
            old(self)@.phase is Idle || old(self)@.phase is Closing,
        ensures
            final(self).inv(),
            (final(self)@, r) == turned(old(self)@, now),
    {
        if self.io.want_write() {
            return Turn::Write;
        }
        let closing: bool = match self.phase {
            Phase::Closing => true,
            _ => false,
        };
        if closing || self.ctx.is_connection_closed() {
            self.phase = Phase::Closing;
            return Turn::Shutdown;
        }
        match self.ctx.ctype() {
            ConnectionType::KeepAlive => {
                self.update_timer(now);
            },
            _ => {},
        }
        self.phase = Phase::Reading;
        Turn::Read
    }

    /// Takes the end of the wait for the next request.
    pub fn on_read<SE, BE>(&mut self, ev: ReadEvent) -> (r: Result<(), Error<SE, BE>>)
        requires
            old(self).inv(),
            old(self)@.phase is Reading,
        ensures
            final(self).inv(),
            (final(self)@, r) == read_ended::<SE, BE>(old(self)@, ev),
    {
        match ev {
            ReadEvent::Done(Ok(())) => {
                self.phase = Phase::Decoding;
                Ok(())
            },
            ReadEvent::Done(Err(e)) => {
                self.phase = Phase::Closing;
                Err(Error::from_io(e))
            },
            ReadEvent::Expired => {
                self.phase = Phase::Closing;
                if !self.io.read_buf.is_empty() {
                    self.ctx.set_ctype(ConnectionType::Close);
                }
                Err(Error::KeepAliveExpire)
            },
        }
    }

    /// Decodes the head of the next request from the read buffer.
    ///
    /// Returns the request with the receiving end of its body, and the
    /// handle that feeds the body, if there is one; or `None` where the head
    /// is not complete yet; or the reason for which the head is rejected,
    /// which `request_error` answers.
    pub fn decode_head(&mut self) -> (r: Option<
        Result<(Request<RequestBody>, Option<RequestBodyHandle>), ProtoError>,
    >)
        requires
            old(self).inv(),
            old(self)@.phase is Decoding,
        ensures
            final(self).inv(),
            head_taken(
                head_decoded(
                    parsed_request(old(self)@.unread, HEADER_LIMIT as nat),
                    old(self)@.unread.len(),
                    READ_BUF_LIMIT as nat,
                ),
                r,
                old(self)@,
                final(self)@,
            ),
    {
        match self.ctx.decode_head(&mut self.io.read_buf) {
            Err(e) => Some(Err(e)),
            Ok(None) => {
                self.phase = Phase::Idle;
                None
            },
            Ok(Some((req, coding))) => {
                let (handle, body) = RequestBodyHandle::new_pair(coding);
                self.phase = Phase::Serving;
                self.feed = Feed::Start;
                proof {
                    self.begun@ = self.out@.len();
                }
                Some(Ok((req.map_body(body), handle)))
            },
        }
    }

    /// Answers a request whose head was rejected for `e` with the canned
    /// response, dated `date`, and sets the connection to close.
    pub fn request_error(&mut self, e: Parse, date: &[u8])
        requires
            old(self).inv(),
            old(self)@.phase is Decoding,
        ensures
            final(self).inv(),
            final(self)@ == rejected(old(self)@, e, date@),
    {
        self.phase = Phase::Closing;
        self.ctx.set_ctype(ConnectionType::Close);
        let res = match e {
            Parse::HeaderTooLarge => crate::message::header_too_large(),
            _ => crate::message::bad_request(),
        };
        let (parts, _body) = res.into_parts();
        proof {
            self.begun@ = self.out@.len();
            assert(header_views(parts.headers@) =~= Seq::<(Seq<u8>, Seq<u8>)>::empty());
        }
        let ghost head = response_head(
            Version::Http11,
            rejection_status(e),
            Seq::empty(),
            BodySize::Sized(0),
            date@,
            ConnectionType::Close,
        );
        let ghost before = self@;
        let _coding = self.ctx.encode_head(parts, BodySize::Sized(0), date, &mut self.io.write_buf);
        proof {
            self.out@ = self.out@ + head;
            lemma_wrote(before, head);
            assert(self@ == before.wrote(head));
            lemma_completed(self@);
            self.spans@ = self.spans@.push((self.begun@, self.out@.len()));
            self.begun@ = self.out@.len();
        }
    }

    /// Feeding ends: the handle goes.
    fn park(&mut self, handle: &mut Option<RequestBodyHandle>) -> (r: FeedAction)
        requires
            old(self).inv(),
        ensures
            final(self).inv(),
            final(self)@ == (Conn { feed: Feed::Parked, ..old(self)@ }),
            *final(handle) == None::<RequestBodyHandle>,
            r == FeedAction::Park,
    {
        *handle = None;
        self.feed = Feed::Parked;
        FeedAction::Park
    }

    /// Computes `feed_poll`.
    fn poll_feed<SE, BE>(&mut self, h: RequestBodyHandle, body: &RequestBody) -> (r: (
        Option<RequestBodyHandle>,
        Result<FeedAction, Error<SE, BE>>,
    ))
        requires
            old(self).inv(),
            old(self)@.expect,
        ensures
            final(self).inv(),
            final(self)@ == feed_poll::<SE, BE>(old(self)@, h, body@).conn,
            r.0 == feed_poll::<SE, BE>(old(self)@, h, body@).handle,
            r.1 == feed_poll::<SE, BE>(old(self)@, h, body@).out,
    {
        match h.wait_for_poll(body) {
            Readiness::Pending => {
                self.feed = Feed::AwaitingPoll;
                (Some(h), Ok(FeedAction::WaitForPoll))
            },
            Readiness::Closed => {
                self.feed = Feed::Parked;
                (None, Ok(FeedAction::Park))
            },
            Readiness::Ready => {
                let ghost before = self@;
                self.ctx.encode_continue(&mut self.io.write_buf);
                proof {
                    self.out@ = self.out@ + continue_bytes();
                    lemma_wrote(before, continue_bytes());
                }
                self.feed = Feed::Flushing;
                (Some(h), Ok(FeedAction::DrainWrite))
            },
        }
    }

    /// Computes `feed_ready`.
    fn ready_feed<SE, BE>(&mut self, h: RequestBodyHandle, body: &mut RequestBody) -> (r: (
        Option<RequestBodyHandle>,
        Result<FeedAction, Error<SE, BE>>,
    ))
        requires
            old(self).inv(),
            old(self)@.phase is Serving,
            old(body)@.open(),
        ensures
            final(self).inv(),
            final(self)@ == feed_ready::<SE, BE>(old(self)@, h, old(body)@).conn,
            r.0 == feed_ready::<SE, BE>(old(self)@, h, old(body)@).handle,
            final(body)@ == feed_ready::<SE, BE>(old(self)@, h, old(body)@).body,
            r.1 == feed_ready::<SE, BE>(old(self)@, h, old(body)@).out,
            r.0 is Some ==> final(body)@.open(),
    {
        let mut h = h;
        match h.ready(body, &mut self.ctx) {
            Readiness::Pending => {
                self.feed = Feed::AwaitingReady;
                (Some(h), Ok(FeedAction::AwaitReady))
            },
            Readiness::Closed => {
                self.feed = Feed::Parked;
                (None, Ok(FeedAction::Park))
            },
            Readiness::Ready => {
                proof {
                    lemma_fed_flags(h.decoder, self@.unread, body@);
                }
                match h.decode(&mut self.io.read_buf, body) {
                    Err(e) => {
                        self.phase = Phase::Closing;
                        (Some(h), Err(Error::Proto(e)))
                    },
                    Ok(DecodeState::Continue) => {
                        self.feed = Feed::Reading;
                        (Some(h), Ok(FeedAction::Read))
                    },
                    Ok(DecodeState::Eof) => {
                        self.feed = Feed::Parked;
                        (None, Ok(FeedAction::Park))
                    },
                }
            },
        }
    }

    /// Takes one step of feeding the request body to the service, while the
    /// service is at work.
    pub fn request_body_handler<SE, BE>(
        &mut self,
        handle: &mut Option<RequestBodyHandle>,
        body: &mut RequestBody,
        ev: FeedEvent,
    ) -> (r: Result<FeedAction, Error<SE, BE>>)
        requires
            old(self).inv(),
            old(self)@.phase is Serving,
            *old(handle) is Some ==> old(body)@.open(),
        ensures
            final(self).inv(),
            final(self)@ == feed_step::<SE, BE>(old(self)@, *old(handle), old(body)@, ev).conn,
            *final(handle) == feed_step::<SE, BE>(old(self)@, *old(handle), old(body)@, ev).handle,
            final(body)@ == feed_step::<SE, BE>(old(self)@, *old(handle), old(body)@, ev).body,
            r == feed_step::<SE, BE>(old(self)@, *old(handle), old(body)@, ev).out,
            *final(handle) is Some ==> final(body)@.open(),
    {
        match handle.take() {
            None => Ok(self.park(handle)),
            Some(h) => {
                match self.feed {
                    Feed::Parked => Ok(self.park(handle)),
                    Feed::Start => {
                        let (next, r) = if self.ctx.is_expect_header() {
                            self.poll_feed(h, body)
                        } else {
                            self.ready_feed(h, body)
                        };
                        *handle = next;
                        r
                    },
                    Feed::AwaitingPoll => {
                        let (next, r) = self.poll_feed(h, body);
                        *handle = next;
                        r
                    },
                    Feed::AwaitingReady => {
                        let (next, r) = self.ready_feed(h, body);
                        *handle = next;
                        r
                    },
                    Feed::Flushing => {
                        match ev {
                            FeedEvent::Io(Err(e)) => {
                                *handle = Some(h);
                                self.phase = Phase::Closing;
                                Err(Error::from_io(e))
                            },
                            _ => {
                                if self.io.want_write() {
                                    *handle = Some(h);
                                    Ok(FeedAction::DrainWrite)
                                } else {
                                    let (next, r) = self.ready_feed(h, body);
                                    *handle = next;
                                    r
                                }
                            },
                        }
                    },
                    Feed::Reading => {
                        match ev {
                            FeedEvent::Io(Err(e)) => {
                                *handle = Some(h);
                                self.phase = Phase::Closing;
                                Err(Error::from_io(e))
                            },
                            FeedEvent::Io(Ok(())) => {
                                let (next, r) = self.ready_feed(h, body);
                                *handle = next;
                                r
                            },
                            FeedEvent::Wake => {
                                *handle = Some(h);
                                Ok(FeedAction::Read)
                            },
                        }
                    },
                }
            },
        }
    }

    /// Encodes the head of the service's response, dated `date`, and
    /// returns the coding of the response body.
    pub fn encode_head(&mut self, parts: Parts, size: BodySize, date: &[u8]) -> (r: TransferCoding)
        requires
            old(self).inv(),
            old(self)@.phase is Serving,
        ensures
            final(self).inv(),
            r == response_coding(size),
            final(self)@ == answered(
                old(self)@,
                parts.version,
                parts.status,
                header_views(parts.headers@),
                size,
                date@,
            ),
    {
        let old_request: bool = match self.ctx.version {
            Version::Http10 => true,
            Version::Http11 => false,
        };
        let unsized_body: bool = match size {
            BodySize::Stream => true,
            _ => false,
        };
        if old_request && unsized_body {
            self.ctx.set_ctype(ConnectionType::Close);
        }
        let ghost before = self@;
        let ghost head = response_head(
            parts.version,
            parts.status,
            header_views(parts.headers@),
            size,
            date@,
            self@.ctype,
        );
        let r = self.ctx.encode_head(parts, size, date, &mut self.io.write_buf);
        proof {
            self.out@ = self.out@ + head;
            lemma_wrote(before, head);
        }
        self.phase = Phase::Responding;
        self.feed = Feed::Parked;
        r
    }

    /// Whether the response body may be polled: not while the write buffer
    /// is at or over its limit.
    pub fn try_poll_body(&self) -> (r: bool)
        requires
            self.inv(),
        ensures
            r == (self@.unwritten.len() < WRITE_BUF_LIMIT),
    {
        !self.io.write_buf.backpressure()
    }

    /// Takes one item of the response body; returns whether the response is
    /// complete.
    pub fn response_handler<SE, BE>(
        &mut self,
        encoder: &mut TransferCoding,
        handle: &mut Option<RequestBodyHandle>,
        body: &RequestBody,
        item: Option<Result<Bytes, BE>>,
    ) -> (r: Result<bool, Error<SE, BE>>)
        requires
            old(self).inv(),
            old(self)@.phase is Responding,
            item is None ==> old(encoder).complete(),
        ensures
            final(self).inv(),
            final(self)@ == response_step::<SE, BE>(
                old(self)@,
                *old(encoder),
                *old(handle),
                body@.eof,
                item_view(item),
            ).conn,
            *final(encoder) == response_step::<SE, BE>(
                old(self)@,
                *old(encoder),
                *old(handle),
                body@.eof,
                item_view(item),
            ).encoder,
            *final(handle) == response_step::<SE, BE>(
                old(self)@,
                *old(encoder),
                *old(handle),
                body@.eof,
                item_view(item),
            ).handle,
            r == response_step::<SE, BE>(
                old(self)@,
                *old(encoder),
                *old(handle),
                body@.eof,
                item_view(item),
            ).out,
    {
        let ghost before = self@;
        match item {
            Some(Ok(bytes)) => {
                let ghost wire = encoder.encoded(shared_bytes(bytes)).1;
                encoder.encode(bytes, &mut self.io.write_buf);
                proof {
                    self.out@ = self.out@ + wire;
                    lemma_wrote(before, wire);
                }
                Ok(false)
            },
            Some(Err(e)) => {
                self.ctx.set_ctype(ConnectionType::Close);
                self.phase = Phase::Closing;
                Err(Error::Body(e))
            },
            None => {
                match handle.take() {
                    Some(h) => {
                        if !body.is_eof() && !h.decoder.is_upgrade() {
                            self.ctx.set_ctype(ConnectionType::Close);
                        }
                    },
                    None => {},
                }
                let ghost mid = self@;
                let ghost wire = encoder.ended().1;
                encoder.encode_eof(&mut self.io.write_buf);
                proof {
                    self.out@ = self.out@ + wire;
                    lemma_wrote(mid, wire);
                    lemma_completed(self@);
                    self.spans@ = self.spans@.push((self.begun@, self.out@.len()));
                    self.begun@ = self.out@.len();
                }
                if self.ctx.is_connection_closed() {
                    self.phase = Phase::Closing;
                } else {
                    self.phase = Phase::Decoding;
                }
                Ok(true)
            },
        }
    }

    /// Takes one step of what goes on beside the response body.
    pub fn response_body_handler<SE, BE>(
        &mut self,
        handle: &mut Option<RequestBodyHandle>,
        body: &mut RequestBody,
        ev: RespEvent,
    ) -> (r: Result<RespAction, Error<SE, BE>>)
        requires
            old(self).inv(),
            old(self)@.phase is Responding,
            *old(handle) is Some ==> old(body)@.open(),
        ensures
            final(self).inv(),
            final(self)@ == side_step::<SE, BE>(old(self)@, *old(handle), old(body)@, ev).conn,
            *final(handle) == side_step::<SE, BE>(old(self)@, *old(handle), old(body)@, ev).handle,
            final(body)@ == side_step::<SE, BE>(old(self)@, *old(handle), old(body)@, ev).body,
            r == side_step::<SE, BE>(old(self)@, *old(handle), old(body)@, ev).out,
            *final(handle) is Some ==> final(body)@.open(),
    {
        match ev {
            RespEvent::Wake => {
                match handle.take() {
                    None => {
                        if self.io.want_write() {
                            Ok(
                                RespAction::Wait(
                                    Await::Io(Interest { readable: false, writable: true }),
                                ),
                            )
                        } else {
                            Ok(RespAction::Pending)
                        }
                    },
                    Some(h) => {
                        let mut h = h;
                        proof {
                            lemma_fed_flags(h.decoder, self@.unread, body@);
                        }
                        match h.decode(&mut self.io.read_buf, body) {
                            Err(e) => {
                                *handle = Some(h);
                                self.phase = Phase::Closing;
                                Err(Error::Proto(e))
                            },
                            Ok(DecodeState::Eof) => Ok(RespAction::Again),
                            Ok(DecodeState::Continue) => {
                                match self.io.ready(&h, body, &mut self.ctx) {
                                    Err(k) => {
                                        body.feed_error(BodyError::Io(k));
                                        Ok(RespAction::Again)
                                    },
                                    Ok(a) => {
                                        *handle = Some(h);
                                        Ok(RespAction::Wait(a))
                                    },
                                }
                            },
                        }
                    },
                }
            },
            RespEvent::Ready(Ok(ready)) => {
                let live: bool = handle.is_some();
                let want: bool = self.io.want_write();
                Ok(
                    RespAction::Perform(
                        Ready { readable: ready.readable && live, writable: ready.writable && want },
                    ),
                )
            },
            RespEvent::Ready(Err(k)) => {
                match handle.take() {
                    Some(_) => {
                        body.feed_error(BodyError::Io(k));
                        Ok(RespAction::Again)
                    },
                    None => {
                        self.phase = Phase::Closing;
                        Err(Error::from_io(k))
                    },
                }
            },
        }
    }
}

/// What the end of a connection means to the server.
pub fn conclude<SE, BE>(res: Result<(), Error<SE, BE>>) -> (r: Result<(), Error<SE, BE>>)
    ensures
        r == crate::error::outcome(res),
{
    match res {
        Ok(()) => Ok(()),
        Err(Error::Closed) => Ok(()),
        Err(Error::KeepAliveExpire) => Ok(()),
        Err(e) => Err(e),
    }
}

} // verus!
