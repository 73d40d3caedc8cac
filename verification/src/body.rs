//! The channel that carries a request body from the dispatcher, which
//! decodes it, to the service, which reads it.

use vstd::prelude::*;
use bytes::Bytes;
use std::collections::VecDeque;
use crate::buf::{chunk_bytes, ReadBuf};
use crate::bytes_spec::{bytes_len, shared_bytes};
use crate::context::{ConnectionType, Context};
use crate::coding::{decoded, lemma_decoded_bounds, lemma_decoded_none, TransferCoding};
use crate::error::{BodyError, ProtoError};

verus! {

/// Whether one end of the channel can go on.
#[derive(Clone, Copy, Debug, PartialEq, Eq, Structural)]
pub enum Readiness {
    /// It can.
    Ready,
    /// Not yet: the other end has to act first.
    Pending,
    /// Never again: the receiver is gone.
    Closed,
}

/// What the receiver gets when it asks for the next item.
#[derive(Debug)]
pub enum Received {
    /// The next chunk of the body.
    Chunk(Bytes),
    /// The error that ended the body.
    Failed(BodyError),
    /// The body is complete.
    End,
    /// Nothing yet.
    Pending,
}

/// The request body as the service sees it: what the producer has fed and
/// the receiver has not taken yet.
pub struct RequestBody {
    queue: VecDeque<Bytes>,
    eof: bool,
    error: Option<BodyError>,
    failed: bool,
    closed: bool,
    polled: bool,
}

/// A `RequestBody` as mathematical values.
pub struct RequestBodyView {
    /// The chunks fed and not yet taken, oldest first.
    pub chunks: Seq<Seq<u8>>,
    /// Whether the end of the body was fed.
    pub eof: bool,
    /// The error that was fed and not yet taken.
    pub error: Option<BodyError>,
    /// Whether an error was fed.
    pub failed: bool,
    /// Whether the receiver is gone.
    pub closed: bool,
    /// Whether the receiver has asked for an item yet.
    pub polled: bool,
}

impl View for RequestBody {
    type V = RequestBodyView;

    closed spec fn view(&self) -> RequestBodyView {
        RequestBodyView {
            chunks: chunk_bytes(self.queue@),
            eof: self.eof,
            error: self.error,
            failed: self.failed,
            closed: self.closed,
            polled: self.polled,
        }
    }
}

impl RequestBodyView {
    /// Whether the producer may still feed: neither the end nor an error
    /// has been fed.
    pub open spec fn open(self) -> bool {
        !self.eof && !self.failed
    }

    /// Whether the producer may go on: `Closed` once the receiver is gone,
    /// `Ready` once the receiver has taken every chunk.
    pub open spec fn producer_ready(self) -> Readiness {
        if self.closed {
            Readiness::Closed
        } else if self.chunks.len() == 0 {
            Readiness::Ready
        } else {
            Readiness::Pending
        }
    }

    /// Whether the receiver has begun to read: `Closed` once it is gone,
    /// `Ready` once it has asked for an item.
    pub open spec fn polled(self) -> Readiness {
        if self.closed {
            Readiness::Closed
        } else if self.polled {
            Readiness::Ready
        } else {
            Readiness::Pending
        }
    }
}

impl RequestBody {
    /// The body of a request that has none: its end is there already.
    pub fn empty() -> (r: Self)
        ensures
            r@.chunks == Seq::<Seq<u8>>::empty(),
            r@.eof,
            r@.error is None,
            !r@.failed,
            !r@.closed,
            !r@.polled,
    {
        let queue: VecDeque<Bytes> = VecDeque::new();
        assert(chunk_bytes(queue@) =~= Seq::<Seq<u8>>::empty());
        RequestBody { queue, eof: true, error: None, failed: false, closed: false, polled: false }
    }

    /// A body that nothing has been fed to yet; with `eof`, one that is
    /// complete as it is.
    pub fn create(eof: bool) -> (r: Self)
        ensures
            r@.chunks == Seq::<Seq<u8>>::empty(),
            r@.eof == eof,
            r@.error is None,
            !r@.failed,
            !r@.closed,
            !r@.polled,
    {
        let queue: VecDeque<Bytes> = VecDeque::new();
        assert(chunk_bytes(queue@) =~= Seq::<Seq<u8>>::empty());
        RequestBody { queue, eof, error: None, failed: false, closed: false, polled: false }
    }

    /// Whether the end of the body was fed.
    pub fn is_eof(&self) -> (r: bool)
        ensures
            r == self@.eof,
    {
        self.eof
    }

    /// Whether the producer may still feed.
    pub fn is_open(&self) -> (r: bool)
        ensures
            r == self@.open(),
    {
        !self.eof && !self.failed
    }

    /// Whether the producer may go on.
    pub fn poll_ready(&self) -> (r: Readiness)
        ensures
            r == self@.producer_ready(),
    {
        if self.closed {
            Readiness::Closed
        } else if self.queue.len() == 0 {
            Readiness::Ready
        } else {
            Readiness::Pending
        }
    }

    /// Whether the receiver has begun to read.
    pub fn poll_wait_for_poll(&self) -> (r: Readiness)
        ensures
            r == self@.polled(),
    {
        if self.closed {
            Readiness::Closed
        } else if self.polled {
            Readiness::Ready
        } else {
            Readiness::Pending
        }
    }

    /// Feeds a chunk of the body. A receiver that is gone gets nothing.
    pub fn feed_data(&mut self, bytes: Bytes)
        requires
            old(self)@.open(),
        ensures
            final(self)@ == if old(self)@.closed {
                old(self)@
            } else {
                RequestBodyView {
                    chunks: old(self)@.chunks.push(shared_bytes(bytes)),
                    ..old(self)@
                }
            },
    {
        if !self.closed {
            assert(chunk_bytes(self.queue@.push(bytes)) =~= chunk_bytes(self.queue@).push(
                shared_bytes(bytes),
            ));
            self.queue.push_back(bytes);
        }
    }

    /// Feeds the end of the body.
    pub fn feed_eof(&mut self)
        requires
            old(self)@.open(),
        ensures
            final(self)@ == (RequestBodyView { eof: true, ..old(self)@ }),
    {
        self.eof = true;
    }

    /// Feeds the error that ends the body. A receiver that is gone gets
    /// nothing.
    pub fn feed_error(&mut self, e: BodyError)
        requires
            old(self)@.open(),
        ensures
            final(self)@ == if old(self)@.closed {
                RequestBodyView { failed: true, ..old(self)@ }
            } else {
                RequestBodyView { error: Some(e), failed: true, ..old(self)@ }
            },
    {
        self.failed = true;
        if !self.closed {
            self.error = Some(e);
        }
    }

    /// The channel after the receiver has asked for the next item, and the
    /// item, if there is one.
    pub open spec fn next(v: RequestBodyView) -> (RequestBodyView, Option<Result<Seq<u8>, BodyError>>) {
        if v.chunks.len() > 0 {
            (
                RequestBodyView { chunks: v.chunks.drop_first(), polled: true, ..v },
                Some(Ok(v.chunks[0])),
            )
        } else if v.error is Some {
            (RequestBodyView { error: None, polled: true, ..v }, Some(Err(v.error->0)))
        } else {
            (RequestBodyView { polled: true, ..v }, None)
        }
    }

    /// Takes the next item for the receiver: the oldest chunk, then the
    /// error, then the end. The receiver is recorded as having begun to
    /// read.
    pub fn poll_next(&mut self) -> (r: Received)
        ensures
            final(self)@ == Self::next(old(self)@).0,
            match r {
                Received::Chunk(b) => Self::next(old(self)@).1 == Some(
                    Ok::<Seq<u8>, BodyError>(shared_bytes(b)),
                ),
                Received::Failed(e) => Self::next(old(self)@).1 == Some(Err::<Seq<u8>, BodyError>(e)),
                Received::End => Self::next(old(self)@).1 is None && (old(self)@.eof || old(
                    self,
                )@.failed),
                Received::Pending => Self::next(old(self)@).1 is None && old(self)@.open(),
            },
    {
        let ghost before = self.queue@;
        self.polled = true;
        match self.queue.pop_front() {
            Some(b) => {
                assert(chunk_bytes(before.drop_first()) =~= chunk_bytes(before).drop_first());
                assert(self.queue@ =~= before.drop_first());
                Received::Chunk(b)
            },
            None => {
                assert(chunk_bytes(before) =~= Seq::<Seq<u8>>::empty());
                match self.error {
                    Some(e) => {
                        self.error = None;
                        Received::Failed(e)
                    },
                    None => {
                        if self.eof || self.failed {
                            Received::End
                        } else {
                            Received::Pending
                        }
                    },
                }
            },
        }
    }

    /// Records that the receiver is gone. What it has not taken is dropped.
    pub fn close(&mut self)
        ensures
            final(self)@ == (RequestBodyView {
                chunks: Seq::empty(),
                error: None,
                closed: true,
                ..old(self)@
            }),
    {
        self.queue.clear();
        assert(chunk_bytes(self.queue@) =~= Seq::<Seq<u8>>::empty());
        self.error = None;
        self.closed = true;
    }
}

impl RequestBodyView {
    /// The channel after a chunk was fed to it.
    pub open spec fn fed_data(self, chunk: Seq<u8>) -> RequestBodyView {
        if self.closed {
            self
        } else {
            RequestBodyView { chunks: self.chunks.push(chunk), ..self }
        }
    }

    /// The channel after the error `e` was fed to it.
    pub open spec fn fed_error(self, e: BodyError) -> RequestBodyView {
        if self.closed {
            RequestBodyView { failed: true, ..self }
        } else {
            RequestBodyView { error: Some(e), failed: true, ..self }
        }
    }
}

/// Whether the body goes on behind what was decoded.
#[derive(Clone, Copy, Debug, PartialEq, Eq, Structural)]
pub enum DecodeState {
    /// More of the body is to come.
    Continue,
    /// The body is complete and its end was fed.
    Eof,
}

/// What decoding a read buffer into the channel comes to.
pub struct Fed {
    /// The coding afterwards.
    pub coding: TransferCoding,
    /// How many bytes of the input were consumed.
    pub used: nat,
    /// The channel afterwards.
    pub body: RequestBodyView,
    /// Whether the body goes on, or why its framing is rejected.
    pub out: Result<DecodeState, ProtoError>,
}

/// Decoding `input` into the channel `body`: each chunk that the decoder
/// hands out is fed, until it hands out the end of the body, which is fed
/// too, or nothing more, or an error.
pub open spec fn fed(coding: TransferCoding, input: Seq<u8>, body: RequestBodyView) -> Fed
    decreases input.len(),
{
    let d = decoded(coding, input);
    match d.out {
        Err(e) => Fed { coding, used: 0, body, out: Err(e) },
        Ok(None) => Fed { coding: d.coding, used: d.used, body, out: Ok(DecodeState::Continue) },
        Ok(Some(c)) => if c.len() == 0 {
            Fed {
                coding: d.coding,
                used: d.used,
                body: RequestBodyView { eof: true, ..body },
                out: Ok(DecodeState::Eof),
            }
        } else if 0 < d.used <= input.len() {
            let rest = fed(d.coding, input.skip(d.used as int), body.fed_data(c));
            Fed { coding: rest.coding, used: rest.used + d.used, body: rest.body, out: rest.out }
        } else {
            Fed { coding: d.coding, used: d.used, body: body.fed_data(c), out: Ok(DecodeState::Continue) }
        },
    }
}

/// Decoding feeds chunks and at most the end: it leaves alone whether the
/// receiver is gone or has begun to read and whether an error was fed, and
/// the end is fed exactly where the body is complete.
pub proof fn lemma_fed_flags(coding: TransferCoding, input: Seq<u8>, body: RequestBodyView)
    ensures
        fed(coding, input, body).body.closed == body.closed,
        fed(coding, input, body).body.polled == body.polled,
        fed(coding, input, body).body.failed == body.failed,
        fed(coding, input, body).body.error == body.error,
        fed(coding, input, body).body.eof == (body.eof || fed(coding, input, body).out == Ok::<
            DecodeState,
            ProtoError,
        >(DecodeState::Eof)),
        fed(coding, input, body).used <= input.len(),
    decreases input.len(),
{
    let d = decoded(coding, input);
    lemma_decoded_bounds(coding, input);
    match d.out {
        Ok(Some(c)) => {
            if c.len() != 0 && 0 < d.used <= input.len() {
                lemma_fed_flags(d.coding, input.skip(d.used as int), body.fed_data(c));
            }
        },
        _ => {},
    }
}

/// Decoding that asks for more of the body has consumed all of its input:
/// the read buffer is empty then, and the next read has all of its room.
pub proof fn lemma_fed_continue(coding: TransferCoding, input: Seq<u8>, body: RequestBodyView)
    requires
        !(coding is Eof),
    ensures
        fed(coding, input, body).out == Ok::<DecodeState, ProtoError>(DecodeState::Continue)
            ==> fed(coding, input, body).used == input.len(),
    decreases input.len(),
{
    let d = decoded(coding, input);
    lemma_decoded_bounds(coding, input);
    lemma_decoded_none(coding, input);
    match d.out {
        Ok(Some(c)) => {
            if c.len() != 0 {
                lemma_fed_continue(d.coding, input.skip(d.used as int), body.fed_data(c));
            }
        },
        _ => {},
    }
}

/// The dispatcher's end of the channel: the decoder of the request body. It
/// lives as long as the body goes on and the service may read it.
#[derive(Debug)]
pub struct RequestBodyHandle {
    /// The coding of the request body, with the state of its decoder.
    pub decoder: TransferCoding,
}

impl RequestBodyHandle {
    /// The two ends for a request whose body has the coding `decoder`. A
    /// request without a body gets no handle, and a body that is complete.
    pub fn new_pair(decoder: TransferCoding) -> (r: (Option<RequestBodyHandle>, RequestBody))
        ensures
            r.0 == if decoder is Eof {
                None
            } else {
                Some(RequestBodyHandle { decoder })
            },
            r.1@ == (RequestBodyView {
                chunks: Seq::empty(),
                eof: decoder is Eof,
                error: None,
                failed: false,
                closed: false,
                polled: false,
            }),
    {
        if decoder.is_eof() {
            (None, RequestBody::empty())
        } else {
            (Some(RequestBodyHandle { decoder }), RequestBody::create(false))
        }
    }

    /// Decodes what `read_buf` holds of the body and feeds it to `body`.
    pub fn decode<const LIMIT: usize>(
        &mut self,
        read_buf: &mut ReadBuf<LIMIT>,
        body: &mut RequestBody,
    ) -> (r: Result<DecodeState, ProtoError>)
        requires
            old(body)@.open(),
        ensures
            final(self).decoder == fed(old(self).decoder, old(read_buf)@, old(body)@).coding,
            final(read_buf)@ == old(read_buf)@.skip(
                fed(old(self).decoder, old(read_buf)@, old(body)@).used as int,
            ),
            final(body)@ == fed(old(self).decoder, old(read_buf)@, old(body)@).body,
            r == fed(old(self).decoder, old(read_buf)@, old(body)@).out,
            old(read_buf).inv() ==> final(read_buf).inv(),
    {
        let ghost input = read_buf@;
        let ghost coding0 = self.decoder;
        let ghost body0 = body@;
        let ghost mut k: nat = 0;
        assert(input.skip(0) =~= input);
        loop
            invariant
                coding0 == old(self).decoder,
                input == old(read_buf)@,
                body0 == old(body)@,
                k <= input.len(),
                read_buf@ == input.skip(k as int),
                body@.open(),
                old(read_buf).inv() ==> read_buf.inv(),
                fed(coding0, input, body0).coding == fed(self.decoder, read_buf@, body@).coding,
                fed(coding0, input, body0).used == fed(self.decoder, read_buf@, body@).used + k,
                fed(coding0, input, body0).body == fed(self.decoder, read_buf@, body@).body,
                fed(coding0, input, body0).out == fed(self.decoder, read_buf@, body@).out,
            decreases read_buf@.len(),
        {
            let ghost here = read_buf@;
            let ghost d = decoded(self.decoder, here);
            proof {
                lemma_decoded_bounds(self.decoder, here);
            }
            match self.decoder.decode(read_buf) {
                Err(e) => {
                    assert(here.skip(0) =~= here);
                    return Err(e);
                },
                Ok(None) => {
                    assert(input.skip(k as int).skip(d.used as int) =~= input.skip((k + d.used) as int));
                    return Ok(DecodeState::Continue);
                },
                Ok(Some(bytes)) => {
                    assert(input.skip(k as int).skip(d.used as int) =~= input.skip((k + d.used) as int));
                    if bytes_len(&bytes) == 0 {
                        body.feed_eof();
                        return Ok(DecodeState::Eof);
                    }
                    body.feed_data(bytes);
                    proof {
                        k = k + d.used;
                    }
                },
            }
        }
    }

    /// Whether the service is ready for more of the body. Where the
    /// receiver is gone, an unknown rest of the body remains on the wire,
    /// and the connection is to be closed after the response.
    pub fn ready<const HEADER_LIMIT: usize>(
        &self,
        body: &RequestBody,
        ctx: &mut Context<HEADER_LIMIT>,
    ) -> (r: Readiness)
        ensures
            r == body@.producer_ready(),
            final(ctx).expect == old(ctx).expect,
            final(ctx).version == old(ctx).version,
            final(ctx).ctype == if r == Readiness::Closed {
                ConnectionType::Close
            } else {
                old(ctx).ctype
            },
    {
        let r: Readiness = body.poll_ready();
        match r {
            Readiness::Closed => {
                ctx.set_ctype(ConnectionType::Close);
            },
            _ => {},
        }
        r
    }

    /// Whether the service has begun to read the body. A receiver that goes
    /// before it has read leaves nothing on the wire, since the peer waits
    /// for `100 Continue`: the connection type stays.
    pub fn wait_for_poll(&self, body: &RequestBody) -> (r: Readiness)
        ensures
            r == body@.polled(),
    {
        body.poll_wait_for_poll()
    }
}

} // verus!
