//! The two buffers of a connection, and what each outcome of the
//! transport does to them.

use vstd::prelude::*;
use crate::body::{Readiness, RequestBody, RequestBodyHandle};
use crate::buf::{ReadBuf, WriteBuf};
use crate::context::{ConnectionType, Context};
use crate::error::IoKind;

verus! {

/// What a non-blocking read of the transport came to.
#[derive(Debug)]
pub enum ReadOutcome<'a> {
    /// These bytes were read; none, where the peer has closed.
    Data(&'a [u8]),
    /// Nothing is there to read yet.
    WouldBlock,
    /// The read failed.
    Failed(IoKind),
}

/// What a non-blocking write of the transport came to.
#[derive(Clone, Copy, Debug, PartialEq, Eq, Structural)]
pub enum WriteOutcome {
    /// This many bytes were taken from the front of what was offered.
    Written(usize),
    /// Nothing can be written yet.
    WouldBlock,
    /// The write failed.
    Failed(IoKind),
}

/// Whether a run of reads or writes goes on.
#[derive(Clone, Copy, Debug, PartialEq, Eq, Structural)]
pub enum Progress {
    /// One more read or write is to be tried.
    Again,
    /// The run is over.
    Done,
}

/// The events of the transport to wait for.
#[derive(Clone, Copy, Debug, PartialEq, Eq, Structural)]
pub struct Interest {
    pub readable: bool,
    pub writable: bool,
}

/// The events of the transport that have come.
#[derive(Clone, Copy, Debug, PartialEq, Eq, Structural)]
pub struct Ready {
    pub readable: bool,
    pub writable: bool,
}

/// What to wait for while a request body is fed and a response is written.
#[derive(Clone, Copy, Debug, PartialEq, Eq, Structural)]
pub enum Await {
    /// For the service to take what was fed of the request body.
    Body,
    /// For that, or for the transport to be writable, whichever is first.
    BodyOrWritable,
    /// For these events of the transport.
    Io(Interest),
}

/// What `ready` answers: the service comes first, since nothing is read
/// ahead of it; then the transport, for reading, and for writing too where
/// bytes wait to be written.
pub open spec fn awaited(want_write: bool, body: Readiness) -> Result<Await, IoKind> {
    match body {
        Readiness::Closed => Err(IoKind::BodyDropped),
        Readiness::Pending => if want_write {
            Ok(Await::BodyOrWritable)
        } else {
            Ok(Await::Body)
        },
        Readiness::Ready => Ok(Await::Io(Interest { readable: true, writable: want_write })),
    }
}

/// The read buffer after the outcome `res` of one read, and whether reading
/// goes on.
///
/// Bytes are appended, and reading goes on unless the buffer is full then.
/// A read of no bytes is an unexpected end of the stream. More bytes than
/// the buffer has room for are refused. A read that would block ends the
/// run.
pub open spec fn read_step(unread: Seq<u8>, limit: nat, res: ReadOutcome<'_>) -> (
    Seq<u8>,
    Result<Progress, IoKind>,
) {
    match res {
        ReadOutcome::Data(bytes) => if bytes@.len() == 0 {
            (unread, Err(IoKind::UnexpectedEof))
        } else if bytes@.len() > limit - unread.len() {
            (unread, Err(IoKind::Overrun))
        } else {
            (
                unread + bytes@,
                Ok(
                    if unread.len() + bytes@.len() >= limit {
                        Progress::Done
                    } else {
                        Progress::Again
                    },
                ),
            )
        },
        ReadOutcome::WouldBlock => (unread, Ok(Progress::Done)),
        ReadOutcome::Failed(e) => (unread, Err(e)),
    }
}

/// The write buffer after the outcome `res` of one write of its front, and
/// whether writing goes on.
///
/// What was written leaves the buffer, and writing goes on while bytes are
/// left. A write of no bytes means that the transport is closed. More bytes
/// than the buffer holds are refused. A write that would block ends the run
/// and leaves the rest for the next.
pub open spec fn write_step(unwritten: Seq<u8>, res: WriteOutcome) -> (
    Seq<u8>,
    Result<Progress, IoKind>,
) {
    match res {
        WriteOutcome::Written(n) => if n == 0 {
            (unwritten, Err(IoKind::WriteZero))
        } else if n > unwritten.len() {
            (unwritten, Err(IoKind::Overrun))
        } else {
            (
                unwritten.skip(n as int),
                Ok(
                    if unwritten.len() > n {
                        Progress::Again
                    } else {
                        Progress::Done
                    },
                ),
            )
        },
        WriteOutcome::WouldBlock => (unwritten, Ok(Progress::Done)),
        WriteOutcome::Failed(e) => (unwritten, Err(e)),
    }
}

/// The read buffer and the write buffer of one connection.
pub struct BufferedIo<const READ_BUF_LIMIT: usize, const WRITE_BUF_LIMIT: usize> {
    pub read_buf: ReadBuf<READ_BUF_LIMIT>,
    pub write_buf: WriteBuf<WRITE_BUF_LIMIT>,
}

impl<const READ_BUF_LIMIT: usize, const WRITE_BUF_LIMIT: usize> BufferedIo<
    READ_BUF_LIMIT,
    WRITE_BUF_LIMIT,
> {
    /// The invariant of both buffers. The read buffer holds no more than
    /// its limit.
    pub open spec fn inv(&self) -> bool {
        self.read_buf.inv() && self.write_buf.inv()
    }

    /// Two empty buffers; the write buffer keeps a queue of chunks if
    /// `vectored`.
    pub fn new(vectored: bool) -> (r: Self)
        ensures
            r.inv(),
            r.read_buf@ == Seq::<u8>::empty(),
            r.write_buf@ == Seq::<u8>::empty(),
            r.write_buf.is_list() == vectored,
    {
        BufferedIo { read_buf: ReadBuf::new(), write_buf: WriteBuf::new(vectored) }
    }

    /// How many bytes the next read may ask for. At zero no read is to be
    /// tried: the read buffer is full.
    pub fn read_window(&self) -> (n: usize)
        requires
            self.inv(),
        ensures
            n == READ_BUF_LIMIT - self.read_buf@.len(),
    {
        self.read_buf.spare()
    }

    /// Takes the outcome of one read into the read buffer.
    pub fn try_read(&mut self, res: ReadOutcome<'_>) -> (r: Result<Progress, IoKind>)
        requires
            old(self).inv(),
        ensures
            final(self).inv(),
            final(self).write_buf == old(self).write_buf,
            read_step(old(self).read_buf@, READ_BUF_LIMIT as nat, res) == (final(self).read_buf@, r),
    {
        match res {
            ReadOutcome::Data(bytes) => {
                if bytes.len() == 0 {
                    Err(IoKind::UnexpectedEof)
                } else if bytes.len() > self.read_buf.spare() {
                    Err(IoKind::Overrun)
                } else {
                    let n: usize = self.read_buf.fill(bytes);
                    assert(bytes@.take(n as int) =~= bytes@);
                    if self.read_buf.backpressure() {
                        Ok(Progress::Done)
                    } else {
                        Ok(Progress::Again)
                    }
                }
            },
            ReadOutcome::WouldBlock => Ok(Progress::Done),
            ReadOutcome::Failed(e) => Err(e),
        }
    }

    /// Takes the outcome of one write of the front of the write buffer.
    pub fn try_write(&mut self, res: WriteOutcome) -> (r: Result<Progress, IoKind>)
        requires
            old(self).inv(),
        ensures
            final(self).inv(),
            final(self).read_buf == old(self).read_buf,
            final(self).write_buf.is_list() == old(self).write_buf.is_list(),
            write_step(old(self).write_buf@, res) == (final(self).write_buf@, r),
    {
        match res {
            WriteOutcome::Written(n) => {
                if n == 0 {
                    Err(IoKind::WriteZero)
                } else if !self.holds(n) {
                    Err(IoKind::Overrun)
                } else {
                    self.write_buf.advance(n);
                    if self.write_buf.want_write() {
                        Ok(Progress::Again)
                    } else {
                        Ok(Progress::Done)
                    }
                }
            },
            WriteOutcome::WouldBlock => Ok(Progress::Done),
            WriteOutcome::Failed(e) => Err(e),
        }
    }

    /// Whether the write buffer holds at least `n` bytes.
    fn holds(&self, n: usize) -> (r: bool)
        requires
            self.inv(),
        ensures
            r == (n <= self.write_buf@.len()),
    {
        self.write_buf.holds(n)
    }

    /// Whether bytes wait to be written. Draining repeats writes while this
    /// holds; a write that is only tried where bytes wait never ends
    /// otherwise.
    pub fn want_write(&self) -> (r: bool)
        requires
            self.inv(),
        ensures
            r == (self.write_buf@.len() > 0),
    {
        self.write_buf.want_write()
    }

    /// What to wait for before more of the request body is read.
    ///
    /// Where the receiver of the body is gone, the connection is to be
    /// closed after the response, and the answer is an error.
    pub fn ready<const HEADER_LIMIT: usize>(
        &self,
        handle: &RequestBodyHandle,
        body: &RequestBody,
        ctx: &mut Context<HEADER_LIMIT>,
    ) -> (r: Result<Await, IoKind>)
        requires
            self.inv(),
        ensures
            r == awaited(self.write_buf@.len() > 0, body@.producer_ready()),
            final(ctx).expect == old(ctx).expect,
            final(ctx).version == old(ctx).version,
            final(ctx).ctype == if r is Err {
                ConnectionType::Close
            } else {
                old(ctx).ctype
            },
    {
        let want: bool = self.write_buf.want_write();
        match handle.ready(body, ctx) {
            Readiness::Closed => Err(IoKind::BodyDropped),
            Readiness::Pending => if want {
                Ok(Await::BodyOrWritable)
            } else {
                Ok(Await::Body)
            },
            Readiness::Ready => Ok(Await::Io(Interest { readable: true, writable: want })),
        }
    }
}

} // verus!
