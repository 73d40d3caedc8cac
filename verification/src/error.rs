//! The errors of the protocol layer.

use vstd::prelude::*;

verus! {

/// Why a request head was rejected.
#[derive(Clone, Copy, Debug, PartialEq, Eq, Structural)]
pub enum Parse {
    /// The request line or a header line is malformed.
    Malformed,
    /// A header holds a value that it does not admit.
    HeaderValue,
    /// The head has more headers than there are slots, or fills the read
    /// buffer without being complete.
    HeaderTooLarge,
    /// Two headers of the head disagree about the framing of the body.
    Framing,
}

/// Why the chunked framing of a body was rejected.
#[derive(Clone, Copy, Debug, PartialEq, Eq, Structural)]
pub enum ChunkError {
    /// The size line is malformed.
    Size,
    /// The size does not fit in 64 bits.
    Overflow,
    /// The data of a chunk is not followed by CR LF.
    DataEnd,
    /// The trailer section is malformed.
    Trailer,
}

/// A violation of the protocol by the peer.
#[derive(Clone, Copy, Debug, PartialEq, Eq, Structural)]
pub enum ProtoError {
    /// The request head is malformed or too large.
    Parse(Parse),
    /// The framing of the request body is malformed.
    Chunk(ChunkError),
}

/// The kind of a failure of the transport.
#[derive(Clone, Copy, Debug, PartialEq, Eq, Structural)]
pub enum IoKind {
    /// The peer closed the connection: a read of no bytes.
    UnexpectedEof,
    /// The transport takes no more bytes: a write of no bytes.
    WriteZero,
    /// The receiver of the request body is gone.
    BodyDropped,
    /// More bytes were reported than were asked for or offered.
    Overrun,
    /// Any other failure.
    Other,
}

/// What went wrong while a request body was produced or consumed.
#[derive(Clone, Copy, Debug, PartialEq, Eq, Structural)]
pub enum BodyError {
    /// The transport failed, or the receiver of the body is gone.
    Io(IoKind),
}

/// Why a connection ended. `SE` is the error of the service, `BE` that of
/// the response body.
#[derive(Debug)]
pub enum Error<SE, BE> {
    /// The peer closed the connection.
    Closed,
    /// The keep-alive deadline passed.
    KeepAliveExpire,
    /// The transport failed.
    Io(IoKind),
    /// The peer violated the protocol.
    Proto(ProtoError),
    /// The service failed.
    Service(SE),
    /// The response body failed.
    Body(BE),
}

/// The error that a failure of the transport stands for: the end of the
/// stream in either direction is a closed connection.
pub open spec fn io_error<SE, BE>(kind: IoKind) -> Error<SE, BE> {
    match kind {
        IoKind::UnexpectedEof => Error::Closed,
        IoKind::WriteZero => Error::Closed,
        _ => Error::Io(kind),
    }
}

impl<SE, BE> Error<SE, BE> {
    /// Computes `io_error`.
    pub fn from_io(kind: IoKind) -> (r: Self)
        ensures
            r == io_error::<SE, BE>(kind),
    {
        match kind {
            IoKind::UnexpectedEof => Error::Closed,
            IoKind::WriteZero => Error::Closed,
            _ => Error::Io(kind),
        }
    }
}

/// What the connection's end means to the server: a closed connection and
/// an expired keep-alive deadline are a regular end.
pub open spec fn outcome<SE, BE>(res: Result<(), Error<SE, BE>>) -> Result<(), Error<SE, BE>> {
    match res {
        Ok(()) => Ok(()),
        Err(Error::Closed) => Ok(()),
        Err(Error::KeepAliveExpire) => Ok(()),
        Err(e) => Err(e),
    }
}

/// The layer that an error of the HTTP service comes from.
#[derive(Debug)]
pub enum HttpServiceError<SE> {
    /// The service was not ready.
    ServiceReady,
    /// The service failed.
    Service(SE),
    /// A body failed.
    Body(BodyError),
}

impl<SE> From<BodyError> for HttpServiceError<SE> {
    fn from(e: BodyError) -> (r: Self) {
        HttpServiceError::Body(e)
    }
}

impl<SE> vstd::std_specs::convert::FromSpecImpl<BodyError> for HttpServiceError<SE> {
    open spec fn obeys_from_spec() -> bool {
        true
    }

    open spec fn from_spec(e: BodyError) -> Self {
        HttpServiceError::Body(e)
    }
}

impl From<IoKind> for BodyError {
    fn from(kind: IoKind) -> (r: Self) {
        BodyError::Io(kind)
    }
}

impl vstd::std_specs::convert::FromSpecImpl<IoKind> for BodyError {
    open spec fn obeys_from_spec() -> bool {
        true
    }

    open spec fn from_spec(kind: IoKind) -> Self {
        BodyError::Io(kind)
    }
}

} // verus!
