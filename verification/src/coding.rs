//! Transfer codings: the framing of a message body on the wire.

use vstd::prelude::*;
use bytes::Bytes;
use crate::ascii::{hex_digit, hex_digits, hex_value, push_hex};
use crate::buf::{ReadBuf, WriteBuf};
use crate::bytes_spec::{bytes_len, bytes_new, bytes_split_to, shared_bytes};
use crate::error::{ChunkError, ProtoError};

verus! {

/// Where the decoder of a chunked body stands.
#[derive(Clone, Copy, Debug, PartialEq, Eq, Structural)]
pub enum ChunkedState {
    /// Before the first digit of a chunk's size.
    Size,
    /// Inside the digits of a chunk's size.
    SizeDigits,
    /// In the whitespace behind the size.
    SizeLws,
    /// Inside a chunk extension, which is skipped.
    Extension,
    /// Behind the CR that ends the size line.
    SizeLf,
    /// Inside the data of a chunk.
    Body,
    /// Behind the data of a chunk, before its CR.
    BodyCr,
    /// Behind the CR that follows the data of a chunk.
    BodyLf,
    /// Behind the size line of the last chunk, or behind a trailer line.
    EndCr,
    /// Behind the CR that begins the final line ending.
    EndLf,
    /// Inside a trailer line, which is skipped.
    Trailer,
    /// Behind the CR that ends a trailer line.
    TrailerLf,
    /// Behind the last byte of the body.
    End,
}

/// The framing of a body in either direction, with the state of its decoder.
#[derive(Clone, Copy, Debug, PartialEq, Eq, Structural)]
pub enum TransferCoding {
    /// No body, or a body that has ended.
    Eof,
    /// A body of fixed length, of which this many bytes are still to come.
    Length(u64),
    /// A chunked body; when decoding, the state of the chunk parser and the
    /// part of the current chunk's size that is read or still to come.
    Chunked(ChunkedState, u64),
    /// Bytes passed through unframed after an upgrade.
    Upgrade,
}

pub open spec fn cr() -> u8 {
    13
}

pub open spec fn lf() -> u8 {
    10
}

/// The line ending CR LF.
pub open spec fn crlf() -> Seq<u8> {
    seq![13u8, 10u8]
}

/// The bytes `0 CR LF CR LF` that end a chunked body.
pub open spec fn last_chunk() -> Seq<u8> {
    seq![48u8, 13u8, 10u8, 13u8, 10u8]
}

/// The chunk parser's move on one byte of framing. In state `Body` it is
/// taken only once the chunk's data is complete; in `End` never.
#[verifier::opaque]
pub open spec fn chunk_step(state: ChunkedState, size: u64, b: u8) -> Result<
    (ChunkedState, u64),
    ChunkError,
> {
    match state {
        ChunkedState::Size => match hex_value(b) {
            Some(d) => Ok((ChunkedState::SizeDigits, d as u64)),
            None => Err(ChunkError::Size),
        },
        ChunkedState::SizeDigits => match hex_value(b) {
            Some(d) => if size > (u64::MAX - d) / 16 {
                Err(ChunkError::Overflow)
            } else {
                Ok((ChunkedState::SizeDigits, (size * 16 + d) as u64))
            },
            None => if b == 32 || b == 9 {
                Ok((ChunkedState::SizeLws, size))
            } else if b == 59 {
                Ok((ChunkedState::Extension, size))
            } else if b == 13 {
                Ok((ChunkedState::SizeLf, size))
            } else {
                Err(ChunkError::Size)
            },
        },
        ChunkedState::SizeLws => if b == 32 || b == 9 {
            Ok((ChunkedState::SizeLws, size))
        } else if b == 59 {
            Ok((ChunkedState::Extension, size))
        } else if b == 13 {
            Ok((ChunkedState::SizeLf, size))
        } else {
            Err(ChunkError::Size)
        },
        ChunkedState::Extension => if b == 13 {
            Ok((ChunkedState::SizeLf, size))
        } else if b == 10 {
            Err(ChunkError::Size)
        } else {
            Ok((ChunkedState::Extension, size))
        },
        ChunkedState::SizeLf => if b == 10 {
            if size == 0 {
                Ok((ChunkedState::EndCr, 0))
            } else {
                Ok((ChunkedState::Body, size))
            }
        } else {
            Err(ChunkError::Size)
        },
        ChunkedState::Body | ChunkedState::BodyCr => if b == 13 {
            Ok((ChunkedState::BodyLf, 0))
        } else {
            Err(ChunkError::DataEnd)
        },
        ChunkedState::BodyLf => if b == 10 {
            Ok((ChunkedState::Size, 0))
        } else {
            Err(ChunkError::DataEnd)
        },
        ChunkedState::EndCr => if b == 13 {
            Ok((ChunkedState::EndLf, 0))
        } else {
            Ok((ChunkedState::Trailer, 0))
        },
        ChunkedState::EndLf => if b == 10 {
            Ok((ChunkedState::End, 0))
        } else {
            Err(ChunkError::Trailer)
        },
        ChunkedState::Trailer => if b == 13 {
            Ok((ChunkedState::TrailerLf, 0))
        } else {
            Ok((ChunkedState::Trailer, 0))
        },
        ChunkedState::TrailerLf => if b == 10 {
            Ok((ChunkedState::EndCr, 0))
        } else {
            Err(ChunkError::Trailer)
        },
        ChunkedState::End => Ok((ChunkedState::End, 0)),
    }
}

/// Computes `chunk_step`.
pub fn step_chunk(state: ChunkedState, size: u64, b: u8) -> (r: Result<
    (ChunkedState, u64),
    ChunkError,
>)
    ensures
        r == chunk_step(state, size, b),
{
    reveal(chunk_step);
    match state {
        ChunkedState::Size => match hex_digit(b) {
            Some(d) => Ok((ChunkedState::SizeDigits, d as u64)),
            None => Err(ChunkError::Size),
        },
        ChunkedState::SizeDigits => match hex_digit(b) {
            Some(d) => if size > (u64::MAX - d as u64) / 16 {
                Err(ChunkError::Overflow)
            } else {
                Ok((ChunkedState::SizeDigits, size * 16 + d as u64))
            },
            None => if b == 32 || b == 9 {
                Ok((ChunkedState::SizeLws, size))
            } else if b == 59 {
                Ok((ChunkedState::Extension, size))
            } else if b == 13 {
                Ok((ChunkedState::SizeLf, size))
            } else {
                Err(ChunkError::Size)
            },
        },
        ChunkedState::SizeLws => if b == 32 || b == 9 {
            Ok((ChunkedState::SizeLws, size))
        } else if b == 59 {
            Ok((ChunkedState::Extension, size))
        } else if b == 13 {
            Ok((ChunkedState::SizeLf, size))
        } else {
            Err(ChunkError::Size)
        },
        ChunkedState::Extension => if b == 13 {
            Ok((ChunkedState::SizeLf, size))
        } else if b == 10 {
            Err(ChunkError::Size)
        } else {
            Ok((ChunkedState::Extension, size))
        },
        ChunkedState::SizeLf => if b == 10 {
            if size == 0 {
                Ok((ChunkedState::EndCr, 0))
            } else {
                Ok((ChunkedState::Body, size))
            }
        } else {
            Err(ChunkError::Size)
        },
        ChunkedState::Body | ChunkedState::BodyCr => if b == 13 {
            Ok((ChunkedState::BodyLf, 0))
        } else {
            Err(ChunkError::DataEnd)
        },
        ChunkedState::BodyLf => if b == 10 {
            Ok((ChunkedState::Size, 0))
        } else {
            Err(ChunkError::DataEnd)
        },
        ChunkedState::EndCr => if b == 13 {
            Ok((ChunkedState::EndLf, 0))
        } else {
            Ok((ChunkedState::Trailer, 0))
        },
        ChunkedState::EndLf => if b == 10 {
            Ok((ChunkedState::End, 0))
        } else {
            Err(ChunkError::Trailer)
        },
        ChunkedState::Trailer => if b == 13 {
            Ok((ChunkedState::TrailerLf, 0))
        } else {
            Ok((ChunkedState::Trailer, 0))
        },
        ChunkedState::TrailerLf => if b == 10 {
            Ok((ChunkedState::EndCr, 0))
        } else {
            Err(ChunkError::Trailer)
        },
        ChunkedState::End => Ok((ChunkedState::End, 0)),
    }
}

/// What one call of the decoder makes of its input.
pub struct Decoded {
    /// The coding after the call.
    pub coding: TransferCoding,
    /// How many bytes of the input were consumed.
    pub used: nat,
    /// The chunk handed out: `Some` of the empty sequence where the body has
    /// ended, `None` where more input is needed.
    pub out: Result<Option<Seq<u8>>, ProtoError>,
}

/// One call of the chunked decoder in state `state` with `size`, on `input`:
/// framing is consumed up to the next run of chunk data, which is handed
/// out as far as the input holds it, or up to the end of the body, or up to
/// the end of the input.
pub open spec fn chunked_decoded(state: ChunkedState, size: u64, input: Seq<u8>) -> Decoded
    decreases input.len(),
{
    if state is End {
        Decoded { coding: TransferCoding::Eof, used: 0, out: Ok(Some(Seq::empty())) }
    } else if input.len() == 0 {
        Decoded { coding: TransferCoding::Chunked(state, size), used: 0, out: Ok(None) }
    } else if state is Body && size > 0 {
        let k = if size <= input.len() {
            size as nat
        } else {
            input.len()
        };
        let rest = (size - k) as u64;
        Decoded {
            coding: TransferCoding::Chunked(
                if rest == 0 {
                    ChunkedState::BodyCr
                } else {
                    ChunkedState::Body
                },
                rest,
            ),
            used: k,
            out: Ok(Some(input.take(k as int))),
        }
    } else {
        match chunk_step(state, size, input[0]) {
            Err(e) => Decoded {
                coding: TransferCoding::Chunked(state, size),
                used: 0,
                out: Err(ProtoError::Chunk(e)),
            },
            Ok((state2, size2)) => {
                let d = chunked_decoded(state2, size2, input.skip(1));
                if d.out is Err {
                    Decoded { coding: TransferCoding::Chunked(state, size), used: 0, out: d.out }
                } else {
                    Decoded { coding: d.coding, used: d.used + 1, out: d.out }
                }
            },
        }
    }
}

/// One call of the decoder of `coding` on `input`.
///
/// A body of fixed length hands out what the input holds of it and, once
/// nothing is left to come, the empty chunk that marks its end. An upgraded
/// connection hands out all input and never ends. Without a body nothing is
/// consumed or handed out. A malformed chunked body is an error, on which
/// nothing is consumed.
pub open spec fn decoded(coding: TransferCoding, input: Seq<u8>) -> Decoded {
    match coding {
        TransferCoding::Eof => Decoded { coding, used: 0, out: Ok(None) },
        TransferCoding::Length(n) => if n == 0 {
            Decoded { coding: TransferCoding::Eof, used: 0, out: Ok(Some(Seq::empty())) }
        } else if input.len() == 0 {
            Decoded { coding, used: 0, out: Ok(None) }
        } else {
            let k = if n <= input.len() {
                n as nat
            } else {
                input.len()
            };
            Decoded {
                coding: TransferCoding::Length((n - k) as u64),
                used: k,
                out: Ok(Some(input.take(k as int))),
            }
        },
        TransferCoding::Chunked(state, size) => chunked_decoded(state, size, input),
        TransferCoding::Upgrade => if input.len() == 0 {
            Decoded { coding, used: 0, out: Ok(None) }
        } else {
            Decoded { coding, used: input.len(), out: Ok(Some(input)) }
        },
    }
}

/// The chunk of a decoder's result, by the bytes it holds.
pub open spec fn chunk_view(r: Result<Option<Bytes>, ProtoError>) -> Result<
    Option<Seq<u8>>,
    ProtoError,
> {
    match r {
        Ok(Some(b)) => Ok(Some(shared_bytes(b))),
        Ok(None) => Ok(None),
        Err(e) => Err(e),
    }
}

/// A call of the decoder consumes no more than the input holds, and what it
/// hands out is part of what it consumed.
pub proof fn lemma_chunked_decoded_bounds(state: ChunkedState, size: u64, input: Seq<u8>)
    ensures
        chunked_decoded(state, size, input).used <= input.len(),
        chunked_decoded(state, size, input).out matches Ok(Some(c)) ==> c.len() <= chunked_decoded(
            state,
            size,
            input,
        ).used && c == input.subrange(
            chunked_decoded(state, size, input).used - c.len(),
            chunked_decoded(state, size, input).used as int,
        ),
    decreases input.len(),
{
    if state is End {
        assert(input.subrange(0, 0) =~= Seq::<u8>::empty());
    } else if input.len() == 0 {
    } else if state is Body && size > 0 {
        let d = chunked_decoded(state, size, input);
        assert(input.take(d.used as int) =~= input.subrange(0, d.used as int));
    } else {
        match chunk_step(state, size, input[0]) {
            Err(e) => {},
            Ok((state2, size2)) => {
                lemma_chunked_decoded_bounds(state2, size2, input.skip(1));
                let d = chunked_decoded(state2, size2, input.skip(1));
                if let Ok(Some(c)) = d.out {
                    assert(input.skip(1).subrange(d.used - c.len(), d.used as int) =~= input.subrange(
                        d.used + 1 - c.len(),
                        (d.used + 1) as int,
                    ));
                }
            },
        }
    }
}

/// A call of the decoder consumes no more than the input holds, and a
/// chunk that it hands out is no longer than what it consumed.
pub proof fn lemma_decoded_bounds(coding: TransferCoding, input: Seq<u8>)
    ensures
        decoded(coding, input).used <= input.len(),
        decoded(coding, input).out matches Ok(Some(c)) ==> c.len() <= decoded(coding, input).used,
{
    match coding {
        TransferCoding::Chunked(state, size) => {
            lemma_chunked_decoded_bounds(state, size, input);
        },
        _ => {},
    }
}

/// A call of the chunked decoder that hands out nothing has consumed all
/// of its input.
pub proof fn lemma_chunked_decoded_none(state: ChunkedState, size: u64, input: Seq<u8>)
    ensures
        chunked_decoded(state, size, input).out == Ok::<Option<Seq<u8>>, ProtoError>(None)
            ==> chunked_decoded(state, size, input).used == input.len(),
    decreases input.len(),
{
    if !(state is End) && input.len() > 0 && !(state is Body && size > 0) {
        match chunk_step(state, size, input[0]) {
            Err(e) => {},
            Ok((state2, size2)) => {
                lemma_chunked_decoded_none(state2, size2, input.skip(1));
            },
        }
    }
}

/// A call of the decoder of a body that hands out nothing has consumed all
/// of its input: what is left in a buffer is never part of the body.
pub proof fn lemma_decoded_none(coding: TransferCoding, input: Seq<u8>)
    requires
        !(coding is Eof),
    ensures
        decoded(coding, input).out == Ok::<Option<Seq<u8>>, ProtoError>(None) ==> decoded(
            coding,
            input,
        ).used == input.len() && !(decoded(coding, input).coding is Eof),
        decoded(coding, input).out matches Ok(Some(c)) && c.len() > 0 ==> !(decoded(
            coding,
            input,
        ).coding is Eof),
{
    match coding {
        TransferCoding::Chunked(state, size) => {
            lemma_chunked_decoded_none(state, size, input);
            lemma_chunked_decoded_coding(state, size, input);
        },
        _ => {},
    }
}

/// A call of the chunked decoder leaves a chunked coding unless it hands
/// out the end of the body.
pub proof fn lemma_chunked_decoded_coding(state: ChunkedState, size: u64, input: Seq<u8>)
    ensures
        chunked_decoded(state, size, input).coding is Eof ==> chunked_decoded(state, size, input).out
            == Ok::<Option<Seq<u8>>, ProtoError>(Some(Seq::empty())),
    decreases input.len(),
{
    if !(state is End) && input.len() > 0 && !(state is Body && size > 0) {
        match chunk_step(state, size, input[0]) {
            Err(e) => {},
            Ok((state2, size2)) => {
                lemma_chunked_decoded_coding(state2, size2, input.skip(1));
            },
        }
    }
}

/// The result of a call that went `i` bytes of framing into the input
/// before it came to `d`, having begun with the coding `start`.
pub open spec fn shifted(d: Decoded, i: nat, start: TransferCoding) -> Decoded {
    if d.out is Err {
        Decoded { coding: start, used: 0, out: d.out }
    } else {
        Decoded { coding: d.coding, used: d.used + i, out: d.out }
    }
}

/// Goes through the framing at the front of `bytes` up to the next run of
/// chunk data, the end of the body or the end of the input, and returns how
/// far that is and the parser's state there.
fn scan_framing(bytes: &[u8], state0: ChunkedState, size0: u64) -> (r: Result<
    (usize, ChunkedState, u64),
    ChunkError,
>)
    ensures
        match r {
            Err(e) => chunked_decoded(state0, size0, bytes@) == (Decoded {
                coding: TransferCoding::Chunked(state0, size0),
                used: 0,
                out: Err(ProtoError::Chunk(e)),
            }),
            Ok((i, state, size)) => {
                &&& i <= bytes@.len()
                &&& state is End || i == bytes@.len() || (state is Body && size > 0)
                &&& chunked_decoded(state, size, bytes@.skip(i as int)).out is Ok
                &&& chunked_decoded(state0, size0, bytes@) == shifted(
                    chunked_decoded(state, size, bytes@.skip(i as int)),
                    i as nat,
                    TransferCoding::Chunked(state0, size0),
                )
            },
        },
{
    let ghost input = bytes@;
    let n: usize = bytes.len();
    let mut state: ChunkedState = state0;
    let mut size: u64 = size0;
    let mut i: usize = 0;
    assert(input.skip(0) =~= input);
    loop
        invariant
            n == input.len(),
            bytes@ == input,
            0 <= i <= n,
            chunked_decoded(state0, size0, input) == shifted(
                chunked_decoded(state, size, input.skip(i as int)),
                i as nat,
                TransferCoding::Chunked(state0, size0),
            ),
        decreases n - i,
    {
        if state == ChunkedState::End || i == n || (state == ChunkedState::Body && size > 0) {
            return Ok((i, state, size));
        }
        assert(input.skip(i as int)[0] == input[i as int]);
        assert(input.skip(i as int).skip(1) =~= input.skip(i + 1));
        match step_chunk(state, size, bytes[i]) {
            Err(e) => {
                return Err(e);
            },
            Ok((state2, size2)) => {
                state = state2;
                size = size2;
                i = i + 1;
            },
        }
    }
}

impl TransferCoding {
    /// The coding of a message without a body.
    pub fn eof() -> (r: Self)
        ensures
            r == TransferCoding::Eof,
    {
        TransferCoding::Eof
    }

    /// The coding of a body of `n` bytes.
    pub fn length(n: u64) -> (r: Self)
        ensures
            r == TransferCoding::Length(n),
    {
        TransferCoding::Length(n)
    }

    /// The coding of a chunked body, before its first byte.
    pub fn chunked() -> (r: Self)
        ensures
            r == TransferCoding::Chunked(ChunkedState::Size, 0),
    {
        TransferCoding::Chunked(ChunkedState::Size, 0)
    }

    /// The coding of an upgraded connection.
    pub fn upgrade() -> (r: Self)
        ensures
            r == TransferCoding::Upgrade,
    {
        TransferCoding::Upgrade
    }

    /// Whether there is no body, or the body has ended.
    pub fn is_eof(&self) -> (r: bool)
        ensures
            r == (*self is Eof),
    {
        match self {
            TransferCoding::Eof => true,
            _ => false,
        }
    }

    /// Whether the bytes are passed through unframed.
    pub fn is_upgrade(&self) -> (r: bool)
        ensures
            r == (*self is Upgrade),
    {
        match self {
            TransferCoding::Upgrade => true,
            _ => false,
        }
    }

    /// Decodes the next chunk of the body from the front of `buf`.
    ///
    /// Returns `Some` of a chunk of body bytes, `Some` of the empty chunk
    /// where the body has ended, or `None` where the buffer holds no more
    /// of the body. What is consumed leaves the buffer.
    pub fn decode<const LIMIT: usize>(&mut self, buf: &mut ReadBuf<LIMIT>) -> (r: Result<
        Option<Bytes>,
        ProtoError,
    >)
        ensures
            *final(self) == decoded(*old(self), old(buf)@).coding,
            final(buf)@ == old(buf)@.skip(decoded(*old(self), old(buf)@).used as int),
            chunk_view(r) == decoded(*old(self), old(buf)@).out,
            old(buf).inv() ==> final(buf).inv(),
    {
        let ghost input = buf@;
        assert(input.skip(0) =~= input);
        let n: usize = buf.len();
        match *self {
            TransferCoding::Eof => Ok(None),
            TransferCoding::Length(rem) => {
                if rem == 0 {
                    *self = TransferCoding::Eof;
                    Ok(Some(bytes_new()))
                } else if n == 0 {
                    Ok(None)
                } else {
                    let k: usize = if rem <= n as u64 {
                        rem as usize
                    } else {
                        n
                    };
                    let chunk: Bytes = buf.split_to(k);
                    *self = TransferCoding::Length(rem - k as u64);
                    Ok(Some(chunk))
                }
            },
            TransferCoding::Upgrade => {
                if n == 0 {
                    Ok(None)
                } else {
                    let chunk: Bytes = buf.split_to(n);
                    assert(input.take(n as int) =~= input);
                    Ok(Some(chunk))
                }
            },
            TransferCoding::Chunked(state0, size0) => {
                let scanned = scan_framing(buf.as_slice(), state0, size0);
                match scanned {
                    Err(e) => Err(ProtoError::Chunk(e)),
                    Ok((i, state, size)) => {
                        buf.advance(i);
                        if state == ChunkedState::End {
                            *self = TransferCoding::Eof;
                            Ok(Some(bytes_new()))
                        } else if i == n {
                            *self = TransferCoding::Chunked(state, size);
                            Ok(None)
                        } else {
                            let avail: usize = n - i;
                            let k: usize = if size <= avail as u64 {
                                size as usize
                            } else {
                                avail
                            };
                            let chunk: Bytes = buf.split_to(k);
                            let rest: u64 = size - k as u64;
                            *self = TransferCoding::Chunked(
                                if rest == 0 {
                                    ChunkedState::BodyCr
                                } else {
                                    ChunkedState::Body
                                },
                                rest,
                            );
                            assert(input.skip(i as int).skip(k as int) =~= input.skip(i + k));
                            Ok(Some(chunk))
                        }
                    },
                }
            },
        }
    }

    /// What `encode` appends for `bytes`, and the coding it leaves.
    ///
    /// A body of fixed length takes no more than is still to come. A chunked
    /// body frames the bytes as one chunk: the length in hexadecimal, CR LF,
    /// the bytes, CR LF; of no bytes nothing is written, since an empty
    /// chunk would end the body. An upgraded connection takes the bytes as
    /// they are. Without a body the bytes are dropped.
    pub open spec fn encoded(self, bytes: Seq<u8>) -> (TransferCoding, Seq<u8>) {
        match self {
            TransferCoding::Eof => (self, Seq::empty()),
            TransferCoding::Length(n) => {
                let k = if n <= bytes.len() {
                    n as nat
                } else {
                    bytes.len()
                };
                (TransferCoding::Length((n - k) as u64), bytes.take(k as int))
            },
            TransferCoding::Chunked(_, _) => if bytes.len() == 0 {
                (self, Seq::empty())
            } else {
                (self, hex_digits(bytes.len()) + crlf() + bytes + crlf())
            },
            TransferCoding::Upgrade => (self, bytes),
        }
    }

    /// Encodes one chunk of the body behind what `write_buf` holds.
    pub fn encode<const LIMIT: usize>(&mut self, bytes: Bytes, write_buf: &mut WriteBuf<LIMIT>)
        requires
            old(write_buf).inv(),
        ensures
            final(write_buf).inv(),
            final(write_buf).is_list() == old(write_buf).is_list(),
            *final(self) == old(self).encoded(shared_bytes(bytes)).0,
            final(write_buf)@ == old(write_buf)@ + old(self).encoded(shared_bytes(bytes)).1,
    {
        let n: usize = bytes_len(&bytes);
        match *self {
            TransferCoding::Eof => {
                assert(write_buf@ + Seq::<u8>::empty() =~= write_buf@);
            },
            TransferCoding::Length(rem) => {
                if rem >= n as u64 {
                    *self = TransferCoding::Length(rem - n as u64);
                    assert(shared_bytes(bytes).take(n as int) =~= shared_bytes(bytes));
                    write_buf.push(bytes);
                } else {
                    let mut bytes: Bytes = bytes;
                    let front: Bytes = bytes_split_to(&mut bytes, rem as usize);
                    *self = TransferCoding::Length(0);
                    write_buf.push(front);
                }
            },
            TransferCoding::Chunked(_, _) => {
                if n == 0 {
                    assert(write_buf@ + Seq::<u8>::empty() =~= write_buf@);
                } else {
                    let mut head: Vec<u8> = Vec::new();
                    push_hex(&mut head, n as u64);
                    head.push(13);
                    head.push(10);
                    assert(head@ =~= hex_digits(n as nat) + crlf());
                    write_buf.extend_from_slice(head.as_slice());
                    write_buf.push(bytes);
                    let tail: [u8; 2] = [13, 10];
                    assert(tail@ =~= crlf());
                    write_buf.extend_from_slice(tail.as_slice());
                    assert(final(write_buf)@ =~= old(write_buf)@ + (hex_digits(n as nat) + crlf()
                        + shared_bytes(bytes) + crlf()));
                }
            },
            TransferCoding::Upgrade => {
                write_buf.push(bytes);
            },
        }
    }

    /// Whether `encode_eof` may be called: a body of fixed length has been
    /// encoded in full.
    pub open spec fn complete(self) -> bool {
        self matches TransferCoding::Length(n) ==> n == 0
    }

    /// Computes `complete`.
    pub fn is_complete(&self) -> (r: bool)
        ensures
            r == self.complete(),
    {
        match self {
            TransferCoding::Length(n) => *n == 0,
            _ => true,
        }
    }

    /// What `encode_eof` appends, and the coding it leaves: a chunked body
    /// ends with its last chunk; a body of fixed length ends without a byte;
    /// the other codings are left as they are.
    pub open spec fn ended(self) -> (TransferCoding, Seq<u8>) {
        match self {
            TransferCoding::Chunked(_, _) => (TransferCoding::Eof, last_chunk()),
            TransferCoding::Length(_) => (TransferCoding::Eof, Seq::empty()),
            TransferCoding::Eof => (TransferCoding::Eof, Seq::empty()),
            TransferCoding::Upgrade => (TransferCoding::Upgrade, Seq::empty()),
        }
    }

    /// Ends the body behind what `write_buf` holds.
    pub fn encode_eof<const LIMIT: usize>(&mut self, write_buf: &mut WriteBuf<LIMIT>)
        requires
            old(write_buf).inv(),
            old(self).complete(),
        ensures
            final(write_buf).inv(),
            final(write_buf).is_list() == old(write_buf).is_list(),
            *final(self) == old(self).ended().0,
            final(write_buf)@ == old(write_buf)@ + old(self).ended().1,
    {
        match *self {
            TransferCoding::Chunked(_, _) => {
                let tail: [u8; 5] = [48, 13, 10, 13, 10];
                assert(tail@ =~= last_chunk());
                write_buf.extend_from_slice(tail.as_slice());
                *self = TransferCoding::Eof;
            },
            TransferCoding::Length(_) => {
                *self = TransferCoding::Eof;
                assert(write_buf@ + Seq::<u8>::empty() =~= write_buf@);
            },
            _ => {
                assert(write_buf@ + Seq::<u8>::empty() =~= write_buf@);
            },
        }
    }
}

} // verus!
