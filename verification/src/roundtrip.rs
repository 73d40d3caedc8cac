//! What is encoded as a body decodes to that body.

use vstd::prelude::*;
use crate::ascii::{digit_byte, hex_digits, hex_value};
use crate::body::{fed, DecodeState, Fed, RequestBodyView};
use crate::coding::{
    chunk_step, chunked_decoded, crlf, decoded, last_chunk, shifted, ChunkedState, Decoded,
    TransferCoding,
};
use crate::error::ProtoError;

verus! {

/// What the encoder writes for the chunks `cs`, one after the other, and
/// the coding it is left with.
pub open spec fn encoded_all(coding: TransferCoding, cs: Seq<Seq<u8>>) -> (TransferCoding, Seq<u8>)
    decreases cs.len(),
{
    if cs.len() == 0 {
        (coding, Seq::empty())
    } else {
        let first = coding.encoded(cs[0]);
        let rest = encoded_all(first.0, cs.drop_first());
        (rest.0, first.1 + rest.1)
    }
}

/// What the encoder writes for a whole body: its chunks and its end.
pub open spec fn body_wire(coding: TransferCoding, cs: Seq<Seq<u8>>) -> Seq<u8> {
    encoded_all(coding, cs).1 + encoded_all(coding, cs).0.ended().1
}

/// The channel after the chunks `cs` were fed to it, the empty ones left
/// out.
pub open spec fn received(body: RequestBodyView, cs: Seq<Seq<u8>>) -> RequestBodyView
    decreases cs.len(),
{
    if cs.len() == 0 {
        body
    } else {
        received(
            if cs[0].len() == 0 {
                body
            } else {
                body.fed_data(cs[0])
            },
            cs.drop_first(),
        )
    }
}

/// The bytes of the chunks `cs`, one after the other.
pub open spec fn payload(cs: Seq<Seq<u8>>) -> Seq<u8>
    decreases cs.len(),
{
    if cs.len() == 0 {
        Seq::empty()
    } else {
        cs[0] + payload(cs.drop_first())
    }
}

/// Whether the parser is inside framing: not at the end of the body, and not
/// inside the data of a chunk.
spec fn framing(state: ChunkedState, size: u64) -> bool {
    !(state is End) && !(state is Body && size > 0)
}

/// The parser's state behind the framing bytes `s`, if they are framing
/// throughout and well-formed.
spec fn scanned(state: ChunkedState, size: u64, s: Seq<u8>) -> Option<(ChunkedState, u64)>
    decreases s.len(),
{
    if s.len() == 0 {
        Some((state, size))
    } else if !framing(state, size) {
        None
    } else {
        match chunk_step(state, size, s[0]) {
            Err(_) => None,
            Ok((a, b)) => scanned(a, b, s.skip(1)),
        }
    }
}

/// A call that fails consumes nothing and leaves the coding.
proof fn lemma_failed_shape(state: ChunkedState, size: u64, input: Seq<u8>)
    ensures
        chunked_decoded(state, size, input).out is Err ==> chunked_decoded(state, size, input).coding
            == TransferCoding::Chunked(state, size) && chunked_decoded(state, size, input).used == 0,
{
}

/// Framing in front of the input is gone through before the call comes to
/// what lies behind it.
proof fn lemma_scanned_then(
    state: ChunkedState,
    size: u64,
    s: Seq<u8>,
    tail: Seq<u8>,
    a: ChunkedState,
    b: u64,
)
    requires
        scanned(state, size, s) == Some((a, b)),
    ensures
        chunked_decoded(state, size, s + tail) == shifted(
            chunked_decoded(a, b, tail),
            s.len(),
            TransferCoding::Chunked(state, size),
        ),
    decreases s.len(),
{
    if s.len() == 0 {
        assert(s + tail =~= tail);
        lemma_failed_shape(state, size, tail);
    } else {
        let input = s + tail;
        assert(input[0] == s[0]);
        assert(input.skip(1) =~= s.skip(1) + tail);
        match chunk_step(state, size, s[0]) {
            Err(_) => {},
            Ok((c, d)) => {
                lemma_scanned_then(c, d, s.skip(1), tail, a, b);
            },
        }
    }
}

/// Going through two runs of framing is going through the first and then
/// the second.
proof fn lemma_scanned_concat(state: ChunkedState, size: u64, s1: Seq<u8>, s2: Seq<u8>)
    ensures
        scanned(state, size, s1 + s2) == match scanned(state, size, s1) {
            None => None,
            Some((a, b)) => scanned(a, b, s2),
        },
    decreases s1.len(),
{
    if s1.len() == 0 {
        assert(s1 + s2 =~= s2);
    } else {
        let s = s1 + s2;
        assert(s[0] == s1[0]);
        assert(s.skip(1) =~= s1.skip(1) + s2);
        if framing(state, size) {
            match chunk_step(state, size, s1[0]) {
                Err(_) => {},
                Ok((c, d)) => {
                    lemma_scanned_concat(c, d, s1.skip(1), s2);
                },
            }
        }
    }
}

/// The digits of `n` in base sixteen are read as `n`.
proof fn lemma_scanned_hex(n: nat)
    requires
        n <= u64::MAX,
    ensures
        scanned(ChunkedState::Size, 0, hex_digits(n)) == Some((ChunkedState::SizeDigits, n as u64)),
    decreases n,
{
    reveal(chunk_step);
    let d = n % 16;
    let last = seq![digit_byte(d)];
    assert(hex_value(digit_byte(d)) == Some(d as u8));
    assert(last.skip(1) =~= Seq::<u8>::empty());
    if n < 16 {
        assert(hex_digits(n) =~= last);
        assert(scanned(ChunkedState::SizeDigits, n as u64, last.skip(1)) == Some(
            (ChunkedState::SizeDigits, n as u64),
        ));
    } else {
        lemma_scanned_hex(n / 16);
        lemma_scanned_concat(ChunkedState::Size, 0, hex_digits(n / 16), last);
        assert(hex_digits(n) =~= hex_digits(n / 16) + last);
        let high = (n / 16) as u64;
        assert(high <= (u64::MAX - d) / 16);
        assert(chunk_step(ChunkedState::SizeDigits, high, digit_byte(d)) == Ok::<
            (ChunkedState, u64),
            crate::error::ChunkError,
        >((ChunkedState::SizeDigits, n as u64)));
        assert(scanned(ChunkedState::SizeDigits, n as u64, last.skip(1)) == Some(
            (ChunkedState::SizeDigits, n as u64),
        ));
    }
}

/// What stands in front of a chunk's size: nothing at the start of the
/// body, the CR LF of the chunk before otherwise.
spec fn lead(state: ChunkedState) -> Seq<u8> {
    if state is BodyCr {
        crlf()
    } else {
        Seq::empty()
    }
}

/// The size line of a chunk of `n` bytes leads into its data.
proof fn lemma_scanned_size_line(state: ChunkedState, n: nat)
    requires
        state is Size || state is BodyCr,
        1 <= n <= u64::MAX,
    ensures
        scanned(state, 0, lead(state) + hex_digits(n) + crlf()) == Some(
            (ChunkedState::Body, n as u64),
        ),
{
    reveal(chunk_step);
    lemma_scanned_hex(n);
    assert(hex_value(13) is None && hex_value(10) is None);
    // behind the digits: CR, LF
    assert(scanned(ChunkedState::SizeDigits, n as u64, crlf()) == Some(
        (ChunkedState::Body, n as u64),
    )) by {
        reveal_with_fuel(scanned, 3);
        assert(crlf().skip(1).skip(1) =~= Seq::<u8>::empty());
    }
    lemma_scanned_concat(ChunkedState::Size, 0, hex_digits(n), crlf());
    if state is BodyCr {
        assert(scanned(ChunkedState::BodyCr, 0, crlf()) == Some((ChunkedState::Size, 0u64))) by {
            reveal_with_fuel(scanned, 3);
            assert(crlf().skip(1).skip(1) =~= Seq::<u8>::empty());
        }
        lemma_scanned_concat(ChunkedState::BodyCr, 0, crlf(), hex_digits(n) + crlf());
        assert(crlf() + (hex_digits(n) + crlf()) =~= lead(state) + hex_digits(n) + crlf());
    } else {
        assert(lead(state) + hex_digits(n) + crlf() =~= hex_digits(n) + crlf());
    }
}

/// The last chunk leads to the end of the body.
proof fn lemma_scanned_end(state: ChunkedState)
    requires
        state is Size || state is BodyCr,
    ensures
        scanned(state, 0, lead(state) + last_chunk()) == Some((ChunkedState::End, 0u64)),
{
    reveal(chunk_step);
    assert(hex_value(48) == Some(0u8));
    assert(hex_value(13) is None && hex_value(10) is None);
    let s = last_chunk();
    assert(scanned(ChunkedState::Size, 0, s) == Some((ChunkedState::End, 0u64))) by {
        reveal_with_fuel(scanned, 6);
        assert(s.skip(1).skip(1).skip(1).skip(1).skip(1) =~= Seq::<u8>::empty());
    }
    if state is BodyCr {
        assert(scanned(ChunkedState::BodyCr, 0, crlf()) == Some((ChunkedState::Size, 0u64))) by {
            reveal_with_fuel(scanned, 3);
            assert(crlf().skip(1).skip(1) =~= Seq::<u8>::empty());
        }
        lemma_scanned_concat(ChunkedState::BodyCr, 0, crlf(), s);
    } else {
        assert(lead(state) + s =~= s);
    }
}

/// The frame of a chunk as the chunked coding writes it; nothing for an
/// empty chunk.
pub open spec fn chunk_frame(c: Seq<u8>) -> Seq<u8> {
    if c.len() == 0 {
        Seq::empty()
    } else {
        hex_digits(c.len()) + crlf() + c + crlf()
    }
}

/// The frames of the chunks `cs`, one after the other.
pub open spec fn frames(cs: Seq<Seq<u8>>) -> Seq<u8>
    decreases cs.len(),
{
    if cs.len() == 0 {
        Seq::empty()
    } else {
        chunk_frame(cs[0]) + frames(cs.drop_first())
    }
}

/// The chunked coding writes the frames of the chunks and stays as it is.
pub proof fn lemma_chunked_encoded(state: ChunkedState, size: u64, cs: Seq<Seq<u8>>)
    ensures
        encoded_all(TransferCoding::Chunked(state, size), cs) == (
            TransferCoding::Chunked(state, size),
            frames(cs),
        ),
    decreases cs.len(),
{
    if cs.len() > 0 {
        lemma_chunked_encoded(state, size, cs.drop_first());
    }
}

/// Whether each of the chunks has a length that fits in 64 bits.
pub open spec fn chunks_fit(cs: Seq<Seq<u8>>) -> bool {
    forall|i: int| 0 <= i < cs.len() ==> (#[trigger] cs[i]).len() <= u64::MAX
}

/// Decoding the frames of `cs` and the last chunk feeds `cs` and the end.
proof fn lemma_chunked_fed(state: ChunkedState, cs: Seq<Seq<u8>>, body: RequestBodyView)
    requires
        state is Size || state is BodyCr,
        chunks_fit(cs),
    ensures
        fed(TransferCoding::Chunked(state, 0), lead(state) + frames(cs) + last_chunk(), body) == (Fed {
            coding: TransferCoding::Eof,
            used: (lead(state) + frames(cs) + last_chunk()).len(),
            body: RequestBodyView { eof: true, ..received(body, cs) },
            out: Ok(DecodeState::Eof),
        }),
    decreases cs.len(),
{
    let input = lead(state) + frames(cs) + last_chunk();
    if cs.len() == 0 {
        assert(input =~= lead(state) + last_chunk());
        lemma_scanned_end(state);
        lemma_scanned_then(
            state,
            0,
            lead(state) + last_chunk(),
            Seq::empty(),
            ChunkedState::End,
            0,
        );
        assert(lead(state) + last_chunk() + Seq::<u8>::empty() =~= input);
        let d = decoded(TransferCoding::Chunked(state, 0), input);
        assert(d.out == Ok::<Option<Seq<u8>>, ProtoError>(Some(Seq::empty())));
    } else if cs[0].len() == 0 {
        assert(frames(cs) =~= frames(cs.drop_first()));
        assert(chunks_fit(cs.drop_first())) by {
            assert forall|i: int| 0 <= i < cs.drop_first().len() implies (
            #[trigger] cs.drop_first()[i]).len() <= u64::MAX by {
                assert(cs.drop_first()[i] == cs[i + 1]);
            }
        }
        lemma_chunked_fed(state, cs.drop_first(), body);
    } else {
        let c = cs[0];
        let n = c.len();
        let rest = cs.drop_first();
        let head = lead(state) + hex_digits(n) + crlf();
        let tail = c + (crlf() + frames(rest) + last_chunk());
        assert(input =~= head + tail);
        assert(cs[0].len() <= u64::MAX);
        lemma_scanned_size_line(state, n);
        lemma_scanned_then(state, 0, head, tail, ChunkedState::Body, n as u64);
        let inner = chunked_decoded(ChunkedState::Body, n as u64, tail);
        assert(tail.take(n as int) =~= c);
        assert(inner == (Decoded {
            coding: TransferCoding::Chunked(ChunkedState::BodyCr, 0),
            used: n,
            out: Ok(Some(c)),
        }));
        let d = decoded(TransferCoding::Chunked(state, 0), input);
        assert(d == (Decoded {
            coding: TransferCoding::Chunked(ChunkedState::BodyCr, 0),
            used: n + head.len(),
            out: Ok(Some(c)),
        }));
        let next = input.skip(d.used as int);
        assert(next =~= lead(ChunkedState::BodyCr) + frames(rest) + last_chunk());
        assert(chunks_fit(rest)) by {
            assert forall|i: int| 0 <= i < rest.len() implies (#[trigger] rest[i]).len()
                <= u64::MAX by {
                assert(rest[i] == cs[i + 1]);
            }
        }
        lemma_chunked_fed(ChunkedState::BodyCr, rest, body.fed_data(c));
        assert(d.used + next.len() == input.len());
    }
}

/// A channel whose receiver is there holds, behind the chunks fed to it,
/// their bytes behind what it held.
pub proof fn lemma_received_payload(body: RequestBodyView, cs: Seq<Seq<u8>>)
    requires
        !body.closed,
    ensures
        received(body, cs).chunks.flatten() == body.chunks.flatten() + payload(cs),
        received(body, cs).eof == body.eof,
        received(body, cs).closed == body.closed,
        received(body, cs).failed == body.failed,
        received(body, cs).error == body.error,
        received(body, cs).polled == body.polled,
    decreases cs.len(),
{
    if cs.len() == 0 {
        assert(body.chunks.flatten() + payload(cs) =~= body.chunks.flatten());
    } else {
        let c = cs[0];
        if c.len() == 0 {
            lemma_received_payload(body, cs.drop_first());
            assert(payload(cs) =~= payload(cs.drop_first()));
        } else {
            lemma_received_payload(body.fed_data(c), cs.drop_first());
            body.chunks.lemma_flatten_push(c);
            assert(body.chunks.flatten() + c + payload(cs.drop_first()) =~= body.chunks.flatten()
                + payload(cs));
        }
    }
}

/// Chunked round trip: what the chunked coding writes for a body, chunk by
/// chunk and with its end, is decoded in full, and feeds the channel the
/// same chunks, but for the empty ones, and the end of the body.
pub proof fn lemma_chunked_roundtrip(cs: Seq<Seq<u8>>, body: RequestBodyView)
    requires
        chunks_fit(cs),
    ensures
        fed(
            TransferCoding::Chunked(ChunkedState::Size, 0),
            body_wire(TransferCoding::Chunked(ChunkedState::Size, 0), cs),
            body,
        ) == (Fed {
            coding: TransferCoding::Eof,
            used: body_wire(TransferCoding::Chunked(ChunkedState::Size, 0), cs).len(),
            body: RequestBodyView { eof: true, ..received(body, cs) },
            out: Ok(DecodeState::Eof),
        }),
        !body.closed ==> received(body, cs).chunks.flatten() == body.chunks.flatten() + payload(cs),
{
    lemma_chunked_encoded(ChunkedState::Size, 0, cs);
    lemma_chunked_fed(ChunkedState::Size, cs, body);
    assert(lead(ChunkedState::Size) + frames(cs) + last_chunk() =~= body_wire(
        TransferCoding::Chunked(ChunkedState::Size, 0),
        cs,
    ));
    if !body.closed {
        lemma_received_payload(body, cs);
    }
}

/// The coding of fixed length writes the chunks as they are, while they fit
/// in what is still to come.
pub proof fn lemma_length_encoded(n: u64, cs: Seq<Seq<u8>>)
    requires
        payload(cs).len() <= n,
    ensures
        encoded_all(TransferCoding::Length(n), cs) == (
            TransferCoding::Length((n - payload(cs).len()) as u64),
            payload(cs),
        ),
    decreases cs.len(),
{
    if cs.len() > 0 {
        let c = cs[0];
        assert(payload(cs).len() == c.len() + payload(cs.drop_first()).len());
        assert(c.take(c.len() as int) =~= c);
        lemma_length_encoded((n - c.len()) as u64, cs.drop_first());
    }
}

/// Fixed-length round trip: what the coding of a length of `n` writes for a
/// body of `n` bytes is that body, and it is decoded in full: the channel
/// gets its bytes, as one chunk, and the end of the body.
pub proof fn lemma_length_roundtrip(n: u64, cs: Seq<Seq<u8>>, body: RequestBodyView)
    requires
        payload(cs).len() == n,
        n > 0,
    ensures
        body_wire(TransferCoding::Length(n), cs) == payload(cs),
        fed(TransferCoding::Length(n), payload(cs), body) == (Fed {
            coding: TransferCoding::Eof,
            used: n as nat,
            body: RequestBodyView { eof: true, ..body.fed_data(payload(cs)) },
            out: Ok(DecodeState::Eof),
        }),
{
    lemma_length_encoded(n, cs);
    let wire = payload(cs);
    assert(body_wire(TransferCoding::Length(n), cs) =~= wire);
    assert(wire.take(n as int) =~= wire);
    assert(wire.skip(n as int) =~= Seq::<u8>::empty());
    let d = decoded(TransferCoding::Length(n), wire);
    assert(d == (Decoded { coding: TransferCoding::Length(0), used: n as nat, out: Ok(Some(wire)) }));
    let after = decoded(TransferCoding::Length(0), wire.skip(n as int));
    assert(after.out == Ok::<Option<Seq<u8>>, ProtoError>(Some(Seq::empty())));
    reveal_with_fuel(fed, 2);
}

} // verus!
