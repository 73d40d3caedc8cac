//! The two buffers between the transport and the codec.
//!
//! [`ReadBuf`] holds what was read and not yet decoded, and never more than
//! its limit. [`WriteBuf`] holds what was encoded and not yet written, either
//! as one flat run of bytes or as a queue of chunks for vectored writes.

use vstd::prelude::*;
use bytes::{Bytes, BytesMut};
use std::collections::VecDeque;
use crate::bytes_spec::{
    bytes_from_vec, bytes_len, bytes_mut_extend, bytes_mut_freeze, bytes_mut_len, bytes_mut_new,
    bytes_mut_slice, bytes_mut_split_to, bytes_slice, bytes_split_to, mut_bytes, shared_bytes,
};

verus! {

/// Bounded buffer of the bytes that were read and not yet decoded.
pub struct ReadBuf<const LIMIT: usize> {
    buf: BytesMut,
}

impl<const LIMIT: usize> View for ReadBuf<LIMIT> {
    type V = Seq<u8>;

    closed spec fn view(&self) -> Seq<u8> {
        mut_bytes(self.buf)
    }
}

impl<const LIMIT: usize> ReadBuf<LIMIT> {
    /// The buffer's invariant: it never holds more than its limit.
    pub open spec fn inv(&self) -> bool {
        self@.len() <= LIMIT
    }

    /// An empty buffer.
    pub fn new() -> (r: Self)
        ensures
            r@ == Seq::<u8>::empty(),
            r.inv(),
    {
        ReadBuf { buf: bytes_mut_new() }
    }

    /// The number of bytes held.
    pub fn len(&self) -> (n: usize)
        ensures
            n == self@.len(),
    {
        bytes_mut_len(&self.buf)
    }

    /// Whether nothing is held.
    pub fn is_empty(&self) -> (r: bool)
        ensures
            r == (self@.len() == 0),
    {
        bytes_mut_len(&self.buf) == 0
    }

    /// Whether the buffer is full, so that reading has to cease.
    pub fn backpressure(&self) -> (r: bool)
        ensures
            r == (self@.len() >= LIMIT),
    {
        bytes_mut_len(&self.buf) >= LIMIT
    }

    /// How many more bytes the buffer takes.
    pub fn spare(&self) -> (n: usize)
        requires
            self.inv(),
        ensures
            n == LIMIT - self@.len(),
    {
        LIMIT - bytes_mut_len(&self.buf)
    }

    /// The held bytes.
    pub fn as_slice(&self) -> (s: &[u8])
        ensures
            s@ == self@,
    {
        bytes_mut_slice(&self.buf)
    }

    /// Appends as much of `src` as fits under the limit and returns how many
    /// bytes that was.
    pub fn fill(&mut self, src: &[u8]) -> (n: usize)
        requires
            old(self).inv(),
        ensures
            final(self).inv(),
            n == if src@.len() <= LIMIT - old(self)@.len() {
                src@.len() as int
            } else {
                LIMIT - old(self)@.len()
            },
            final(self)@ == old(self)@ + src@.take(n as int),
    {
        let room: usize = LIMIT - bytes_mut_len(&self.buf);
        if src.len() <= room {
            bytes_mut_extend(&mut self.buf, src);
            assert(src@.take(src@.len() as int) =~= src@);
            src.len()
        } else {
            let part: &[u8] = vstd::slice::slice_subrange(src, 0, room);
            bytes_mut_extend(&mut self.buf, part);
            room
        }
    }

    /// Takes the first `n` bytes out of the buffer.
    pub fn split_to(&mut self, n: usize) -> (front: Bytes)
        requires
            n <= old(self)@.len(),
        ensures
            shared_bytes(front) == old(self)@.take(n as int),
            final(self)@ == old(self)@.skip(n as int),
            old(self).inv() ==> final(self).inv(),
    {
        let front: BytesMut = bytes_mut_split_to(&mut self.buf, n);
        bytes_mut_freeze(front)
    }

    /// Drops the first `n` bytes of the buffer.
    pub fn advance(&mut self, n: usize)
        requires
            n <= old(self)@.len(),
        ensures
            final(self)@ == old(self)@.skip(n as int),
            old(self).inv() ==> final(self).inv(),
    {
        let _front: BytesMut = bytes_mut_split_to(&mut self.buf, n);
    }
}

/// The bytes of each chunk of a queue, in order.
pub open spec fn chunk_bytes(q: Seq<Bytes>) -> Seq<Seq<u8>> {
    q.map_values(|b: Bytes| shared_bytes(b))
}

/// How a write buffer keeps its bytes.
enum Pending {
    /// One contiguous run.
    Flat(BytesMut),
    /// A queue of chunks, none of them empty, with their total length.
    List(VecDeque<Bytes>, u128),
}

/// Buffer of the bytes that were encoded and not yet written.
pub struct WriteBuf<const LIMIT: usize> {
    pending: Pending,
}

impl<const LIMIT: usize> View for WriteBuf<LIMIT> {
    type V = Seq<u8>;

    closed spec fn view(&self) -> Seq<u8> {
        match self.pending {
            Pending::Flat(b) => mut_bytes(b),
            Pending::List(q, _) => chunk_bytes(q@).flatten(),
        }
    }
}

/// Every chunk of the queue holds at least one byte and no more than fits
/// in a `usize`.
pub open spec fn chunks_sized(q: Seq<Bytes>) -> bool {
    forall|i: int| 0 <= i < q.len() ==> 0 < shared_bytes(#[trigger] q[i]).len() <= usize::MAX
}

/// The total length of a queue of chunks is at most the number of chunks
/// times the largest length a chunk can have.
proof fn lemma_total_bound(q: Seq<Bytes>)
    requires
        chunks_sized(q),
    ensures
        chunk_bytes(q).flatten().len() <= q.len() * usize::MAX,
    decreases q.len(),
{
    let c = chunk_bytes(q);
    if q.len() > 0 {
        assert forall|i: int| 0 <= i < q.drop_first().len() implies 0 < shared_bytes(
            #[trigger] q.drop_first()[i],
        ).len() <= usize::MAX by {
            assert(q.drop_first()[i] == q[i + 1]);
        }
        lemma_total_bound(q.drop_first());
        assert(chunk_bytes(q.drop_first()) =~= c.drop_first());
        assert(c[0] == shared_bytes(q[0]));
        assert(c.flatten().len() == c[0].len() + c.drop_first().flatten().len());
        assert(c.flatten().len() <= q.len() * usize::MAX) by (nonlinear_arith)
            requires
                c.flatten().len() <= usize::MAX + (q.len() - 1) * usize::MAX,
        ;
    } else {
        assert(c.flatten().len() == 0);
    }
}

/// Taking the front chunk off a queue takes its bytes off the front of the
/// flattened bytes.
proof fn lemma_front(q: Seq<Bytes>)
    requires
        q.len() > 0,
    ensures
        chunk_bytes(q).flatten() == shared_bytes(q[0]) + chunk_bytes(q.drop_first()).flatten(),
{
    let c = chunk_bytes(q);
    assert(chunk_bytes(q.drop_first()) =~= c.drop_first());
    assert(c.first() == shared_bytes(q[0]));
}

/// Putting a chunk behind a queue puts its bytes behind the flattened bytes.
proof fn lemma_back(q: Seq<Bytes>, b: Bytes)
    ensures
        chunk_bytes(q.push(b)).flatten() == chunk_bytes(q).flatten() + shared_bytes(b),
{
    assert(chunk_bytes(q.push(b)) =~= chunk_bytes(q).push(shared_bytes(b)));
    chunk_bytes(q).lemma_flatten_push(shared_bytes(b));
}

impl<const LIMIT: usize> WriteBuf<LIMIT> {
    /// The buffer's invariant. Of a queue: no chunk is empty, and the
    /// recorded total is the number of bytes held.
    pub closed spec fn inv(&self) -> bool {
        match self.pending {
            Pending::Flat(_) => true,
            Pending::List(q, total) => chunks_sized(q@) && total == chunk_bytes(q@).flatten().len(),
        }
    }

    /// Whether the buffer keeps a queue of chunks for vectored writes.
    pub closed spec fn is_list(&self) -> bool {
        self.pending is List
    }

    /// An empty buffer: a queue of chunks if `vectored`, flat otherwise.
    pub fn new(vectored: bool) -> (r: Self)
        ensures
            r@ == Seq::<u8>::empty(),
            r.inv(),
            r.is_list() == vectored,
    {
        if vectored {
            let q: VecDeque<Bytes> = VecDeque::new();
            assert(chunk_bytes(q@) =~= Seq::<Seq<u8>>::empty());
            WriteBuf { pending: Pending::List(q, 0) }
        } else {
            WriteBuf { pending: Pending::Flat(bytes_mut_new()) }
        }
    }

    /// Whether the buffer keeps a queue of chunks.
    pub fn is_vectored(&self) -> (r: bool)
        ensures
            r == self.is_list(),
    {
        match &self.pending {
            Pending::Flat(_) => false,
            Pending::List(_, _) => true,
        }
    }

    /// Whether bytes wait to be written.
    pub fn want_write(&self) -> (r: bool)
        requires
            self.inv(),
        ensures
            r == (self@.len() > 0),
    {
        match &self.pending {
            Pending::Flat(b) => bytes_mut_len(b) > 0,
            Pending::List(_, total) => *total > 0,
        }
    }

    /// Whether at least `n` bytes are held.
    pub fn holds(&self, n: usize) -> (r: bool)
        requires
            self.inv(),
        ensures
            r == (n <= self@.len()),
    {
        match &self.pending {
            Pending::Flat(b) => n <= bytes_mut_len(b),
            Pending::List(_, total) => n as u128 <= *total,
        }
    }

    /// Whether the buffer is at or over its high-water mark, so that no more
    /// of the response body is to be polled.
    pub fn backpressure(&self) -> (r: bool)
        requires
            self.inv(),
        ensures
            r == (self@.len() >= LIMIT),
    {
        match &self.pending {
            Pending::Flat(b) => bytes_mut_len(b) >= LIMIT,
            Pending::List(_, total) => *total >= LIMIT as u128,
        }
    }

    /// Appends a copy of `src`.
    pub fn extend_from_slice(&mut self, src: &[u8])
        requires
            old(self).inv(),
        ensures
            final(self).inv(),
            final(self).is_list() == old(self).is_list(),
            final(self)@ == old(self)@ + src@,
    {
        match &mut self.pending {
            Pending::Flat(b) => {
                bytes_mut_extend(b, src);
            },
            Pending::List(q, total) => {
                if src.len() > 0 {
                    let chunk: Bytes = bytes_from_vec(vstd::slice::slice_to_vec(src));
                    let count: usize = q.len();
                    proof {
                        lemma_total_bound(q@);
                        lemma_back(q@, chunk);
                        assert(q@.len() == count);
                        assert(q@.len() * usize::MAX + usize::MAX <= u128::MAX) by (nonlinear_arith)
                            requires
                                q@.len() <= usize::MAX,
                                usize::MAX <= u64::MAX,
                        ;
                    }
                    *total = *total + src.len() as u128;
                    q.push_back(chunk);
                } else {
                    assert(old(self)@ + src@ =~= old(self)@);
                }
            },
        }
    }

    /// Appends `chunk` without copying it where the buffer keeps a queue.
    pub fn push(&mut self, chunk: Bytes)
        requires
            old(self).inv(),
        ensures
            final(self).inv(),
            final(self).is_list() == old(self).is_list(),
            final(self)@ == old(self)@ + shared_bytes(chunk),
    {
        match &mut self.pending {
            Pending::Flat(b) => {
                bytes_mut_extend(b, bytes_slice(&chunk));
            },
            Pending::List(q, total) => {
                let n: usize = bytes_len(&chunk);
                if n > 0 {
                    let count: usize = q.len();
                    proof {
                        lemma_total_bound(q@);
                        lemma_back(q@, chunk);
                        assert(q@.len() == count);
                        assert(q@.len() * usize::MAX + usize::MAX <= u128::MAX) by (nonlinear_arith)
                            requires
                                q@.len() <= usize::MAX,
                                usize::MAX <= u64::MAX,
                        ;
                    }
                    *total = *total + n as u128;
                    q.push_back(chunk);
                } else {
                    assert(old(self)@ + shared_bytes(chunk) =~= old(self)@);
                }
            },
        }
    }

    /// The runs of bytes to offer to the transport, in order: the whole of a
    /// flat buffer, or each chunk of a queue.
    pub closed spec fn chunks(&self) -> Seq<Seq<u8>> {
        match self.pending {
            Pending::Flat(b) => if mut_bytes(b).len() > 0 {
                seq![mut_bytes(b)]
            } else {
                Seq::empty()
            },
            Pending::List(q, _) => chunk_bytes(q@),
        }
    }

    /// The number of runs to offer to the transport. The runs together are
    /// the bytes held, and none of them is empty.
    pub fn chunk_count(&self) -> (n: usize)
        requires
            self.inv(),
        ensures
            n == self.chunks().len(),
            self.chunks().flatten() == self@,
            forall|i: int| 0 <= i < self.chunks().len() ==> (#[trigger] self.chunks()[i]).len() > 0,
    {
        match &self.pending {
            Pending::Flat(b) => {
                proof {
                    if mut_bytes(*b).len() > 0 {
                        seq![mut_bytes(*b)].lemma_flatten_one_element();
                    } else {
                        assert(self@ =~= Seq::<u8>::empty());
                    }
                }
                if bytes_mut_len(b) > 0 {
                    1
                } else {
                    0
                }
            },
            Pending::List(q, _) => {
                proof {
                    assert forall|i: int| 0 <= i < self.chunks().len() implies (
                    #[trigger] self.chunks()[i]).len() > 0 by {
                        assert(self.chunks()[i] == shared_bytes(q@[i]));
                    }
                }
                q.len()
            },
        }
    }

    /// The run at index `i`.
    pub fn chunk(&self, i: usize) -> (s: &[u8])
        requires
            i < self.chunks().len(),
        ensures
            s@ == self.chunks()[i as int],
    {
        match &self.pending {
            Pending::Flat(b) => bytes_mut_slice(b),
            Pending::List(q, _) => bytes_slice(&q[i]),
        }
    }

    /// A copy of the bytes held.
    pub fn to_vec(&self) -> (v: Vec<u8>)
        ensures
            v@ == self@,
    {
        match &self.pending {
            Pending::Flat(b) => vstd::slice::slice_to_vec(bytes_mut_slice(b)),
            Pending::List(q, _) => {
                let mut v: Vec<u8> = Vec::new();
                let n: usize = q.len();
                let mut i: usize = 0;
                assert(chunk_bytes(q@.take(0)) =~= Seq::<Seq<u8>>::empty());
                while i < n
                    invariant
                        n == q@.len(),
                        0 <= i <= n,
                        v@ == chunk_bytes(q@.take(i as int)).flatten(),
                    decreases n - i,
                {
                    let part: &[u8] = bytes_slice(&q[i]);
                    proof {
                        lemma_back(q@.take(i as int), q@[i as int]);
                        assert(q@.take(i as int).push(q@[i as int]) =~= q@.take(i + 1));
                    }
                    v.extend_from_slice(part);
                    i = i + 1;
                }
                assert(q@.take(n as int) =~= q@);
                v
            },
        }
    }

    /// Drops the first `n` bytes, which the transport has taken.
    pub fn advance(&mut self, n: usize)
        requires
            old(self).inv(),
            n <= old(self)@.len(),
        ensures
            final(self).inv(),
            final(self).is_list() == old(self).is_list(),
            final(self)@ == old(self)@.skip(n as int),
    {
        match &mut self.pending {
            Pending::Flat(b) => {
                let _front: BytesMut = bytes_mut_split_to(b, n);
            },
            Pending::List(q, total) => {
                let mut rem: usize = n;
                assert(old(self)@.skip(0) =~= old(self)@);
                while rem > 0
                    invariant
                        rem <= n,
                        chunks_sized(q@),
                        *total == chunk_bytes(q@).flatten().len(),
                        rem <= chunk_bytes(q@).flatten().len(),
                        chunk_bytes(q@).flatten() == old(self)@.skip(n - rem),
                        n <= old(self)@.len(),
                    decreases rem,
                {
                    let ghost before = q@;
                    assert(before.len() > 0) by {
                        if before.len() == 0 {
                            assert(chunk_bytes(before) =~= Seq::<Seq<u8>>::empty());
                        }
                    }
                    proof {
                        lemma_front(before);
                    }
                    let mut front: Bytes = q.pop_front().unwrap();
                    assert(q@ =~= before.drop_first());
                    assert(chunks_sized(q@)) by {
                        assert forall|i: int| 0 <= i < q@.len() implies 0 < shared_bytes(
                            #[trigger] q@[i],
                        ).len() <= usize::MAX by {
                            assert(q@[i] == before[i + 1]);
                        }
                    }
                    let width: usize = bytes_len(&front);
                    let ghost whole = shared_bytes(front);
                    if width <= rem {
                        *total = *total - width as u128;
                        assert(chunk_bytes(q@).flatten() =~= old(self)@.skip(n - (rem - width))) by {
                            assert((whole + chunk_bytes(q@).flatten()).skip(width as int)
                                =~= chunk_bytes(q@).flatten());
                            assert(old(self)@.skip(n - rem).skip(width as int) =~= old(self)@.skip(
                                n - rem + width,
                            ));
                        }
                        rem = rem - width;
                    } else {
                        let _taken: Bytes = bytes_split_to(&mut front, rem);
                        let ghost rest = q@;
                        q.push_front(front);
                        proof {
                            assert(q@ =~= seq![front] + rest);
                            assert(q@.drop_first() =~= rest);
                            lemma_front(q@);
                            assert(chunks_sized(q@)) by {
                                assert forall|i: int| 0 <= i < q@.len() implies 0 < shared_bytes(
                                    #[trigger] q@[i],
                                ).len() <= usize::MAX by {
                                    if i > 0 {
                                        assert(q@[i] == rest[i - 1]);
                                    }
                                }
                            }
                            assert(chunk_bytes(q@).flatten() =~= old(self)@.skip(n as int)) by {
                                assert((whole + chunk_bytes(rest).flatten()).skip(rem as int)
                                    =~= whole.skip(rem as int) + chunk_bytes(rest).flatten());
                                assert(old(self)@.skip(n - rem).skip(rem as int) =~= old(self)@.skip(
                                    n as int,
                                ));
                            }
                        }
                        *total = *total - rem as u128;
                        rem = 0;
                    }
                }
            },
        }
    }
}

} // verus!
