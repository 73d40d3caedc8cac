//! What a client settles before it sends a request over HTTP/2: the headers
//! that go out, and whether the stream ends with them.

use vstd::prelude::*;
use vstd::string::StringSliceAdditionalSpecFns;
use crate::ascii::{bytes_eq, bytes_eq_ignore_case, dec_digits, push_dec};
use crate::context::{named, Field};
use crate::message::{header_views, BodySize, Header};
use crate::multipart::{check_text, find_header, first_named, is_text};

verus! {

/// Why a request is not sent.
#[derive(Clone, Copy, Debug, PartialEq, Eq, Structural)]
pub enum SendError {
    /// A protocol is asked for on a request that is no `CONNECT` and has a
    /// body.
    Protocol,
}

/// A request as it goes out.
#[derive(Debug)]
pub struct Prepared {
    /// The headers to send.
    pub headers: Vec<Header>,
    /// Whether the body is known to be empty.
    pub is_eof: bool,
    /// Whether the stream ends with the headers.
    pub end_of_stream: bool,
    /// The protocol asked for on an extended `CONNECT`.
    pub protocol: Option<Vec<u8>>,
    /// Whether the method is `HEAD`, whose response has no body.
    pub is_head: bool,
}

/// Whether the header at `j` is left out of what is sent: the length is
/// written anew, and the headers that belong to HTTP/1 alone, and the one
/// that asks for a protocol, do not go out.
pub open spec fn dropped_at(hs: Seq<Field>, j: int) -> bool {
    ||| named(hs, j, "content-length")
    ||| named(hs, j, "connection")
    ||| named(hs, j, "transfer-encoding")
    ||| named(hs, j, "upgrade")
    ||| named(hs, j, "protocol")
}

/// The headers of `hs` that are kept, in order.
pub open spec fn kept(hs: Seq<Field>) -> Seq<Field>
    decreases hs.len(),
{
    if hs.len() == 0 {
        Seq::empty()
    } else if dropped_at(hs, hs.len() - 1) {
        kept(hs.drop_last())
    } else {
        kept(hs.drop_last()).push(hs.last())
    }
}

/// Whether a body of the size `size` is known to be empty.
pub open spec fn empty_body(size: BodySize) -> bool {
    match size {
        BodySize::NoBody => true,
        BodySize::Sized(n) => n == 0,
        BodySize::Stream => false,
    }
}

/// The `Content-Length` that goes out for a body of the size `size`.
pub open spec fn length_header(size: BodySize) -> Seq<Field> {
    match size {
        BodySize::Sized(n) => seq![("content-length".spec_bytes(), dec_digits(n as nat))],
        _ => Seq::empty(),
    }
}

/// The `Date` that goes out where the request has none.
pub open spec fn date_header(hs: Seq<Field>, date: Seq<u8>) -> Seq<Field> {
    if first_named(hs, "date") >= hs.len() {
        seq![("date".spec_bytes(), date)]
    } else {
        Seq::empty()
    }
}

/// The protocol that the request asks for: the value of its first
/// `protocol` header, where that is text.
pub open spec fn asked_protocol(hs: Seq<Field>) -> Option<Seq<u8>> {
    let i = first_named(hs, "protocol");
    if i < hs.len() && is_text(hs[i].1) {
        Some(hs[i].1)
    } else {
        None
    }
}

/// Whether the request is refused: it asks for a protocol, is no `CONNECT`
/// and has a body.
pub open spec fn refused(hs: Seq<Field>, method: Seq<u8>, size: BodySize) -> bool {
    first_named(hs, "protocol") < hs.len() && method != "CONNECT".spec_bytes() && !empty_body(size)
}

/// Appends the headers of `headers` that are kept to `out`.
fn keep(out: &mut Vec<Header>, headers: &Vec<Header>)
    requires
        old(out)@.len() == 0,
    ensures
        header_views(final(out)@) == kept(header_views(headers@)),
{
    let ghost hs = header_views(headers@);
    let n: usize = headers.len();
    let mut i: usize = 0;
    assert(header_views(out@) =~= kept(hs.take(0)));
    while i < n
        invariant
            hs == header_views(headers@),
            n == hs.len(),
            0 <= i <= n,
            header_views(out@) == kept(hs.take(i as int)),
        decreases n - i,
    {
        let h: &Header = &headers[i];
        let name: &[u8] = h.name.as_slice();
        let ghost before = out@;
        proof {
            let t = hs.take(i + 1);
            assert(t.drop_last() =~= hs.take(i as int));
            assert(t.last() == hs[i as int]);
            assert(hs[i as int] == (h.name@, h.value@));
            assert(dropped_at(t, i as int) == dropped_at(hs, i as int));
        }
        let dropped: bool = bytes_eq_ignore_case(name, "content-length".as_bytes())
            || bytes_eq_ignore_case(name, "connection".as_bytes()) || bytes_eq_ignore_case(
            name,
            "transfer-encoding".as_bytes(),
        ) || bytes_eq_ignore_case(name, "upgrade".as_bytes()) || bytes_eq_ignore_case(
            name,
            "protocol".as_bytes(),
        );
        if !dropped {
            let copy = Header {
                name: vstd::slice::slice_to_vec(name),
                value: vstd::slice::slice_to_vec(h.value.as_slice()),
            };
            out.push(copy);
            assert(header_views(out@) =~= header_views(before).push(hs[i as int]));
        }
        i = i + 1;
    }
    assert(hs.take(n as int) =~= hs);
}

/// Settles how a request with the headers `headers`, the method `method`
/// and a body of the size `size` goes out, dated `date` where it bears no
/// date.
///
/// The length is written anew from the size. A body that is known to be
/// empty ends the stream with the headers, unless a protocol is asked for.
pub fn prepare(headers: &Vec<Header>, method: &[u8], size: BodySize, date: &[u8]) -> (r: Result<
    Prepared,
    SendError,
>)
    ensures
        r is Err == refused(header_views(headers@), method@, size),
        r matches Ok(p) ==> {
            &&& header_views(p.headers@) == kept(header_views(headers@)) + length_header(size)
                + date_header(header_views(headers@), date@)
            &&& p.is_eof == empty_body(size)
            &&& (match p.protocol {
                Some(v) => asked_protocol(header_views(headers@)) == Some(v@),
                None => asked_protocol(header_views(headers@)) is None,
            })
            &&& p.end_of_stream == (empty_body(size) && p.protocol is None)
            &&& p.is_head == (method@ == "HEAD".spec_bytes())
        },
{
    let ghost hs = header_views(headers@);
    let is_eof: bool = match size {
        BodySize::NoBody => true,
        BodySize::Sized(n) => n == 0,
        BodySize::Stream => false,
    };
    let mut protocol: Option<Vec<u8>> = None;
    match find_header(headers, "protocol") {
        Some(i) => {
            if !bytes_eq(method, "CONNECT".as_bytes()) && !is_eof {
                return Err(SendError::Protocol);
            }
            assert(hs[i as int].1 == headers@[i as int].value@);
            let value: &[u8] = headers[i].value.as_slice();
            if check_text(value) {
                protocol = Some(vstd::slice::slice_to_vec(value));
            }
        },
        None => {},
    }
    let mut out: Vec<Header> = Vec::new();
    keep(&mut out, headers);
    let ghost base = out@;
    match size {
        BodySize::Sized(n) => {
            let mut digits: Vec<u8> = Vec::new();
            push_dec(&mut digits, n);
            assert(digits@ =~= dec_digits(n as nat));
            out.push(
                Header { name: vstd::slice::slice_to_vec("content-length".as_bytes()), value: digits },
            );
            assert(header_views(out@) =~= header_views(base) + length_header(size));
        },
        _ => {
            assert(header_views(out@) =~= header_views(base) + length_header(size));
        },
    }
    let ghost sized = out@;
    match find_header(headers, "date") {
        None => {
            out.push(
                Header {
                    name: vstd::slice::slice_to_vec("date".as_bytes()),
                    value: vstd::slice::slice_to_vec(date),
                },
            );
            assert(header_views(out@) =~= header_views(sized) + date_header(hs, date@));
        },
        Some(_) => {
            assert(header_views(out@) =~= header_views(sized) + date_header(hs, date@));
        },
    }
    let end_of_stream: bool = is_eof && protocol.is_none();
    let is_head: bool = bytes_eq(method, "HEAD".as_bytes());
    Ok(Prepared { headers: out, is_eof, end_of_stream, protocol, is_head })
}

/// How much of a chunk of `len` bytes is sent where the stream has room for
/// `cap`: as much as fits.
pub fn split_len(cap: usize, len: usize) -> (r: usize)
    ensures
        r == if cap <= len {
            cap
        } else {
            len
        },
{
    if cap <= len {
        cap
    } else {
        len
    }
}

} // verus!
