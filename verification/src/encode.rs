//! Serialisation of a response head.

use vstd::prelude::*;
use vstd::string::StringSliceAdditionalSpecFns;
use crate::ascii::{bytes_eq_ignore_case, dec_digits, push_dec};
use crate::buf::WriteBuf;
use crate::coding::{crlf, ChunkedState, TransferCoding};
use crate::context::{named, ConnectionType, Context, Field};
use crate::message::{header_views, BodySize, Header, Parts, Version};

verus! {

/// The reason phrase that goes with a status code; empty for a code that
/// has none here.
pub open spec fn reason_phrase(status: u16) -> Seq<u8> {
    if status == 100 {
        "Continue".spec_bytes()
    } else if status == 101 {
        "Switching Protocols".spec_bytes()
    } else if status == 200 {
        "OK".spec_bytes()
    } else if status == 201 {
        "Created".spec_bytes()
    } else if status == 202 {
        "Accepted".spec_bytes()
    } else if status == 204 {
        "No Content".spec_bytes()
    } else if status == 206 {
        "Partial Content".spec_bytes()
    } else if status == 301 {
        "Moved Permanently".spec_bytes()
    } else if status == 302 {
        "Found".spec_bytes()
    } else if status == 303 {
        "See Other".spec_bytes()
    } else if status == 304 {
        "Not Modified".spec_bytes()
    } else if status == 307 {
        "Temporary Redirect".spec_bytes()
    } else if status == 308 {
        "Permanent Redirect".spec_bytes()
    } else if status == 400 {
        "Bad Request".spec_bytes()
    } else if status == 401 {
        "Unauthorized".spec_bytes()
    } else if status == 403 {
        "Forbidden".spec_bytes()
    } else if status == 404 {
        "Not Found".spec_bytes()
    } else if status == 405 {
        "Method Not Allowed".spec_bytes()
    } else if status == 408 {
        "Request Timeout".spec_bytes()
    } else if status == 409 {
        "Conflict".spec_bytes()
    } else if status == 411 {
        "Length Required".spec_bytes()
    } else if status == 413 {
        "Payload Too Large".spec_bytes()
    } else if status == 417 {
        "Expectation Failed".spec_bytes()
    } else if status == 426 {
        "Upgrade Required".spec_bytes()
    } else if status == 431 {
        "Request Header Fields Too Large".spec_bytes()
    } else if status == 500 {
        "Internal Server Error".spec_bytes()
    } else if status == 501 {
        "Not Implemented".spec_bytes()
    } else if status == 502 {
        "Bad Gateway".spec_bytes()
    } else if status == 503 {
        "Service Unavailable".spec_bytes()
    } else if status == 504 {
        "Gateway Timeout".spec_bytes()
    } else {
        "".spec_bytes()
    }
}

/// Computes `reason_phrase`.
pub fn reason(status: u16) -> (r: &'static str)
    ensures
        r.spec_bytes() == reason_phrase(status),
{
    if status == 100 {
        "Continue"
    } else if status == 101 {
        "Switching Protocols"
    } else if status == 200 {
        "OK"
    } else if status == 201 {
        "Created"
    } else if status == 202 {
        "Accepted"
    } else if status == 204 {
        "No Content"
    } else if status == 206 {
        "Partial Content"
    } else if status == 301 {
        "Moved Permanently"
    } else if status == 302 {
        "Found"
    } else if status == 303 {
        "See Other"
    } else if status == 304 {
        "Not Modified"
    } else if status == 307 {
        "Temporary Redirect"
    } else if status == 308 {
        "Permanent Redirect"
    } else if status == 400 {
        "Bad Request"
    } else if status == 401 {
        "Unauthorized"
    } else if status == 403 {
        "Forbidden"
    } else if status == 404 {
        "Not Found"
    } else if status == 405 {
        "Method Not Allowed"
    } else if status == 408 {
        "Request Timeout"
    } else if status == 409 {
        "Conflict"
    } else if status == 411 {
        "Length Required"
    } else if status == 413 {
        "Payload Too Large"
    } else if status == 417 {
        "Expectation Failed"
    } else if status == 426 {
        "Upgrade Required"
    } else if status == 431 {
        "Request Header Fields Too Large"
    } else if status == 500 {
        "Internal Server Error"
    } else if status == 501 {
        "Not Implemented"
    } else if status == 502 {
        "Bad Gateway"
    } else if status == 503 {
        "Service Unavailable"
    } else if status == 504 {
        "Gateway Timeout"
    } else {
        ""
    }
}

/// The bytes of a version.
pub open spec fn version_bytes(v: Version) -> Seq<u8> {
    match v {
        Version::Http10 => "HTTP/1.0".spec_bytes(),
        Version::Http11 => "HTTP/1.1".spec_bytes(),
    }
}

/// The status line: version, status code, reason phrase, CR LF.
pub open spec fn status_line(v: Version, status: u16) -> Seq<u8> {
    version_bytes(v) + " ".spec_bytes() + dec_digits(status as nat) + " ".spec_bytes()
        + reason_phrase(status) + crlf()
}

/// One header line: name, colon, space, value, CR LF.
pub open spec fn header_line(h: Field) -> Seq<u8> {
    h.0 + ": ".spec_bytes() + h.1 + crlf()
}

/// Whether the header at `j` frames the body. Such a header of the caller is
/// left out of the head, which frames the body by the size it is given.
pub open spec fn framing_at(hs: Seq<Field>, j: int) -> bool {
    named(hs, j, "content-length") || named(hs, j, "transfer-encoding")
}

/// The lines of the caller's headers, in order, without those that frame the
/// body.
pub open spec fn header_lines(hs: Seq<Field>) -> Seq<u8>
    decreases hs.len(),
{
    if hs.len() == 0 {
        Seq::empty()
    } else {
        header_lines(hs.drop_last()) + if framing_at(hs, hs.len() - 1) {
            Seq::empty()
        } else {
            header_line(hs.last())
        }
    }
}

/// Whether `hs` holds a header of the name `name`.
pub open spec fn has_header(hs: Seq<Field>, name: &str) -> bool {
    exists|j: int| #[trigger] named(hs, j, name)
}

/// The header that frames a body of the size `size`.
pub open spec fn framing_line(size: BodySize) -> Seq<u8> {
    match size {
        BodySize::NoBody => Seq::empty(),
        BodySize::Sized(n) => "Content-Length: ".spec_bytes() + dec_digits(n as nat) + crlf(),
        BodySize::Stream => "Transfer-Encoding: chunked\r\n".spec_bytes(),
    }
}

/// The coding that `encode` and `encode_eof` use for a body of the size
/// `size`.
pub open spec fn response_coding(size: BodySize) -> TransferCoding {
    match size {
        BodySize::NoBody => TransferCoding::Eof,
        BodySize::Sized(n) => if n == 0 {
            TransferCoding::Eof
        } else {
            TransferCoding::Length(n)
        },
        BodySize::Stream => TransferCoding::Chunked(ChunkedState::Size, 0),
    }
}

/// The bytes of a response head.
///
/// The status line, the caller's headers, `Connection: close` where the
/// connection is to be closed and the caller names no `Connection`, a `Date`
/// with the given date where the caller names none, the header that frames
/// the body, and the empty line.
pub open spec fn response_head(
    version: Version,
    status: u16,
    hs: Seq<Field>,
    size: BodySize,
    date: Seq<u8>,
    ctype: ConnectionType,
) -> Seq<u8> {
    status_line(version, status) + header_lines(hs) + (if ctype == ConnectionType::Close
        && !has_header(hs, "connection") {
        "Connection: close\r\n".spec_bytes()
    } else {
        Seq::empty()
    }) + (if !has_header(hs, "date") {
        "Date: ".spec_bytes() + date + crlf()
    } else {
        Seq::empty()
    }) + framing_line(size) + crlf()
}

/// The interim response `HTTP/1.1 100 Continue`.
pub open spec fn continue_bytes() -> Seq<u8> {
    "HTTP/1.1 100 Continue\r\n\r\n".spec_bytes()
}

/// Appends the lines of `headers` to `out` and tells whether a `Connection`
/// and a `Date` are among them.
fn push_headers(out: &mut Vec<u8>, headers: &Vec<Header>) -> (r: (bool, bool))
    ensures
        final(out)@ == old(out)@ + header_lines(header_views(headers@)),
        r.0 == has_header(header_views(headers@), "connection"),
        r.1 == has_header(header_views(headers@), "date"),
{
    let ghost hs = header_views(headers@);
    let n: usize = headers.len();
    let mut i: usize = 0;
    let mut conn: bool = false;
    let mut date: bool = false;
    assert(header_lines(hs.take(0)) =~= Seq::<u8>::empty());
    assert(old(out)@ + Seq::<u8>::empty() =~= old(out)@);
    while i < n
        invariant
            hs == header_views(headers@),
            n == headers@.len(),
            n == hs.len(),
            0 <= i <= n,
            out@ == old(out)@ + header_lines(hs.take(i as int)),
            conn == (exists|j: int| j < i && #[trigger] named(hs, j, "connection")),
            date == (exists|j: int| j < i && #[trigger] named(hs, j, "date")),
        decreases n - i,
    {
        let h: &Header = &headers[i];
        let name: &[u8] = h.name.as_slice();
        let value: &[u8] = h.value.as_slice();
        let ghost before = out@;
        proof {
            assert(hs[i as int] == (name@, value@));
            assert(hs.take(i + 1).drop_last() =~= hs.take(i as int));
            assert(hs.take(i + 1).last() == hs[i as int]);
            assert(named(hs.take(i + 1), i as int, "content-length") == named(
                hs,
                i as int,
                "content-length",
            ));
            assert(named(hs.take(i + 1), i as int, "transfer-encoding") == named(
                hs,
                i as int,
                "transfer-encoding",
            ));
        }
        if bytes_eq_ignore_case(name, "connection".as_bytes()) {
            assert(named(hs, i as int, "connection"));
            conn = true;
        }
        if bytes_eq_ignore_case(name, "date".as_bytes()) {
            assert(named(hs, i as int, "date"));
            date = true;
        }
        if bytes_eq_ignore_case(name, "content-length".as_bytes()) || bytes_eq_ignore_case(
            name,
            "transfer-encoding".as_bytes(),
        ) {
            assert(before + Seq::<u8>::empty() =~= before);
        } else {
            out.extend_from_slice(name);
            out.extend_from_slice(": ".as_bytes());
            out.extend_from_slice(value);
            out.push(13);
            out.push(10);
            assert(out@ =~= before + header_line(hs[i as int]));
        }
        assert(out@ =~= old(out)@ + header_lines(hs.take(i + 1)));
        i = i + 1;
    }
    assert(hs.take(n as int) =~= hs);
    (conn, date)
}

impl<const HEADER_LIMIT: usize> Context<HEADER_LIMIT> {
    /// Writes the interim response `100 Continue` behind what `write_buf`
    /// holds.
    pub fn encode_continue<const LIMIT: usize>(&self, write_buf: &mut WriteBuf<LIMIT>)
        requires
            old(write_buf).inv(),
        ensures
            final(write_buf).inv(),
            final(write_buf).is_list() == old(write_buf).is_list(),
            final(write_buf)@ == old(write_buf)@ + continue_bytes(),
    {
        write_buf.extend_from_slice("HTTP/1.1 100 Continue\r\n\r\n".as_bytes());
    }

    /// Writes the head of a response behind what `write_buf` holds and
    /// returns the coding of the response body.
    pub fn encode_head<const LIMIT: usize>(
        &self,
        parts: Parts,
        size: BodySize,
        date: &[u8],
        write_buf: &mut WriteBuf<LIMIT>,
    ) -> (r: TransferCoding)
        requires
            old(write_buf).inv(),
        ensures
            final(write_buf).inv(),
            final(write_buf).is_list() == old(write_buf).is_list(),
            r == response_coding(size),
            final(write_buf)@ == old(write_buf)@ + response_head(
                parts.version,
                parts.status,
                header_views(parts.headers@),
                size,
                date@,
                self.ctype,
            ),
    {
        let mut out: Vec<u8> = Vec::new();
        push_status_line(&mut out, parts.version, parts.status);
        let (conn, dated) = push_headers(&mut out, &parts.headers);
        let closed: bool = match self.ctype {
            ConnectionType::Close => true,
            _ => false,
        };
        push_connection(&mut out, closed && !conn);
        push_date(&mut out, !dated, date);
        let coding: TransferCoding = push_framing(&mut out, size);
        out.push(13);
        out.push(10);
        assert(out@ =~= response_head(
            parts.version,
            parts.status,
            header_views(parts.headers@),
            size,
            date@,
            self.ctype,
        ));
        write_buf.extend_from_slice(out.as_slice());
        coding
    }
}

/// Appends the status line to `out`.
fn push_status_line(out: &mut Vec<u8>, version: Version, status: u16)
    ensures
        final(out)@ == old(out)@ + status_line(version, status),
{
    match version {
        Version::Http10 => out.extend_from_slice("HTTP/1.0".as_bytes()),
        Version::Http11 => out.extend_from_slice("HTTP/1.1".as_bytes()),
    }
    out.extend_from_slice(" ".as_bytes());
    push_dec(out, status as u64);
    out.extend_from_slice(" ".as_bytes());
    out.extend_from_slice(reason(status).as_bytes());
    out.push(13);
    out.push(10);
    assert(final(out)@ =~= old(out)@ + status_line(version, status));
}

/// Appends `Connection: close` to `out` where `wanted`.
fn push_connection(out: &mut Vec<u8>, wanted: bool)
    ensures
        final(out)@ == old(out)@ + if wanted {
            "Connection: close\r\n".spec_bytes()
        } else {
            Seq::empty()
        },
{
    if wanted {
        out.extend_from_slice("Connection: close\r\n".as_bytes());
    } else {
        assert(old(out)@ + Seq::<u8>::empty() =~= old(out)@);
    }
}

/// Appends a `Date` header with `date` to `out` where `wanted`.
fn push_date(out: &mut Vec<u8>, wanted: bool, date: &[u8])
    ensures
        final(out)@ == old(out)@ + if wanted {
            "Date: ".spec_bytes() + date@ + crlf()
        } else {
            Seq::empty()
        },
{
    if wanted {
        out.extend_from_slice("Date: ".as_bytes());
        out.extend_from_slice(date);
        out.push(13);
        out.push(10);
        assert(final(out)@ =~= old(out)@ + ("Date: ".spec_bytes() + date@ + crlf()));
    } else {
        assert(old(out)@ + Seq::<u8>::empty() =~= old(out)@);
    }
}

/// Appends the header that frames a body of the size `size` to `out` and
/// returns the coding of that body.
fn push_framing(out: &mut Vec<u8>, size: BodySize) -> (r: TransferCoding)
    ensures
        final(out)@ == old(out)@ + framing_line(size),
        r == response_coding(size),
{
    match size {
        BodySize::NoBody => {
            assert(old(out)@ + Seq::<u8>::empty() =~= old(out)@);
            TransferCoding::Eof
        },
        BodySize::Sized(n) => {
            out.extend_from_slice("Content-Length: ".as_bytes());
            push_dec(out, n);
            out.push(13);
            out.push(10);
            assert(final(out)@ =~= old(out)@ + framing_line(size));
            if n == 0 {
                TransferCoding::Eof
            } else {
                TransferCoding::Length(n)
            }
        },
        BodySize::Stream => {
            out.extend_from_slice("Transfer-Encoding: chunked\r\n".as_bytes());
            TransferCoding::Chunked(ChunkedState::Size, 0)
        },
    }
}

} // verus!
