//! The per-connection context: the connection type and the expect flag, and
//! what the headers of a request say about them and about the body.

use vstd::prelude::*;
use vstd::string::StringSliceAdditionalSpecFns;
use crate::ascii::{
    bytes_eq_ignore_case, dec_u64, eq_ignore_case, items_have, list_has, list_items, next_item,
    parse_dec, trim, trim_bounds,
};
use crate::buf::ReadBuf;
use crate::coding::{ChunkedState, TransferCoding};
use crate::error::{Parse, ProtoError};
use crate::message::{header_views, Header, Request, Version};
use crate::parse::{parse_request, parsed_request, parsed_view, RawHead, RawHeadView};

verus! {

/// Whether the connection serves another request after the current one.
#[derive(Clone, Copy, Debug, PartialEq, Eq, Structural)]
pub enum ConnectionType {
    /// No request has been decoded yet.
    Init,
    /// The connection is kept open after the response.
    KeepAlive,
    /// The connection is closed after the response.
    Close,
}

/// A header as name and value.
pub type Field = (Seq<u8>, Seq<u8>);

/// Whether the header at index `j` of `hs` has the name `name`, up to the
/// case of letters.
pub open spec fn named(hs: Seq<Field>, j: int, name: &str) -> bool {
    0 <= j < hs.len() && eq_ignore_case(hs[j].0, name.spec_bytes())
}

/// The number that a `Content-Length` value denotes, if it is one.
pub open spec fn length_value(value: Seq<u8>) -> Option<u64> {
    dec_u64(trim(value))
}

/// Whether some `Content-Length` header holds no number.
pub open spec fn bad_length(hs: Seq<Field>) -> bool {
    exists|j: int| #[trigger] named(hs, j, "content-length") && length_value(hs[j].1) is None
}

/// Whether there is a `Content-Length` header.
pub open spec fn has_length(hs: Seq<Field>) -> bool {
    exists|j: int| #[trigger] named(hs, j, "content-length")
}

/// Whether the headers at `j` and `k` are `Content-Length` headers that
/// disagree.
pub open spec fn lengths_differ_at(hs: Seq<Field>, j: int, k: int) -> bool {
    &&& named(hs, j, "content-length")
    &&& named(hs, k, "content-length")
    &&& length_value(hs[j].1) != length_value(hs[k].1)
}

/// Whether two `Content-Length` headers disagree.
pub open spec fn lengths_differ(hs: Seq<Field>) -> bool {
    exists|j: int, k: int| #[trigger] lengths_differ_at(hs, j, k)
}

/// The length that the `Content-Length` headers declare, where there is one
/// and they agree on a number.
pub open spec fn declared_length(hs: Seq<Field>) -> u64 {
    let j = choose|j: int| #[trigger] named(hs, j, "content-length");
    length_value(hs[j].1).unwrap()
}

/// Whether the header at `j` is a `Transfer-Encoding` that lists `chunked`.
pub open spec fn chunked_at(hs: Seq<Field>, j: int) -> bool {
    named(hs, j, "transfer-encoding") && items_have(list_items(hs[j].1), "chunked".spec_bytes())
}

/// Whether the body is chunked.
pub open spec fn is_chunked(hs: Seq<Field>) -> bool {
    exists|j: int| #[trigger] chunked_at(hs, j)
}

/// Whether the header at `j` is a `Connection` that lists `upgrade`.
pub open spec fn upgrade_at(hs: Seq<Field>, j: int) -> bool {
    named(hs, j, "connection") && items_have(list_items(hs[j].1), "upgrade".spec_bytes())
}

/// Whether the request asks for an upgrade of the connection.
pub open spec fn wants_upgrade(hs: Seq<Field>) -> bool {
    exists|j: int| #[trigger] upgrade_at(hs, j)
}

/// Whether the header at `j` is `Expect: 100-continue`.
pub open spec fn expect_at(hs: Seq<Field>, j: int) -> bool {
    named(hs, j, "expect") && eq_ignore_case(trim(hs[j].1), "100-continue".spec_bytes())
}

/// Whether the request bears `Expect: 100-continue`.
pub open spec fn expects_continue(hs: Seq<Field>) -> bool {
    exists|j: int| #[trigger] expect_at(hs, j)
}

/// The coding of the request body that the headers declare.
///
/// A `Content-Length` that is no number is rejected, and so are two that
/// disagree, and one beside a chunked `Transfer-Encoding`. Otherwise an
/// upgrade comes first, then chunked, then a length above zero; what is left
/// has no body.
pub open spec fn body_coding(hs: Seq<Field>) -> Result<TransferCoding, Parse> {
    if bad_length(hs) {
        Err(Parse::HeaderValue)
    } else if lengths_differ(hs) || (is_chunked(hs) && has_length(hs)) {
        Err(Parse::Framing)
    } else if wants_upgrade(hs) {
        Ok(TransferCoding::Upgrade)
    } else if is_chunked(hs) {
        Ok(TransferCoding::Chunked(ChunkedState::Size, 0))
    } else if has_length(hs) && declared_length(hs) > 0 {
        Ok(TransferCoding::Length(declared_length(hs)))
    } else {
        Ok(TransferCoding::Eof)
    }
}

/// The connection type after one element of a `Connection` header.
pub open spec fn token_applied(item: Seq<u8>, c: ConnectionType) -> ConnectionType {
    if eq_ignore_case(item, "keep-alive".spec_bytes()) {
        ConnectionType::KeepAlive
    } else if eq_ignore_case(item, "close".spec_bytes()) {
        ConnectionType::Close
    } else {
        c
    }
}

/// The connection type after the elements `items`, taken in order.
pub open spec fn tokens_applied(items: Seq<Seq<u8>>, c: ConnectionType) -> ConnectionType
    decreases items.len(),
{
    if items.len() == 0 {
        c
    } else {
        tokens_applied(items.drop_first(), token_applied(items[0], c))
    }
}

/// The connection type after the headers `hs`, taken in order, beginning
/// with `c`: each `keep-alive` or `close` of a `Connection` header overrides
/// what stood before.
pub open spec fn connection_type(hs: Seq<Field>, c: ConnectionType) -> ConnectionType
    decreases hs.len(),
{
    if hs.len() == 0 {
        c
    } else {
        connection_type(
            hs.drop_first(),
            if named(hs, 0, "connection") {
                tokens_applied(list_items(hs[0].1), c)
            } else {
                c
            },
        )
    }
}

/// The connection type that a version stands for where no header says
/// otherwise: HTTP/1.1 keeps the connection, HTTP/1.0 closes it.
pub open spec fn default_type(minor: u8) -> ConnectionType {
    if minor == 1 {
        ConnectionType::KeepAlive
    } else {
        ConnectionType::Close
    }
}

/// The version that a minor version number stands for.
pub open spec fn version_of(minor: u8) -> Version {
    if minor == 1 {
        Version::Http11
    } else {
        Version::Http10
    }
}

/// What a `Connection` header value makes of the connection type `start`.
fn apply_connection(value: &[u8], start: ConnectionType) -> (r: ConnectionType)
    ensures
        r == tokens_applied(list_items(value@), start),
{
    let n: usize = value.len();
    let mut pos: usize = 0;
    let mut cur: ConnectionType = start;
    assert(value@.skip(0) =~= value@);
    loop
        invariant
            n == value@.len(),
            0 <= pos <= n,
            tokens_applied(list_items(value@), start) == tokens_applied(
                list_items(value@.skip(pos as int)),
                cur,
            ),
        decreases n - pos,
    {
        let (item, end) = next_item(value, pos);
        let ghost here = list_items(value@.skip(pos as int));
        let next: ConnectionType = if bytes_eq_ignore_case(item, "keep-alive".as_bytes()) {
            ConnectionType::KeepAlive
        } else if bytes_eq_ignore_case(item, "close".as_bytes()) {
            ConnectionType::Close
        } else {
            cur
        };
        assert(next == token_applied(here[0], cur));
        if end >= n {
            assert(here.drop_first() =~= Seq::<Seq<u8>>::empty());
            assert(tokens_applied(here.drop_first(), next) == next);
            return next;
        }
        assert(here.drop_first() =~= list_items(value@.skip(end + 1)));
        cur = next;
        pos = end + 1;
    }
}

/// What the headers of a request declare: the coding of its body, the
/// connection type and whether it expects `100 Continue`.
pub fn read_headers(headers: &Vec<Header>, minor: u8) -> (r: Result<
    (TransferCoding, ConnectionType, bool),
    Parse,
>)
    ensures
        match r {
            Ok((coding, ctype, expect)) => {
                &&& body_coding(header_views(headers@)) == Ok::<TransferCoding, Parse>(coding)
                &&& ctype == connection_type(header_views(headers@), default_type(minor))
                &&& expect == expects_continue(header_views(headers@))
            },
            Err(e) => body_coding(header_views(headers@)) == Err::<TransferCoding, Parse>(e),
        },
{
    let ghost hs = header_views(headers@);
    let n: usize = headers.len();
    let mut i: usize = 0;
    let mut bad: bool = false;
    let mut seen: bool = false;
    let mut differ: bool = false;
    let mut cur: Option<u64> = None;
    let mut chunked: bool = false;
    let mut upgrade: bool = false;
    let mut expect: bool = false;
    let mut ctype: ConnectionType = if minor == 1 {
        ConnectionType::KeepAlive
    } else {
        ConnectionType::Close
    };
    assert(hs.skip(0) =~= hs);
    while i < n
        invariant
            hs == header_views(headers@),
            n == headers@.len(),
            n == hs.len(),
            0 <= i <= n,
            bad == (exists|j: int| j < i && #[trigger] named(hs, j, "content-length") && length_value(
                hs[j].1,
            ) is None),
            seen == (exists|j: int| j < i && #[trigger] named(hs, j, "content-length")),
            differ == (exists|j: int, k: int| j < i && k < i && #[trigger] lengths_differ_at(hs, j, k)),
            !differ ==> forall|j: int|
                j < i && #[trigger] named(hs, j, "content-length") ==> length_value(hs[j].1) == cur,
            chunked == (exists|j: int| j < i && #[trigger] chunked_at(hs, j)),
            upgrade == (exists|j: int| j < i && #[trigger] upgrade_at(hs, j)),
            expect == (exists|j: int| j < i && #[trigger] expect_at(hs, j)),
            connection_type(hs, default_type(minor)) == connection_type(hs.skip(i as int), ctype),
        decreases n - i,
    {
        let h: &Header = &headers[i];
        let name: &[u8] = h.name.as_slice();
        let value: &[u8] = h.value.as_slice();
        assert(hs[i as int] == (name@, value@));
        assert(hs.skip(i as int).drop_first() =~= hs.skip(i + 1));
        assert(hs.skip(i as int)[0] == hs[i as int]);
        let ghost differ0 = differ;
        let ghost cur0 = cur;
        if bytes_eq_ignore_case(name, "content-length".as_bytes()) {
            assert(named(hs, i as int, "content-length"));
            let (lo, hi) = trim_bounds(value);
            let parsed: Option<u64> = parse_dec(vstd::slice::slice_subrange(value, lo, hi));
            assert(parsed == length_value(hs[i as int].1));
            if parsed.is_none() {
                bad = true;
            }
            if !seen {
                cur = parsed;
            } else if !differ {
                let same: bool = match (cur, parsed) {
                    (Some(a), Some(b)) => a == b,
                    (None, None) => true,
                    _ => false,
                };
                if !same {
                    differ = true;
                    proof {
                        let j = choose|j: int| j < i && #[trigger] named(hs, j, "content-length");
                        assert(lengths_differ_at(hs, j, i as int));
                    }
                }
            }
            seen = true;
            proof {
                if differ0 {
                    let (j, k) = choose|j: int, k: int|
                        j < i && k < i && #[trigger] lengths_differ_at(hs, j, k);
                    assert(j < i + 1 && k < i + 1 && lengths_differ_at(hs, j, k));
                }
                if !differ {
                    assert forall|j: int, k: int| j < i + 1 && k < i + 1 implies !#[trigger] lengths_differ_at(
                        hs,
                        j,
                        k,
                    ) by {
                        if lengths_differ_at(hs, j, k) {
                            if j < i && k < i {
                                assert(differ0);
                            }
                        }
                    }
                }
            }
        } else {
            assert(!named(hs, i as int, "content-length"));
            proof {
                if differ0 {
                    let (j, k) = choose|j: int, k: int|
                        j < i && k < i && #[trigger] lengths_differ_at(hs, j, k);
                    assert(j < i + 1 && k < i + 1 && lengths_differ_at(hs, j, k));
                } else {
                    assert forall|j: int, k: int| j < i + 1 && k < i + 1 implies !#[trigger] lengths_differ_at(
                        hs,
                        j,
                        k,
                    ) by {
                        if lengths_differ_at(hs, j, k) {
                            assert(j < i && k < i);
                        }
                    }
                }
            }
        }
        if bytes_eq_ignore_case(name, "transfer-encoding".as_bytes()) {
            if list_has(value, "chunked".as_bytes()) {
                assert(chunked_at(hs, i as int));
                chunked = true;
            }
        }
        if bytes_eq_ignore_case(name, "connection".as_bytes()) {
            if list_has(value, "upgrade".as_bytes()) {
                assert(upgrade_at(hs, i as int));
                upgrade = true;
            }
            ctype = apply_connection(value, ctype);
        }
        if bytes_eq_ignore_case(name, "expect".as_bytes()) {
            let (lo, hi) = trim_bounds(value);
            if bytes_eq_ignore_case(
                vstd::slice::slice_subrange(value, lo, hi),
                "100-continue".as_bytes(),
            ) {
                assert(expect_at(hs, i as int));
                expect = true;
            }
        }
        i = i + 1;
    }
    proof {
        assert(hs.skip(n as int) =~= Seq::<Field>::empty());
        assert(bad == bad_length(hs));
        assert(seen == has_length(hs));
        assert(differ == lengths_differ(hs));
        assert(chunked == is_chunked(hs));
        assert(upgrade == wants_upgrade(hs));
        assert(expect == expects_continue(hs));
    }
    if bad {
        Err(Parse::HeaderValue)
    } else if differ || (chunked && seen) {
        Err(Parse::Framing)
    } else if upgrade {
        Ok((TransferCoding::Upgrade, ctype, expect))
    } else if chunked {
        Ok((TransferCoding::Chunked(ChunkedState::Size, 0), ctype, expect))
    } else {
        match cur {
            Some(len) => {
                if seen && len > 0 {
                    Ok((TransferCoding::Length(len), ctype, expect))
                } else {
                    Ok((TransferCoding::Eof, ctype, expect))
                }
            },
            None => Ok((TransferCoding::Eof, ctype, expect)),
        }
    }
}

/// What a decoded head tells: the head itself, the coding of the body, the
/// connection type and the expect flag.
pub struct HeadFacts {
    pub head: RawHeadView,
    pub coding: TransferCoding,
    pub ctype: ConnectionType,
    pub expect: bool,
}

/// What decoding makes of the parser's answer, with `buffered` bytes in a
/// read buffer of limit `limit`.
///
/// An incomplete head in a buffer that cannot grow is a head too large. A
/// complete head is rejected where its headers disagree about the body.
pub open spec fn head_decoded(
    parsed: Result<Option<RawHeadView>, Parse>,
    buffered: nat,
    limit: nat,
) -> Result<Option<HeadFacts>, ProtoError> {
    match parsed {
        Err(e) => Err(ProtoError::Parse(e)),
        Ok(None) => if buffered >= limit {
            Err(ProtoError::Parse(Parse::HeaderTooLarge))
        } else {
            Ok(None)
        },
        Ok(Some(head)) => match body_coding(head.headers) {
            Err(e) => Err(ProtoError::Parse(e)),
            Ok(coding) => Ok(
                Some(
                    HeadFacts {
                        head,
                        coding,
                        ctype: connection_type(head.headers, default_type(head.minor)),
                        expect: expects_continue(head.headers),
                    },
                ),
            ),
        },
    }
}

/// The state that belongs to one connection.
#[derive(Clone, Copy, Debug)]
pub struct Context<const HEADER_LIMIT: usize> {
    /// Whether the connection serves another request.
    pub ctype: ConnectionType,
    /// Whether the current request bears `Expect: 100-continue`.
    pub expect: bool,
    /// The version of the current request.
    pub version: Version,
}

/// Whether `r` is what `decode_head` owes for the outcome `d`, on a buffer
/// that held `before` and holds `after`, in a context that was `old_ctx` and
/// is `ctx`: on a head, the request and its coding, the context set from the
/// headers and the head gone from the buffer; otherwise nothing changed.
pub open spec fn head_result<const HEADER_LIMIT: usize>(
    d: Result<Option<HeadFacts>, ProtoError>,
    r: Result<Option<(Request<()>, TransferCoding)>, ProtoError>,
    before: Seq<u8>,
    after: Seq<u8>,
    old_ctx: Context<HEADER_LIMIT>,
    ctx: Context<HEADER_LIMIT>,
) -> bool {
    match d {
        Err(e) => r == Err::<Option<(Request<()>, TransferCoding)>, ProtoError>(e) && after == before
            && ctx == old_ctx,
        Ok(None) => r == Ok::<Option<(Request<()>, TransferCoding)>, ProtoError>(None) && after
            == before && ctx == old_ctx,
        Ok(Some(f)) => {
            &&& r matches Ok(Some((req, coding)))
            &&& coding == f.coding
            &&& req.method@ == f.head.method
            &&& req.uri@ == f.head.path
            &&& req.version == version_of(f.head.minor)
            &&& header_views(req.headers@) == f.head.headers
            &&& ctx.ctype == f.ctype
            &&& ctx.expect == f.expect
            &&& ctx.version == version_of(f.head.minor)
            &&& after == before.skip(f.head.len as int)
        },
    }
}

impl<const HEADER_LIMIT: usize> Context<HEADER_LIMIT> {
    /// The context of a fresh connection.
    pub fn new() -> (r: Self)
        ensures
            r.ctype == ConnectionType::Init,
            !r.expect,
            r.version == Version::Http11,
    {
        Context { ctype: ConnectionType::Init, expect: false, version: Version::Http11 }
    }

    /// The connection type.
    pub fn ctype(&self) -> (r: ConnectionType)
        ensures
            r == self.ctype,
    {
        self.ctype
    }

    /// Sets the connection type.
    pub fn set_ctype(&mut self, ctype: ConnectionType)
        ensures
            final(self).ctype == ctype,
            final(self).expect == old(self).expect,
            final(self).version == old(self).version,
    {
        self.ctype = ctype;
    }

    /// Whether the current request bears `Expect: 100-continue`.
    pub fn is_expect_header(&self) -> (r: bool)
        ensures
            r == self.expect,
    {
        self.expect
    }

    /// Whether the connection is to be closed after the current response.
    pub fn is_connection_closed(&self) -> (r: bool)
        ensures
            r == (self.ctype == ConnectionType::Close),
    {
        match self.ctype {
            ConnectionType::Close => true,
            _ => false,
        }
    }

    /// Decodes a request head from what the parser made of the front of
    /// `buf`.
    pub fn decode_parsed<const READ_BUF_LIMIT: usize>(
        &mut self,
        buf: &mut ReadBuf<READ_BUF_LIMIT>,
        parsed: Result<Option<RawHead>, Parse>,
    ) -> (r: Result<Option<(Request<()>, TransferCoding)>, ProtoError>)
        requires
            parsed matches Ok(Some(h)) ==> h.len <= old(buf)@.len(),
        ensures
            head_result(
                head_decoded(parsed_view(parsed), old(buf)@.len(), READ_BUF_LIMIT as nat),
                r,
                old(buf)@,
                final(buf)@,
                *old(self),
                *final(self),
            ),
            old(buf).inv() ==> final(buf).inv(),
    {
        match parsed {
            Err(e) => Err(ProtoError::Parse(e)),
            Ok(None) => {
                if buf.len() >= READ_BUF_LIMIT {
                    Err(ProtoError::Parse(Parse::HeaderTooLarge))
                } else {
                    Ok(None)
                }
            },
            Ok(Some(head)) => {
                match read_headers(&head.headers, head.minor) {
                    Err(e) => Err(ProtoError::Parse(e)),
                    Ok((coding, ctype, expect)) => {
                        buf.advance(head.len);
                        self.ctype = ctype;
                        self.expect = expect;
                        let version: Version = if head.minor == 1 {
                            Version::Http11
                        } else {
                            Version::Http10
                        };
                        self.version = version;
                        let req: Request<()> = Request {
                            method: head.method,
                            uri: head.path,
                            version,
                            headers: head.headers,
                            body: (),
                        };
                        Ok(Some((req, coding)))
                    },
                }
            },
        }
    }

    /// Decodes a request head from the front of `buf`, with at most
    /// `HEADER_LIMIT` headers.
    ///
    /// Returns the request and the coding of its body and takes the head out
    /// of the buffer, or `None` where the head is not complete yet, or the
    /// reason for which the head is rejected.
    pub fn decode_head<const READ_BUF_LIMIT: usize>(
        &mut self,
        buf: &mut ReadBuf<READ_BUF_LIMIT>,
    ) -> (r: Result<Option<(Request<()>, TransferCoding)>, ProtoError>)
        ensures
            head_result(
                head_decoded(
                    parsed_request(old(buf)@, HEADER_LIMIT as nat),
                    old(buf)@.len(),
                    READ_BUF_LIMIT as nat,
                ),
                r,
                old(buf)@,
                final(buf)@,
                *old(self),
                *final(self),
            ),
            old(buf).inv() ==> final(buf).inv(),
    {
        let parsed = parse_request(buf.as_slice(), HEADER_LIMIT);
        self.decode_parsed(buf, parsed)
    }
}

} // verus!
