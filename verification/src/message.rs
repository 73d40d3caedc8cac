//! The heads of requests and responses as plain values.

use vstd::prelude::*;

verus! {

/// The HTTP version of a message.
#[derive(Clone, Copy, Debug, PartialEq, Eq, Structural)]
pub enum Version {
    /// HTTP/1.0
    Http10,
    /// HTTP/1.1
    Http11,
}

/// One header line: its name and its value, both as bytes.
#[derive(Clone, Debug)]
pub struct Header {
    pub name: Vec<u8>,
    pub value: Vec<u8>,
}

impl View for Header {
    type V = (Seq<u8>, Seq<u8>);

    open spec fn view(&self) -> (Seq<u8>, Seq<u8>) {
        (self.name@, self.value@)
    }
}

/// The names and values of a list of headers, in order.
pub open spec fn header_views(headers: Seq<Header>) -> Seq<(Seq<u8>, Seq<u8>)> {
    headers.map_values(|h: Header| h@)
}

/// A request: its head, and the body that goes with it.
#[derive(Debug)]
pub struct Request<B> {
    pub method: Vec<u8>,
    pub uri: Vec<u8>,
    pub version: Version,
    pub headers: Vec<Header>,
    pub body: B,
}

impl<B> Request<B> {
    /// The same head with another body.
    pub fn map_body<C>(self, body: C) -> (r: Request<C>)
        ensures
            r.method == self.method,
            r.uri == self.uri,
            r.version == self.version,
            r.headers == self.headers,
            r.body == body,
    {
        Request {
            method: self.method,
            uri: self.uri,
            version: self.version,
            headers: self.headers,
            body,
        }
    }
}

/// The head of a response.
#[derive(Debug)]
pub struct Parts {
    pub status: u16,
    pub version: Version,
    pub headers: Vec<Header>,
}

/// What is known of the size of a response body before it is produced.
#[derive(Clone, Copy, Debug, PartialEq, Eq, Structural)]
pub enum BodySize {
    /// The response has no body.
    NoBody,
    /// The body has this many bytes.
    Sized(u64),
    /// The body is a stream of unknown length.
    Stream,
}

/// The size of a body from the bounds that its stream gives of the bytes
/// still to come: a lower bound, and an upper bound if there is one.
///
/// An upper bound is taken for the size. No upper bound means a stream of
/// unknown length. The bounds `usize::MAX` and `0`, which no stream of
/// bytes has, mark a response without a body.
pub open spec fn size_of_hint(lower: usize, upper: Option<usize>) -> BodySize {
    match upper {
        None => BodySize::Stream,
        Some(n) => if lower == usize::MAX && n == 0 {
            BodySize::NoBody
        } else {
            BodySize::Sized(n as u64)
        },
    }
}

impl BodySize {
    /// Computes `size_of_hint`.
    pub fn from_hint(lower: usize, upper: Option<usize>) -> (r: BodySize)
        ensures
            r == size_of_hint(lower, upper),
    {
        match upper {
            None => BodySize::Stream,
            Some(n) => if lower == usize::MAX && n == 0 {
                BodySize::NoBody
            } else {
                BodySize::Sized(n as u64)
            },
        }
    }
}

/// A response as a service hands it over: the head and the body.
#[derive(Debug)]
pub struct Response<B> {
    pub parts: Parts,
    pub body: B,
}

impl<B> Response<B> {
    /// Parts the head from the body.
    pub fn into_parts(self) -> (r: (Parts, B))
        ensures
            r.0 == self.parts,
            r.1 == self.body,
    {
        (self.parts, self.body)
    }
}

/// The answer to a request whose head is too large: status 431, no header,
/// an empty body.
pub fn header_too_large() -> (r: Response<Vec<u8>>)
    ensures
        r.parts.status == 431,
        r.parts.version == Version::Http11,
        r.parts.headers@ == Seq::<Header>::empty(),
        r.body@ == Seq::<u8>::empty(),
{
    Response {
        parts: Parts { status: 431, version: Version::Http11, headers: Vec::new() },
        body: Vec::new(),
    }
}

/// The answer to a malformed request: status 400, no header, an empty body.
pub fn bad_request() -> (r: Response<Vec<u8>>)
    ensures
        r.parts.status == 400,
        r.parts.version == Version::Http11,
        r.parts.headers@ == Seq::<Header>::empty(),
        r.body@ == Seq::<u8>::empty(),
{
    Response {
        parts: Parts { status: 400, version: Version::Http11, headers: Vec::new() },
        body: Vec::new(),
    }
}

} // verus!
