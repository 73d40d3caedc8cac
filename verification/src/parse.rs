//! Parsing of a request head by the `httparse` crate.

use vstd::prelude::*;
use crate::error::Parse;
use crate::message::{header_views, Header};

verus! {

/// A complete request head as the parser found it.
pub struct RawHead {
    /// The method token.
    pub method: Vec<u8>,
    /// The request target.
    pub path: Vec<u8>,
    /// The minor version: 0 for HTTP/1.0, 1 for HTTP/1.1.
    pub minor: u8,
    /// The header lines, in order.
    pub headers: Vec<Header>,
    /// The length of the head in the input, its final empty line included.
    pub len: usize,
}

/// A `RawHead` as mathematical values.
pub struct RawHeadView {
    pub method: Seq<u8>,
    pub path: Seq<u8>,
    pub minor: u8,
    pub headers: Seq<(Seq<u8>, Seq<u8>)>,
    pub len: nat,
}

impl View for RawHead {
    type V = RawHeadView;

    open spec fn view(&self) -> RawHeadView {
        RawHeadView {
            method: self.method@,
            path: self.path@,
            minor: self.minor,
            headers: header_views(self.headers@),
            len: self.len as nat,
        }
    }
}

/// The parser's answer as mathematical values.
pub open spec fn parsed_view(r: Result<Option<RawHead>, Parse>) -> Result<
    Option<RawHeadView>,
    Parse,
> {
    match r {
        Ok(Some(h)) => Ok(Some(h@)),
        Ok(None) => Ok(None),
        Err(e) => Err(e),
    }
}

/// What `httparse` makes of `input` as the front of a request, given
/// `slots` header slots: a complete head, `None` where the head is not
/// complete yet, or the reason for which it is rejected.
pub uninterp spec fn parsed_request(input: Seq<u8>, slots: nat) -> Result<
    Option<RawHeadView>,
    Parse,
>;

/// `httparse::Request::parse`, with a fresh array of `slots` header slots.
///
/// The answer is a function of the input and the number of slots. A
/// complete head ends inside the input: the parser returns the offset at
/// which the body begins. `TooManyHeaders` is reported as a head too large,
/// every other error as a malformed head.
#[verifier::external_body]
pub(crate) fn parse_request(input: &[u8], slots: usize) -> (r: Result<Option<RawHead>, Parse>)
    ensures
        parsed_view(r) == parsed_request(input@, slots as nat),
        r matches Ok(Some(h)) ==> h.len <= input@.len(),
{
    let mut headers = vec![httparse::EMPTY_HEADER; slots];
    let mut req = httparse::Request::new(&mut headers);
    match req.parse(input) {
        Ok(httparse::Status::Complete(len)) => Ok(Some(RawHead {
            method: req.method.unwrap().into(),
            path: req.path.unwrap().into(),
            minor: req.version.unwrap(),
            headers: req.headers.iter().map(|h| Header { name: h.name.into(), value: h.value.into() }).collect(),
            len,
        })),
        Ok(httparse::Status::Partial) => Ok(None),
        Err(httparse::Error::TooManyHeaders) => Err(Parse::HeaderTooLarge),
        Err(_) => Err(Parse::Malformed),
    }
}

} // verus!
