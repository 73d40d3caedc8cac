//! The headers of a multipart body and of its parts.

use vstd::prelude::*;
use vstd::string::StringSliceAdditionalSpecFns;
use crate::ascii::{bytes_eq_ignore_case, dec_u64, eq_ignore_case, parse_dec};
use crate::context::{named, Field};
use crate::error::Parse;
use crate::message::{header_views, Header};

verus! {

/// Why the headers of a multipart body or of one of its parts are rejected.
#[derive(Clone, Copy, Debug, PartialEq, Eq, Structural)]
pub enum MultipartError {
    /// There is no `Content-Type`.
    NoContentType,
    /// The `Content-Type` is no media type.
    ParseContentType,
    /// The media type names no boundary.
    Boundary,
    /// A part has no `Content-Disposition`.
    NoContentDisposition,
    /// A part is itself a multipart body.
    Nested,
    /// The headers are malformed.
    Header(Parse),
}

/// What this crate reads of a media type.
#[derive(Debug)]
pub struct MediaType {
    /// The top-level type, as it was written.
    pub kind: Vec<u8>,
    /// The value of the `boundary` parameter, if there is one.
    pub boundary: Option<Vec<u8>>,
}

/// A `MediaType` as mathematical values.
pub struct MediaTypeView {
    pub kind: Seq<u8>,
    pub boundary: Option<Seq<u8>>,
}

impl View for MediaType {
    type V = MediaTypeView;

    open spec fn view(&self) -> MediaTypeView {
        MediaTypeView {
            kind: self.kind@,
            boundary: match self.boundary {
                Some(b) => Some(b@),
                None => None,
            },
        }
    }
}

/// A parsed media type as mathematical values.
pub open spec fn media_view(r: Option<MediaType>) -> Option<MediaTypeView> {
    match r {
        Some(m) => Some(m@),
        None => None,
    }
}

/// What the `mime` crate makes of `value` as a media type: its top-level
/// type and its boundary, or `None` where `value` is none.
pub uninterp spec fn parsed_media_type(value: Seq<u8>) -> Option<MediaTypeView>;

/// `mime::Mime::from_str`, with the parsed type's `type_` and its
/// `get_param(BOUNDARY)`. The answer is a function of the value; a value
/// that is not UTF-8 is no media type.
#[verifier::external_body]
pub(crate) fn parse_media_type(value: &[u8]) -> (r: Option<MediaType>)
    ensures
        media_view(r) == parsed_media_type(value@),
{
    let parsed = std::str::from_utf8(value).ok()?.parse::<mime::Mime>().ok()?;
    Some(MediaType {
        kind: parsed.type_().as_str().into(),
        boundary: parsed.get_param(mime::BOUNDARY).map(|b| b.as_str().into()),
    })
}

/// The parser's answer on a block of headers as mathematical values.
pub open spec fn block_view(r: Result<Option<Vec<Header>>, Parse>) -> Result<
    Option<Seq<Field>>,
    Parse,
> {
    match r {
        Ok(Some(hs)) => Ok(Some(header_views(hs@))),
        Ok(None) => Ok(None),
        Err(e) => Err(e),
    }
}

/// What `httparse` makes of `input` as a block of headers, given `slots`
/// header slots: the headers, `None` where the block is not complete, or
/// the reason for which it is rejected.
pub uninterp spec fn parsed_headers(input: Seq<u8>, slots: nat) -> Result<Option<Seq<Field>>, Parse>;

/// `httparse::parse_headers`, with a fresh array of `slots` header slots.
/// The answer is a function of the input and the number of slots.
/// `TooManyHeaders` is reported as a head too large, every other error as
/// malformed.
#[verifier::external_body]
pub(crate) fn parse_header_block(input: &[u8], slots: usize) -> (r: Result<
    Option<Vec<Header>>,
    Parse,
>)
    ensures
        block_view(r) == parsed_headers(input@, slots as nat),
{
    let mut headers = vec![httparse::EMPTY_HEADER; slots];
    match httparse::parse_headers(input, &mut headers) {
        Ok(httparse::Status::Complete((_, hs))) => Ok(Some(
            hs.iter().map(|h| Header { name: h.name.into(), value: h.value.into() }).collect(),
        )),
        Ok(httparse::Status::Partial) => Ok(None),
        Err(httparse::Error::TooManyHeaders) => Err(Parse::HeaderTooLarge),
        Err(_) => Err(Parse::Malformed),
    }
}

/// The number of header slots for the headers of one part.
pub const PART_HEADERS: usize = 16;

/// What `parse_headers` makes of the parser's answer: a block that is not
/// complete is rejected like one with too many headers.
pub open spec fn headers_parsed(parsed: Result<Option<Seq<Field>>, Parse>) -> Result<
    Seq<Field>,
    MultipartError,
> {
    match parsed {
        Ok(Some(hs)) => Ok(hs),
        Ok(None) => Err(MultipartError::Header(Parse::HeaderTooLarge)),
        Err(e) => Err(MultipartError::Header(e)),
    }
}

/// The headers of a part from what the parser made of them.
pub fn headers_from(parsed: Result<Option<Vec<Header>>, Parse>) -> (r: Result<
    Vec<Header>,
    MultipartError,
>)
    ensures
        match r {
            Ok(hs) => headers_parsed(block_view(parsed)) == Ok::<Seq<Field>, MultipartError>(
                header_views(hs@),
            ),
            Err(e) => headers_parsed(block_view(parsed)) == Err::<Seq<Field>, MultipartError>(e),
        },
{
    match parsed {
        Ok(Some(hs)) => Ok(hs),
        Ok(None) => Err(MultipartError::Header(Parse::HeaderTooLarge)),
        Err(e) => Err(MultipartError::Header(e)),
    }
}

/// Parses the headers of one part, of which there are at most sixteen.
pub fn parse_headers(slice: &[u8]) -> (r: Result<Vec<Header>, MultipartError>)
    ensures
        match r {
            Ok(hs) => headers_parsed(parsed_headers(slice@, PART_HEADERS as nat)) == Ok::<
                Seq<Field>,
                MultipartError,
            >(header_views(hs@)),
            Err(e) => headers_parsed(parsed_headers(slice@, PART_HEADERS as nat)) == Err::<
                Seq<Field>,
                MultipartError,
            >(e),
        },
{
    headers_from(parse_header_block(slice, PART_HEADERS))
}

/// The index of the first header of the name `name`, or the number of
/// headers where there is none.
pub open spec fn first_named(hs: Seq<Field>, name: &str) -> int
    decreases hs.len(),
{
    if hs.len() == 0 || named(hs, 0, name) {
        0
    } else {
        1 + first_named(hs.drop_first(), name)
    }
}

/// Finds the first header of the name `name`.
pub fn find_header(headers: &Vec<Header>, name: &str) -> (r: Option<usize>)
    ensures
        match r {
            Some(i) => i < headers@.len() && i == first_named(header_views(headers@), name),
            None => first_named(header_views(headers@), name) == headers@.len(),
        },
{
    let ghost hs = header_views(headers@);
    let n: usize = headers.len();
    let mut i: usize = 0;
    assert(hs.skip(0) =~= hs);
    while i < n
        invariant
            hs == header_views(headers@),
            n == hs.len(),
            0 <= i <= n,
            first_named(hs, name) == i + first_named(hs.skip(i as int), name),
        decreases n - i,
    {
        assert(hs.skip(i as int)[0] == hs[i as int]);
        assert(hs[i as int].0 == headers@[i as int].name@);
        if bytes_eq_ignore_case(headers[i].name.as_slice(), name.as_bytes()) {
            return Some(i);
        }
        assert(hs.skip(i as int).drop_first() =~= hs.skip(i + 1));
        i = i + 1;
    }
    None
}

/// Whether a header value is text: visible ASCII, space and tab.
pub open spec fn is_text(value: Seq<u8>) -> bool {
    forall|i: int| 0 <= i < value.len() ==> 32 <= #[trigger] value[i] < 127 || value[i] == 9
}

/// Computes `is_text`.
pub fn check_text(value: &[u8]) -> (r: bool)
    ensures
        r == is_text(value@),
{
    let n: usize = value.len();
    let mut i: usize = 0;
    while i < n
        invariant
            n == value@.len(),
            0 <= i <= n,
            forall|j: int| 0 <= j < i ==> 32 <= #[trigger] value@[j] < 127 || value@[j] == 9,
        decreases n - i,
    {
        let b: u8 = value[i];
        if !((32 <= b && b < 127) || b == 9) {
            return false;
        }
        i = i + 1;
    }
    true
}

/// The media type that a header value denotes, given what the parser makes
/// of it: only text is parsed.
pub open spec fn media_type_of(value: Seq<u8>, parsed: Option<MediaTypeView>) -> Option<
    MediaTypeView,
> {
    if is_text(value) {
        parsed
    } else {
        None
    }
}

/// The boundary that the headers name, given the media type `media` of
/// their first `Content-Type`.
pub open spec fn boundary_of(hs: Seq<Field>, media: Option<MediaTypeView>) -> Result<
    Seq<u8>,
    MultipartError,
> {
    if first_named(hs, "content-type") >= hs.len() {
        Err(MultipartError::NoContentType)
    } else {
        match media {
            None => Err(MultipartError::ParseContentType),
            Some(m) => match m.boundary {
                None => Err(MultipartError::Boundary),
                Some(b) => Ok(b),
            },
        }
    }
}

/// The boundary from the parsed media type of the first `Content-Type`, if
/// there is such a header.
pub fn boundary_from(found: Option<Option<MediaType>>) -> (r: Result<Vec<u8>, MultipartError>)
    ensures
        match r {
            Ok(b) => found matches Some(Some(m)) && m.boundary matches Some(given) && given@ == b@,
            Err(e) => e == match found {
                None => MultipartError::NoContentType,
                Some(None) => MultipartError::ParseContentType,
                Some(Some(m)) => MultipartError::Boundary,
            } && !(found matches Some(Some(m)) && m.boundary is Some),
        },
{
    match found {
        None => Err(MultipartError::NoContentType),
        Some(None) => Err(MultipartError::ParseContentType),
        Some(Some(m)) => match m.boundary {
            None => Err(MultipartError::Boundary),
            Some(b) => Ok(b),
        },
    }
}

/// The media type of a header value.
fn media_type(value: &[u8]) -> (r: Option<MediaType>)
    ensures
        media_view(r) == media_type_of(value@, parsed_media_type(value@)),
{
    if check_text(value) {
        parse_media_type(value)
    } else {
        None
    }
}

/// The media type of the first `Content-Type` among `hs`, by what the
/// parser makes of its value.
pub open spec fn content_type(hs: Seq<Field>) -> Option<MediaTypeView> {
    let i = first_named(hs, "content-type");
    if i >= hs.len() {
        None
    } else {
        media_type_of(hs[i].1, parsed_media_type(hs[i].1))
    }
}

/// The boundary of a multipart body, from the headers of its request.
pub fn boundary(headers: &Vec<Header>) -> (r: Result<Vec<u8>, MultipartError>)
    ensures
        match r {
            Ok(b) => boundary_of(header_views(headers@), content_type(header_views(headers@)))
                == Ok::<Seq<u8>, MultipartError>(b@),
            Err(e) => boundary_of(header_views(headers@), content_type(header_views(headers@)))
                == Err::<Seq<u8>, MultipartError>(e),
        },
{
    let found = match find_header(headers, "content-type") {
        None => None,
        Some(i) => {
            assert(header_views(headers@)[i as int].1 == headers@[i as int].value@);
            Some(media_type(headers[i].value.as_slice()))
        },
    };
    boundary_from(found)
}

/// Whether the headers of a part are admitted, given the media type
/// `media` of their first `Content-Type`: a `Content-Disposition` is
/// required, and a part of the type `multipart` is refused. A part without
/// a media type is taken for a stream of bytes.
pub open spec fn part_checked(hs: Seq<Field>, media: Option<MediaTypeView>) -> Result<
    (),
    MultipartError,
> {
    if first_named(hs, "content-disposition") >= hs.len() {
        Err(MultipartError::NoContentDisposition)
    } else if media matches Some(m) && eq_ignore_case(m.kind, "multipart".spec_bytes()) {
        Err(MultipartError::Nested)
    } else {
        Ok(())
    }
}

/// Decides on a part from whether it has a `Content-Disposition` and from
/// the parsed media type of its `Content-Type`, if it has one.
pub fn part_from(disposition: bool, media: Option<MediaType>) -> (r: Result<(), MultipartError>)
    ensures
        r == if !disposition {
            Err::<(), MultipartError>(MultipartError::NoContentDisposition)
        } else if media matches Some(m) && eq_ignore_case(m.kind@, "multipart".spec_bytes()) {
            Err(MultipartError::Nested)
        } else {
            Ok(())
        },
{
    if !disposition {
        return Err(MultipartError::NoContentDisposition);
    }
    match media {
        Some(m) => {
            if bytes_eq_ignore_case(m.kind.as_slice(), "multipart".as_bytes()) {
                return Err(MultipartError::Nested);
            }
        },
        None => {},
    }
    Ok(())
}

/// Checks the headers of one part.
pub fn check_headers(headers: &Vec<Header>) -> (r: Result<(), MultipartError>)
    ensures
        r == part_checked(header_views(headers@), content_type(header_views(headers@))),
{
    let disposition: bool = find_header(headers, "content-disposition").is_some();
    let media = match find_header(headers, "content-type") {
        None => None,
        Some(i) => {
            assert(header_views(headers@)[i as int].1 == headers@[i as int].value@);
            media_type(headers[i].value.as_slice())
        },
    };
    part_from(disposition, media)
}

/// The number that a `Content-Length` of a part denotes: digits, with a
/// plus sign in front of them at most, that fit in 64 bits.
pub open spec fn part_length(value: Seq<u8>) -> Option<u64> {
    if value.len() > 0 && value[0] == 43 {
        dec_u64(value.skip(1))
    } else {
        dec_u64(value)
    }
}

/// The length that the first `Content-Length` among `hs` declares, if there
/// is such a header.
pub open spec fn content_length_of(hs: Seq<Field>) -> Result<Option<u64>, MultipartError> {
    let i = first_named(hs, "content-length");
    if i >= hs.len() {
        Ok(None)
    } else {
        match part_length(hs[i].1) {
            Some(n) => Ok(Some(n)),
            None => Err(MultipartError::Header(Parse::HeaderValue)),
        }
    }
}

/// The length of a part, if its headers declare one.
pub fn content_length_opt(headers: &Vec<Header>) -> (r: Result<Option<u64>, MultipartError>)
    ensures
        r == content_length_of(header_views(headers@)),
{
    match find_header(headers, "content-length") {
        None => Ok(None),
        Some(i) => {
            assert(header_views(headers@)[i as int].1 == headers@[i as int].value@);
            let value: &[u8] = headers[i].value.as_slice();
            let digits: &[u8] = if value.len() > 0 && value[0] == 43 {
                let rest = vstd::slice::slice_subrange(value, 1, value.len());
                assert(rest@ =~= value@.skip(1));
                rest
            } else {
                value
            };
            match parse_dec(digits) {
                Some(n) => Ok(Some(n)),
                None => Err(MultipartError::Header(Parse::HeaderValue)),
            }
        },
    }
}

} // verus!
