//! The decisions of the file server that streams media to the interface:
//! which file a request names, which bytes of it are sent, and under which
//! headers.

use crate::range::{parse_range, requested_range};
use crate::text::{decimal_text, digits_of, join, starts_with, strip_prefix};
use vstd::prelude::*;

verus! {

/// The text that `urlencoding` decodes a percent-encoded text to, or
/// nothing where what it decodes is no UTF-8.
pub uninterp spec fn percent_decoded(text: Seq<char>) -> Option<Seq<char>>;

/// Decodes percent-encoding with `urlencoding::decode`.
///
/// The contract claims only that the result is a function of the text.
#[verifier::external_body]
fn percent_decode(text: &str) -> (r: Option<String>)
    ensures
        match r {
            Some(s) => percent_decoded(text@) == Some(s@),
            None => percent_decoded(text@) is None,
        },
{
    urlencoding::decode(text).ok().map(|c| c.into_owned())
}

/// The media type that `mime_guess::from_path` gives for the extension
/// of a path, taken with `first_or_octet_stream`, which is
/// `application/octet-stream` where no type is known. Nothing is claimed
/// of the result: what counts as the extension depends on the platform.
#[verifier::external_body]
fn guess_media_type(path: &str) -> String {
    mime_guess::from_path(path).first_or_octet_stream().as_ref().to_string()
}

/// Why a request is refused.
#[derive(Clone, Copy, Debug, PartialEq, Eq, Structural)]
pub enum Refusal {
    /// The address names no video: status 404.
    NotFound,
    /// The path cannot be decoded: status 400.
    BadPath,
}

/// The file that a request names: the path after `/video/`, decoded.
pub open spec fn requested_file(url: Seq<char>) -> Result<Seq<char>, Refusal> {
    if starts_with(url, "/video/"@) {
        match percent_decoded(url.skip("/video/"@.len() as int)) {
            Some(path) => Ok(path),
            None => Err(Refusal::BadPath),
        }
    } else {
        Err(Refusal::NotFound)
    }
}

/// Reads the file that a request names from its address.
pub fn resolve_request(url: &str) -> (r: Result<String, Refusal>)
    ensures
        match r {
            Ok(path) => requested_file(url@) == Ok::<Seq<char>, Refusal>(path@),
            Err(e) => requested_file(url@) == Err::<Seq<char>, Refusal>(e),
        },
{
    match strip_prefix(url, "/video/") {
        Some(encoded) => match percent_decode(encoded) {
            Some(path) => Ok(path),
            None => Err(Refusal::BadPath),
        },
        None => Err(Refusal::NotFound),
    }
}

/// The part of a file that a response carries.
#[derive(Clone, Copy, Debug, PartialEq, Eq, Structural)]
pub struct ResponsePlan {
    /// The first byte sent.
    pub start: u64,
    /// The last byte sent.
    pub end: u64,
    /// Whether a range was asked for and understood: status 206, else 200.
    pub partial: bool,
    /// How many bytes are sent.
    pub length: u64,
}

/// The range to send: the range that the header asks for, where there is
/// a header and it is understood, and else the whole file.
pub open spec fn range_to_send(range: Option<Seq<char>>, file_size: u64) -> (u64, u64, bool) {
    match range {
        Some(h) => match requested_range(h, file_size) {
            Some((start, end)) => (start, end, true),
            None => (0, if file_size == 0 { 0 } else { (file_size - 1) as u64 }, false),
        },
        None => (0, if file_size == 0 { 0 } else { (file_size - 1) as u64 }, false),
    }
}

/// The plan for a response, where there is one: none where the range
/// starts after its end.
pub open spec fn planned(range: Option<Seq<char>>, file_size: u64) -> Option<ResponsePlan> {
    let (start, end, partial) = range_to_send(range, file_size);
    if start <= end && end - start + 1 <= u64::MAX {
        Some(ResponsePlan { start, end, partial, length: (end - start + 1) as u64 })
    } else {
        None
    }
}

/// Plans the response to a request for a file of `file_size` bytes.
///
/// A request with a `Range` header is for a file that is not empty.
pub fn plan_response(range: Option<&str>, file_size: u64) -> (r: Option<ResponsePlan>)
    requires
        range is Some ==> file_size > 0,
    ensures
        r == planned(
            match range {
                Some(h) => Some(h@),
                None => None,
            },
            file_size,
        ),
{
    let whole = (0u64, if file_size == 0 { 0 } else { file_size - 1 }, false);
    let (start, end, partial) = match range {
        Some(h) => match parse_range(h, file_size) {
            Some((s, e)) => (s, e, true),
            None => whole,
        },
        None => whole,
    };
    if start > end || end - start == u64::MAX {
        return None;
    }
    Some(ResponsePlan { start, end, partial, length: end - start + 1 })
}

/// The status of a response.
pub fn status_code(plan: &ResponsePlan) -> (r: u16)
    ensures
        r == if plan.partial { 206u16 } else { 200u16 },
{
    if plan.partial {
        206
    } else {
        200
    }
}

/// The value of the `Content-Range` header: `bytes`, the first and last
/// byte and the size of the file.
pub open spec fn content_range(plan: ResponsePlan, file_size: u64) -> Seq<char> {
    "bytes "@ + digits_of(plan.start as nat, 10) + "-"@ + digits_of(plan.end as nat, 10) + "/"@
        + digits_of(file_size as nat, 10)
}

/// The headers of a response, in order.
pub open spec fn headers_of(plan: ResponsePlan, media_type: Seq<char>, file_size: u64) -> Seq<
    (Seq<char>, Seq<char>),
> {
    let always = seq![
        ("Accept-Ranges"@, "bytes"@),
        ("Content-Length"@, digits_of(plan.length as nat, 10)),
        ("Content-Type"@, media_type),
    ];
    if plan.partial {
        always.push(("Content-Range"@, content_range(plan, file_size)))
    } else {
        always
    }
}

/// The views of a list of headers.
pub open spec fn header_views(headers: Seq<(String, String)>) -> Seq<(Seq<char>, Seq<char>)> {
    headers.map_values(|h: (String, String)| (h.0@, h.1@))
}

/// Writes a header.
fn header(name: &str, value: String) -> (r: (String, String))
    ensures
        r.0@ == name@,
        r.1@ == value@,
{
    (name.to_owned(), value)
}

/// The headers of a response that carries the planned part of a file of
/// the given media type.
pub fn response_headers(plan: &ResponsePlan, media_type: &str, file_size: u64) -> (r: Vec<
    (String, String),
>)
    ensures
        header_views(r@) == headers_of(*plan, media_type@, file_size),
{
    let mut out: Vec<(String, String)> = Vec::new();
    out.push(header("Accept-Ranges", "bytes".to_owned()));
    out.push(header("Content-Length", decimal_text(plan.length)));
    out.push(header("Content-Type", media_type.to_owned()));
    if plan.partial {
        let mut value = join("bytes ", decimal_text(plan.start).as_str());
        value.append("-");
        value.append(decimal_text(plan.end).as_str());
        value.append("/");
        value.append(decimal_text(file_size).as_str());
        out.push(header("Content-Range", value));
    }
    out
}

/// The headers of a response for the file at `path`, whose media type is
/// guessed from the path.
pub fn headers_for_file(plan: &ResponsePlan, path: &str, file_size: u64) -> (r: Vec<
    (String, String),
>)
    ensures
        exists|media_type: Seq<char>| header_views(r@) == headers_of(*plan, media_type, file_size),
{
    let media_type = guess_media_type(path);
    response_headers(plan, media_type.as_str(), file_size)
}

} // verus!
