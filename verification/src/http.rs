//! What goes wrong with a request, and what the client is told about it.

use vstd::prelude::*;
use crate::names::{has_extension, remove_extension, DubiousFilename};

verus! {

/// A request that cannot be served.
#[derive(Debug)]
pub enum HttpError {
    /// The request is malformed: its method, its URL or a name in it.
    Invalid,
    /// The album or the file that the request names does not exist.
    NotFound,
    /// Serving the request failed; the detail is for the server's log and is
    /// not shown to the client.
    Error(String),
}

impl HttpError {
    /// A failure of the server, with the detail to log.
    pub fn new(detail: String) -> (e: HttpError)
        ensures
            e == HttpError::Error(detail),
    {
        HttpError::Error(detail)
    }

    /// The error for a failed operation on the file system: `NotFound` where
    /// the operating system says that the file or directory does not exist,
    /// a failure of the server with the detail for any other cause.
    pub fn from_io(not_found: bool, detail: String) -> (e: HttpError)
        ensures
            e == (if not_found {
                HttpError::NotFound
            } else {
                HttpError::Error(detail)
            }),
    {
        if not_found {
            HttpError::NotFound
        } else {
            HttpError::Error(detail)
        }
    }

    /// The status code of the response, as a spec function.
    pub open spec fn status(&self) -> u16 {
        match self {
            HttpError::Invalid => 400,
            HttpError::NotFound => 404,
            HttpError::Error(_) => 500,
        }
    }

    /// The text of the response, as a spec function. It says nothing of the
    /// detail of a failure.
    pub open spec fn text(&self) -> Seq<char> {
        match self {
            HttpError::Invalid => "Invalid request"@,
            HttpError::NotFound => "Not found"@,
            HttpError::Error(_) => "Internal error"@,
        }
    }

    /// The status code of the response.
    pub fn status_code(&self) -> (code: u16)
        ensures
            code == self.status(),
    {
        match self {
            HttpError::Invalid => 400,
            HttpError::NotFound => 404,
            HttpError::Error(_) => 500,
        }
    }

    /// The body of the response.
    pub fn message(&self) -> (body: &'static str)
        ensures
            body@ == self.text(),
    {
        match self {
            HttpError::Invalid => "Invalid request",
            HttpError::NotFound => "Not found",
            HttpError::Error(_) => "Internal error",
        }
    }
}

impl From<DubiousFilename> for HttpError {
    /// A dubious name makes the request invalid.
    fn from(e: DubiousFilename) -> (r: HttpError) {
        HttpError::Invalid
    }
}

impl vstd::std_specs::convert::FromSpecImpl<DubiousFilename> for HttpError {
    open spec fn obeys_from_spec() -> bool {
        true
    }

    open spec fn from_spec(e: DubiousFilename) -> HttpError {
        HttpError::Invalid
    }
}

/// The status code of a response that carries what was asked for.
pub const STATUS_OK: u16 = 200;

/// The content type of a page.
pub open spec fn html_type() -> Seq<char> {
    "text/html"@
}

/// The content type of a picture that this server made.
pub open spec fn jpeg_type() -> Seq<char> {
    "image/jpeg"@
}

/// The content type to send with a page.
pub fn html_content_type() -> (kind: &'static str)
    ensures
        kind@ == html_type(),
{
    "text/html"
}

/// The content type to send with a picture that this server made, a
/// thumbnail among them.
pub fn jpeg_content_type() -> (kind: &'static str)
    ensures
        kind@ == jpeg_type(),
{
    "image/jpeg"
}

/// The content type that the extension of a file stands for, where it is one
/// that an album is expected to hold.
pub open spec fn content_type_of(name: Seq<char>) -> Option<Seq<char>> {
    if has_extension(name, "jpg"@) {
        Some(jpeg_type())
    } else if has_extension(name, "html"@) {
        Some(html_type())
    } else if has_extension(name, "txt"@) {
        Some("text/plain"@)
    } else {
        None
    }
}

/// The content type to send with a file that is served as it is, inferred
/// from its extension; `None` where the extension says nothing.
pub fn content_type(name: &str) -> (kind: Option<&'static str>)
    ensures
        kind is Some <==> content_type_of(name@) is Some,
        kind matches Some(k) ==> Some(k@) == content_type_of(name@),
{
    if remove_extension(name, "jpg").is_some() {
        Some(jpeg_content_type())
    } else if remove_extension(name, "html").is_some() {
        Some(html_content_type())
    } else if remove_extension(name, "txt").is_some() {
        Some("text/plain")
    } else {
        None
    }
}

} // verus!
