//! What is accepted of a fetched page: HTML only, at most 5 MB.

use vstd::prelude::*;
use crate::text::{byte_len, chars_of, contains, contains_seq, decimal, push_decimal, push_str, utf8_len};

verus! {

/// A fetched page.
#[derive(Debug, Clone)]
pub struct FetchResult {
    /// The URL after redirects.
    pub final_url: String,
    pub body: String,
    pub content_type: String,
}

/// The largest page body accepted, in bytes.
pub const MAX_PAGE_BYTES: usize = 5_000_000;

/// Why a fetched page is refused.
#[derive(Debug, Clone)]
pub enum FetchError {
    /// The content type is neither HTML nor XHTML.
    NotHtml { content_type: String },
    /// The body is larger than `MAX_PAGE_BYTES`.
    TooLarge { size: usize },
}

/// A content type that names HTML or XHTML.
pub open spec fn is_html_spec(content_type: Seq<char>) -> bool {
    contains_seq(content_type, "text/html"@) || contains_seq(content_type, "application/xhtml"@)
}

/// Whether a content type names HTML or XHTML.
pub fn is_html_content_type(content_type: &str) -> (b: bool)
    ensures
        b == is_html_spec(content_type@),
{
    let ct = chars_of(content_type);
    let html = chars_of("text/html");
    let xhtml = chars_of("application/xhtml");
    contains(ct.as_slice(), html.as_slice()) || contains(ct.as_slice(), xhtml.as_slice())
}

/// What is made of a fetched page: refused when not HTML, then when larger than
/// `MAX_PAGE_BYTES`, else kept as it is.
pub open spec fn checked_fetch(
    final_url: Seq<char>,
    content_type: Seq<char>,
    body: Seq<char>,
    r: Result<FetchResult, FetchError>,
) -> bool {
    if !is_html_spec(content_type) {
        r matches Err(FetchError::NotHtml { content_type: c }) && c@ == content_type
    } else if utf8_len(body) > MAX_PAGE_BYTES {
        r matches Err(FetchError::TooLarge { size }) && size == utf8_len(body)
    } else {
        r matches Ok(f) && f.final_url@ == final_url && f.body@ == body && f.content_type@
            == content_type
    }
}

/// Accepts a fetched page: HTML or XHTML only, at most `MAX_PAGE_BYTES` bytes.
pub fn check_fetched(final_url: String, content_type: String, body: String) -> (r: Result<
    FetchResult,
    FetchError,
>)
    ensures
        checked_fetch(final_url@, content_type@, body@, r),
{
    if !is_html_content_type(content_type.as_str()) {
        return Err(FetchError::NotHtml { content_type });
    }
    let size = byte_len(body.as_str());
    if size > MAX_PAGE_BYTES {
        return Err(FetchError::TooLarge { size });
    }
    Ok(FetchResult { final_url, body, content_type })
}

/// The message of a refusal.
pub open spec fn fetch_error_message(e: FetchError) -> Seq<char> {
    match e {
        FetchError::NotHtml { content_type } => "Not HTML: "@ + content_type@,
        FetchError::TooLarge { size } => "Page too large: "@ + decimal(size as nat) + " bytes"@,
    }
}

impl FetchError {
    /// The message of a refusal: "Not HTML: <type>" or "Page too large: <n> bytes".
    pub fn message(&self) -> (m: String)
        ensures
            m@ == fetch_error_message(*self),
    {
        let mut m = String::new();
        match self {
            FetchError::NotHtml { content_type } => {
                push_str(&mut m, "Not HTML: ");
                push_str(&mut m, content_type.as_str());
            },
            FetchError::TooLarge { size } => {
                push_str(&mut m, "Page too large: ");
                push_decimal(&mut m, *size as u64);
                push_str(&mut m, " bytes");
            },
        }
        m
    }
}

} // verus!
