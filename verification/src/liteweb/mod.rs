//! LiteWeb: fetch -> extract -> sanitize -> optimize images -> template -> gzip.
//! The fetching and the image downloads are the caller's; the decisions around them are
//! here.

pub mod cache;
pub mod fetch;
pub mod image_opt;
pub mod inert;
pub mod readability;
pub mod sanitize;
pub mod template;
pub mod tracker_list;

use vstd::prelude::*;
use crate::codec::{gzip_fast, gzip_fast_of};
use crate::protocol::{Response, is_error_response};
use crate::text::{byte_len, count_non_ws, decimal, push_decimal, push_str, utf8_len};
use self::fetch::{FetchError, FetchResult, fetch_error_message};
use self::readability::{ReadabilityResult, byline_spec, content_spec, extract, title_spec};
use self::sanitize::{sanitize_simple, sanitize_spec};
use self::template::{page_spec, wrap};
use self::tracker_list::TrackerSet;

verus! {

/// Pages with fewer non-whitespace characters of content are refused.
pub const MIN_TEXT_LENGTH: usize = 50;

/// How long a rendered page is served from the cache, in milliseconds.
pub const CACHE_TTL_MS: u64 = 300_000;

/// How many rendered pages the cache holds.
pub const CACHE_SIZE: usize = 200;

/// Why a page could not be rendered.
#[derive(Debug, Clone)]
pub enum RenderError {
    /// The request failed; the transport's message.
    Transport(String),
    /// The fetched page was refused.
    Fetch(FetchError),
    /// Extraction found too little text.
    NoReadableContent { text_length: usize },
    /// Compressing the page failed.
    Compression,
}

/// The message of a render error.
pub open spec fn render_error_message(e: RenderError) -> Seq<char> {
    match e {
        RenderError::Transport(m) => m@,
        RenderError::Fetch(f) => fetch_error_message(f),
        RenderError::NoReadableContent { text_length } => "No readable content found (text_length="@
            + decimal(text_length as nat) + ")"@,
        RenderError::Compression => "gzip compression failed"@,
    }
}

impl RenderError {
    /// The message of a render error.
    pub fn message(&self) -> (m: String)
        ensures
            m@ == render_error_message(*self),
    {
        match self {
            RenderError::Transport(t) => t.clone(),
            RenderError::Fetch(f) => f.message(),
            RenderError::NoReadableContent { text_length } => {
                let mut m = String::new();
                push_str(&mut m, "No readable content found (text_length=");
                push_decimal(&mut m, *text_length as u64);
                push_str(&mut m, ")");
                m
            },
            RenderError::Compression => "gzip compression failed".to_owned(),
        }
    }
}

/// A page extracted and sanitized, waiting for its images.
#[derive(Debug, Clone)]
pub struct PreparedPage {
    pub final_url: String,
    /// The size of the fetched body in bytes.
    pub original_size: usize,
    pub title: String,
    pub byline: Option<String>,
    /// The sanitized content.
    pub html: String,
}

/// What preparing a fetched page gives: refused when its content has fewer than
/// `MIN_TEXT_LENGTH` non-whitespace characters, else its title, byline and sanitized
/// content (relative links resolved against the final URL).
pub open spec fn prepared(fetched: FetchResult, trackers: Set<Seq<char>>, r: Result<PreparedPage, RenderError>) -> bool {
    let body = fetched.body@;
    let n = count_non_ws(content_spec(body));
    if n < MIN_TEXT_LENGTH {
        r matches Err(RenderError::NoReadableContent { text_length }) && text_length == n
    } else {
        r matches Ok(p) && p.final_url@ == fetched.final_url@ && p.original_size == utf8_len(body)
            && p.title@ == title_spec(body) && p.byline.deep_view() == byline_spec(body) && p.html@
            == sanitize_spec(content_spec(body), fetched.final_url@, trackers)
    }
}

/// Extracts the readable content of a fetched page and sanitizes it.
pub fn prepare_page(fetched: &FetchResult, trackers: &TrackerSet) -> (r: Result<PreparedPage, RenderError>)
    ensures
        prepared(*fetched, trackers@, r),
{
    let original_size = byte_len(fetched.body.as_str());
    let extracted_page: ReadabilityResult = extract(fetched.body.as_str(), fetched.final_url.as_str());
    if extracted_page.text_length < MIN_TEXT_LENGTH {
        return Err(RenderError::NoReadableContent { text_length: extracted_page.text_length });
    }
    let html = sanitize_simple(
        extracted_page.content_html.as_str(),
        fetched.final_url.as_str(),
        trackers,
    );
    Ok(PreparedPage {
        final_url: fetched.final_url.clone(),
        original_size,
        title: extracted_page.title,
        byline: extracted_page.byline,
        html,
    })
}

/// Law: a fetched page is refused exactly when its readable content has fewer than 50
/// non-whitespace characters, and the refusal says how many it has.
pub proof fn lemma_thin_pages_are_refused(
    fetched: FetchResult,
    trackers: Set<Seq<char>>,
    r: Result<PreparedPage, RenderError>,
)
    requires
        prepared(fetched, trackers, r),
    ensures
        r is Err <==> count_non_ws(content_spec(fetched.body@)) < 50,
        r matches Err(e) ==> e matches RenderError::NoReadableContent { text_length }
            && text_length == count_non_ws(content_spec(fetched.body@)),
{
}

/// Law: a prepared page's content is sanitized against the URL the page was finally
/// fetched from, so its relative links and image sources resolve against that URL (the
/// one the page itself records), not against nothing or another address.
pub proof fn lemma_prepared_content_resolves_against_final_url(
    fetched: FetchResult,
    trackers: Set<Seq<char>>,
    r: Result<PreparedPage, RenderError>,
)
    requires
        prepared(fetched, trackers, r),
        r is Ok,
    ensures
        r->Ok_0.final_url@ == fetched.final_url@,
        r->Ok_0.html@ == sanitize_spec(content_spec(fetched.body@), r->Ok_0.final_url@, trackers),
{
}

/// The page served for a prepared page and its content with images: the template around
/// it, gzip-compressed; the original size truncated to 32 bits.
pub open spec fn finished(page: PreparedPage, content: Seq<char>, r: Result<Response, RenderError>) -> bool {
    let full = page_spec(page.title@, page.byline.deep_view(), content);
    match gzip_fast_of(vstd::utf8::encode_utf8(full)) {
        None => r matches Err(RenderError::Compression),
        Some(z) => r matches Ok(Response::Page { url, title, html, original_size }) && url@
            == page.final_url@ && title@ == page.title@ && html@ == z && original_size
            == page.original_size as u32,
    }
}

/// Wraps the content in the page template and compresses it.
pub fn finish_page(page: PreparedPage, html_with_images: &str) -> (r: Result<Response, RenderError>)
    ensures
        finished(page, html_with_images@, r),
{
    let byline: Option<&str> = match &page.byline {
        Some(b) => Some(b.as_str()),
        None => None,
    };
    let full = wrap(page.title.as_str(), byline, html_with_images);
    assert(match byline {
        Some(b) => Some(b@),
        None => None,
    } == page.byline.deep_view());
    match gzip_fast(full.as_str().as_bytes()) {
        None => Err(RenderError::Compression),
        Some(z) => {
            #[verifier::truncate]
            let original_size = page.original_size as u32;
            Ok(Response::Page { url: page.final_url, title: page.title, html: z, original_size })
        },
    }
}

/// The answer when rendering failed.
pub open spec fn render_failed(e: RenderError, r: Response) -> bool {
    is_error_response(r, 502, "Failed to render page: "@ + render_error_message(e))
}

/// The answer when rendering failed: 502 with the reason.
pub fn render_failure(err: &RenderError) -> (r: Response)
    ensures
        render_failed(*err, r),
{
    let mut message = String::new();
    push_str(&mut message, "Failed to render page: ");
    let m = err.message();
    push_str(&mut message, m.as_str());
    Response::Error { code: 502, message }
}

} // verus!
