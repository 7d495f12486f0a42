//! Instagram Lite (not yet integrated: every request is answered "coming soon").

use vstd::prelude::*;
use crate::protocol::{Response, error_response, is_error_response};

verus! {

/// The answer while Instagram is not integrated.
pub open spec fn coming_soon(r: Response) -> bool {
    is_error_response(r, 501, "Instagram integration coming soon"@)
}

/// Logging in.
pub fn handle_login() -> (r: Response)
    ensures
        coming_soon(r),
{
    error_response(501, "Instagram integration coming soon")
}

/// The feed.
pub fn handle_feed() -> (r: Response)
    ensures
        coming_soon(r),
{
    error_response(501, "Instagram integration coming soon")
}

/// One post.
pub fn handle_post(_shortcode: &str) -> (r: Response)
    ensures
        coming_soon(r),
{
    error_response(501, "Instagram integration coming soon")
}

/// Searching users and tags.
pub fn handle_search(_query: &str) -> (r: Response)
    ensures
        coming_soon(r),
{
    error_response(501, "Instagram integration coming soon")
}

/// Any other Instagram request.
pub fn handle_stub() -> (r: Response)
    ensures
        coming_soon(r),
{
    error_response(501, "Instagram integration coming soon")
}

} // verus!
