//! WhatsApp Lite (not yet integrated: every request is answered "coming soon").

use vstd::prelude::*;
use crate::protocol::{Response, error_response, is_error_response};

verus! {

/// The answer while WhatsApp is not integrated.
pub open spec fn coming_soon(r: Response) -> bool {
    is_error_response(r, 501, "WhatsApp integration coming soon"@)
}

/// Linking by QR code.
pub fn handle_link_stub() -> (r: Response)
    ensures
        coming_soon(r),
{
    error_response(501, "WhatsApp integration coming soon")
}

/// The chat list.
pub fn handle_chats_stub() -> (r: Response)
    ensures
        coming_soon(r),
{
    error_response(501, "WhatsApp integration coming soon")
}

/// Any other WhatsApp request.
pub fn handle_stub() -> (r: Response)
    ensures
        coming_soon(r),
{
    error_response(501, "WhatsApp integration coming soon")
}

} // verus!
