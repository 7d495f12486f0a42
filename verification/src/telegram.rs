//! Telegram Lite (not yet integrated: every request is answered "coming soon").

use vstd::prelude::*;
use crate::protocol::{Response, error_response, is_error_response};

verus! {

/// The answer while Telegram is not integrated.
pub open spec fn coming_soon(r: Response) -> bool {
    is_error_response(r, 501, "Telegram integration coming soon"@)
}

/// Authentication.
pub fn handle_auth_stub() -> (r: Response)
    ensures
        coming_soon(r),
{
    error_response(501, "Telegram integration coming soon")
}

/// The chat list.
pub fn handle_chats_stub() -> (r: Response)
    ensures
        coming_soon(r),
{
    error_response(501, "Telegram integration coming soon")
}

/// Sending a message.
pub fn handle_send_stub() -> (r: Response)
    ensures
        coming_soon(r),
{
    error_response(501, "Telegram integration coming soon")
}

/// Any other Telegram request.
pub fn handle_stub() -> (r: Response)
    ensures
        coming_soon(r),
{
    error_response(501, "Telegram integration coming soon")
}

} // verus!
