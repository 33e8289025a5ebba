//! Decisions of the loop that serves kernel requests.
use vstd::prelude::*;

verus! {

/// What the serve loop does after a request failed.
#[derive(Clone, Copy, Debug, PartialEq, Eq, Structural)]
pub enum ServeAction {
    /// The session has ended: leave the loop.
    Stop,
    /// Log the failure and serve the next request.
    Continue,
}

pub open spec fn after_failed_request_spec(encode_failure: bool, os_error: Option<i32>, ebadf: i32) -> ServeAction {
    if encode_failure && os_error == Some(ebadf) {
        ServeAction::Stop
    } else {
        ServeAction::Continue
    }
}

/// A reply that could not be encoded because the channel's descriptor is gone (EBADF)
/// means the session has ended; any other failure is logged and serving goes on.
pub fn after_failed_request(encode_failure: bool, os_error: Option<i32>, ebadf: i32) -> (r: ServeAction)
    ensures
        r == after_failed_request_spec(encode_failure, os_error, ebadf),
{
    if encode_failure && os_error == Some(ebadf) {
        ServeAction::Stop
    } else {
        ServeAction::Continue
    }
}

} // verus!
