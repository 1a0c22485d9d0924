//! Outcome envelopes sent back to a client.

use vstd::prelude::*;

verus! {

/// Whether the client's action succeeded.
#[derive(Debug, Clone, Copy, PartialEq, Eq, Structural)]
pub enum WsResponseCode {
    Success,
    Error,
}

/// The structured response for one client action.
#[derive(Debug, Clone, PartialEq, Eq)]
pub struct WsResponse {
    pub code: WsResponseCode,
    pub error_message: Option<String>,
}

/// The envelope for an action's outcome: success carries no message,
/// failure carries its reason.
pub fn response_for(result: Result<(), String>) -> (r: WsResponse)
    ensures
        result is Ok <==> r.code is Success,
        result matches Err(e) ==> (r.error_message matches Some(m) && m == e),
        result is Ok ==> r.error_message is None,
{
    match result {
        Ok(_) => WsResponse { code: WsResponseCode::Success, error_message: None },
        Err(e) => WsResponse { code: WsResponseCode::Error, error_message: Some(e) },
    }
}

} // verus!
