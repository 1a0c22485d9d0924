//! Inbound client requests, as the transport hands them over.

use vstd::prelude::*;
use crate::message::Message;

verus! {

/// One parsed client request: who sends what into which line.
#[derive(Debug, Clone, PartialEq, Eq)]
pub struct WsRequest {
    pub sender: String,
    pub line_id: u16,
    pub content: String,
}

impl WsRequest {
    /// The request as the message it asks the relay to carry.
    pub fn to_message(self) -> (r: Message)
        ensures
            r@.line_id == self.line_id,
            r@.sender == self.sender@,
            r@.content == self.content@,
    {
        Message { sender: self.sender, line_id: self.line_id, content: self.content }
    }
}

} // verus!
