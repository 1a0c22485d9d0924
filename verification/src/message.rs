//! The message record relayed between the two occupants of a line.

use vstd::prelude::*;

verus! {

/// One chat message: `content` authored by `sender` within line `line_id`,
/// destined for the other occupant of that line.
#[derive(Debug, Clone, PartialEq, Eq)]
pub struct Message {
    pub line_id: u16,
    pub sender: String,
    pub content: String,
}

/// Mathematical image of a [`Message`].
pub struct MessageModel {
    pub line_id: u16,
    pub sender: Seq<char>,
    pub content: Seq<char>,
}

impl View for Message {
    type V = MessageModel;

    open spec fn view(&self) -> MessageModel {
        MessageModel { line_id: self.line_id, sender: self.sender@, content: self.content@ }
    }
}

/// The mathematical images of a list of messages.
pub open spec fn msgs_view(v: Seq<Message>) -> Seq<MessageModel> {
    Seq::new(v.len(), |i: int| v[i]@)
}

impl Message {
    /// Field-for-field copy with the same mathematical image.
    pub fn duplicate(&self) -> (r: Message)
        ensures
            r@ == self@,
    {
        Message {
            line_id: self.line_id,
            sender: self.sender.clone(),
            content: self.content.clone(),
        }
    }
}

} // verus!
