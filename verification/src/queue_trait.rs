//! The narrow interface that every mailbox store offers.

use vstd::prelude::*;
use crate::message::Message;

verus! {

/// A store of per-sender mailboxes: ordered queues of undelivered
/// messages with store-and-forward semantics.  What each implementation
/// guarantees is stated on the implementation itself.
pub trait MessageQueueStore<Config> {
    /// A store built from its backend configuration.
    fn new(config: &Config) -> Result<Self, String> where Self: Sized;

    /// Append `message` to its author's mailbox.
    fn push_message(&mut self, message: Message) -> Result<bool, String>;

    /// Drain the mailbox that `sender` filled within `line_id`: its
    /// messages leave the store and are handed back oldest first.
    fn pop_all(&mut self, line_id: u16, sender: &String) -> Result<Vec<Message>, String>;

    /// The oldest undelivered message of that mailbox, left in place.
    fn get_head(&self, line_id: u16, sender: &String) -> Result<Message, String>;
}

} // verus!
