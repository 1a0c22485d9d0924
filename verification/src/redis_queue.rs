//! The durable mailbox store: per-(line, sender) lists in the shared
//! store, with the retention window re-applied on every append.
//!
//! The store is shared with other relay processes and its records may
//! expire at any moment, so nothing is claimed about what a drain finds;
//! what is verified is what becomes of whatever the store returned.

use vstd::prelude::*;
use crate::message::Message;
use crate::queue_trait::MessageQueueStore;
use crate::redis_connect::RedisConnection;
use crate::redis_connect::{client_get_connection, expire_key, list_drop_front, list_front,
    list_push_back, list_read_all};
use crate::store_keys::mailbox_key;

verus! {

/// The mailbox store backed by the shared durable store.
pub struct RedisQueue {
    client: redis::Client,
    auto_delete_time: Option<u64>,
}

/// Each drained content becomes one message of this line and sender, in
/// the order the store returned them.
pub fn contents_to_messages(line_id: u16, sender: &String, contents: Vec<String>) -> (r: Vec<
    Message,
>)
    ensures
        r@.len() == contents@.len(),
        forall|i: int|
            0 <= i < r@.len() ==> (#[trigger] r@[i])@.line_id == line_id && r@[i]@.sender == sender@
                && r@[i]@.content == contents@[i]@,
{
    let mut out: Vec<Message> = Vec::new();
    let mut i: usize = 0;
    while i < contents.len()
        invariant
            i <= contents@.len(),
            out@.len() == i,
            forall|k: int|
                0 <= k < i ==> (#[trigger] out@[k])@.line_id == line_id && out@[k]@.sender
                    == sender@ && out@[k]@.content == contents@[k]@,
        decreases contents@.len() - i,
    {
        out.push(
            Message { line_id, sender: sender.clone(), content: contents[i].clone() },
        );
        i = i + 1;
    }
    out
}

/// Re-apply the mailbox's time-to-live, clamped to what the store
/// accepts.
fn apply_retention(con: &mut redis::Connection, key: &str, time: u64) -> (r: Result<(), String>) {
    let secs = if time > (i64::MAX as u64) {
        i64::MAX as u64
    } else {
        time
    };
    expire_key(con, key, secs)
}

impl MessageQueueStore<RedisConnection> for RedisQueue {
    /// A store handle sharing `config`'s client and retention window.
    fn new(config: &RedisConnection) -> (r: Result<Self, String>) {
        Ok(
            RedisQueue {
                client: config.get_client(),
                auto_delete_time: config.auto_delete_time,
            },
        )
    }

    /// Append the message's content at the tail of its author's mailbox
    /// and re-apply the retention window; with retention off the mailbox
    /// never expires.
    fn push_message(&mut self, message: Message) -> (r: Result<bool, String>)
        ensures
            *final(self) == *old(self),
            (r matches Ok(b) ==> b),
    {
        let key = mailbox_key(message.line_id, message.sender.as_str());
        let mut con = match client_get_connection(&self.client) {
            Ok(c) => c,
            Err(e) => {
                return Err(e);
            },
        };
        match list_push_back(&mut con, key.as_str(), message.content.as_str()) {
            Ok(_) => {},
            Err(e) => {
                return Err(e);
            },
        }
        match self.auto_delete_time {
            Some(time) => {
                match apply_retention(&mut con, key.as_str(), time) {
                    Ok(_) => {},
                    Err(e) => {
                        return Err(e);
                    },
                }
            },
            None => {},
        }
        Ok(true)
    }

    /// Read the whole mailbox, then cut exactly what was read off its
    /// front, so an append racing with the drain survives for the next
    /// one.  Whatever the store returned comes back as messages of this
    /// line and sender, oldest first.
    fn pop_all(&mut self, line_id: u16, sender: &String) -> (r: Result<Vec<Message>, String>)
        ensures
            *final(self) == *old(self),
            r matches Ok(v) ==> forall|i: int|
                0 <= i < v@.len() ==> (#[trigger] v@[i])@.line_id == line_id && v@[i]@.sender
                    == sender@,
    {
        let key = mailbox_key(line_id, sender.as_str());
        let mut con = match client_get_connection(&self.client) {
            Ok(c) => c,
            Err(e) => {
                return Err(e);
            },
        };
        let contents = match list_read_all(&mut con, key.as_str()) {
            Ok(v) => v,
            Err(e) => {
                return Err(e);
            },
        };
        let n = contents.len();
        match list_drop_front(&mut con, key.as_str(), n) {
            Ok(_) => {},
            Err(e) => {
                return Err(e);
            },
        }
        Ok(contents_to_messages(line_id, sender, contents))
    }

    /// The front of the mailbox, left in place; an absent or empty
    /// mailbox has none.
    fn get_head(&self, line_id: u16, sender: &String) -> (r: Result<Message, String>)
        ensures
            r matches Ok(m) ==> m@.line_id == line_id && m@.sender == sender@,
    {
        let key = mailbox_key(line_id, sender.as_str());
        let mut con = match client_get_connection(&self.client) {
            Ok(c) => c,
            Err(e) => {
                return Err(e);
            },
        };
        match list_front(&mut con, key.as_str()) {
            Ok(Some(content)) => Ok(Message { line_id, sender: sender.clone(), content }),
            Ok(None) => Err("No messages in the queue.".to_owned()),
            Err(e) => Err(e),
        }
    }
}

} // verus!
