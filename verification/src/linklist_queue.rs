//! The in-process mailbox store.
//!
//! It serves one line: two slots, each claimed by the first token that
//! writes into it and holding that token's undelivered messages, oldest
//! first.  A third distinct token finds no slot and is turned away.

use vstd::prelude::*;
use crate::message::{Message, MessageModel, msgs_view};
use crate::queue_trait::MessageQueueStore;

verus! {

/// One sender's mailbox: the claiming token and its undelivered messages.
struct SenderQueue {
    sender: String,
    queue: Vec<Message>,
}

impl SenderQueue {
    spec fn token(self) -> Seq<char> {
        self.sender@
    }

    spec fn msgs(self) -> Seq<MessageModel> {
        msgs_view(self.queue@)
    }

    fn new() -> (r: Self)
        ensures
            r.token().len() == 0,
            r.msgs().len() == 0,
    {
        let r = SenderQueue { sender: "".to_owned(), queue: Vec::new() };
        proof {
            reveal_strlit("");
            assert(r.msgs() =~= Seq::<MessageModel>::empty());
        }
        r
    }

    /// Whether some token has claimed this slot.
    fn has_sender(&self) -> (b: bool)
        ensures
            b == (self.token().len() > 0),
    {
        !self.sender.as_str().is_empty()
    }

    fn set_sender(&mut self, sender: String)
        ensures
            final(self).token() == sender@,
            final(self).msgs() == old(self).msgs(),
    {
        self.sender = sender;
        proof {
            assert(self.msgs() =~= old(self).msgs());
        }
    }

    fn get_sender(&self) -> (r: String)
        ensures
            r@ == self.token(),
    {
        self.sender.clone()
    }

    /// Append one message, oldest first.
    fn enqueue(&mut self, message: Message)
        ensures
            final(self).token() == old(self).token(),
            final(self).msgs() == old(self).msgs().push(message@),
    {
        self.queue.push(message);
        proof {
            assert(self.msgs() =~= old(self).msgs().push(message@));
        }
    }

    /// Hand every queued message out, oldest first, and keep none.
    fn drain(&mut self) -> (r: Vec<Message>)
        ensures
            final(self).token() == old(self).token(),
            final(self).msgs().len() == 0,
            msgs_view(r@) == old(self).msgs(),
    {
        let ghost q0 = self.queue@;
        let mut result: Vec<Message> = Vec::new();
        while self.queue.len() > 0
            invariant
                self.sender@ == old(self).sender@,
                result@.len() + self.queue@.len() == q0.len(),
                result@ =~= q0.take(result@.len() as int),
                self.queue@ =~= q0.skip(result@.len() as int),
            decreases self.queue@.len(),
        {
            let m = self.queue.remove(0);
            result.push(m);
            proof {
                assert(result@ =~= q0.take(result@.len() as int));
                assert(self.queue@ =~= q0.skip(result@.len() as int));
            }
        }
        proof {
            assert(result@ =~= q0);
            assert(msgs_view(result@) =~= old(self).msgs());
            assert(self.msgs() =~= Seq::<MessageModel>::empty());
        }
        result
    }
}

/// Which slot a message would land in.
pub enum PushTarget {
    ToA,
    ToB,
    Rejected,
}

/// The slot for token `t`, with slot tokens `sa` and `sb`: the slot `t`
/// has claimed, else the first unclaimed slot, else none.
pub open spec fn spec_push_target(sa: Seq<char>, sb: Seq<char>, t: Seq<char>) -> PushTarget {
    if sa == t {
        PushTarget::ToA
    } else if sb == t {
        PushTarget::ToB
    } else if sa.len() == 0 {
        PushTarget::ToA
    } else if sb.len() == 0 {
        PushTarget::ToB
    } else {
        PushTarget::Rejected
    }
}

/// The in-process mailbox store: two claimable sender slots.
pub struct LinkListQueue {
    sender_a_queue: SenderQueue,
    sender_b_queue: SenderQueue,
}

enum WhoseSenderIs {
    A,
    B,
    Neither,
}

impl LinkListQueue {
    /// The token that has claimed the first slot; empty when unclaimed.
    pub closed spec fn sender_a(self) -> Seq<char> {
        self.sender_a_queue.token()
    }

    /// The undelivered messages of the first slot, oldest first.
    pub closed spec fn msgs_a(self) -> Seq<MessageModel> {
        self.sender_a_queue.msgs()
    }

    /// The token that has claimed the second slot; empty when unclaimed.
    pub closed spec fn sender_b(self) -> Seq<char> {
        self.sender_b_queue.token()
    }

    /// The undelivered messages of the second slot, oldest first.
    pub closed spec fn msgs_b(self) -> Seq<MessageModel> {
        self.sender_b_queue.msgs()
    }

    /// The mailbox of token `t`: the messages of the slot `t` claimed,
    /// absence being empty.
    pub open spec fn box_of(self, t: Seq<char>) -> Seq<MessageModel> {
        if self.sender_a() == t {
            self.msgs_a()
        } else if self.sender_b() == t {
            self.msgs_b()
        } else {
            Seq::<MessageModel>::empty()
        }
    }

    fn whose_sender_is(&self, sender: String) -> (r: WhoseSenderIs)
        ensures
            r is A <==> self.sender_a() == sender@,
            r is B <==> (self.sender_a() != sender@ && self.sender_b() == sender@),
            r is Neither <==> (self.sender_a() != sender@ && self.sender_b() != sender@),
    {
        if self.sender_a_queue.get_sender() == sender {
            WhoseSenderIs::A
        } else if self.sender_b_queue.get_sender() == sender {
            WhoseSenderIs::B
        } else {
            WhoseSenderIs::Neither
        }
    }
}

fn unexpected_sender_error() -> (r: String)
    ensures
        r@ == "Unexpected Sender"@,
{
    "Unexpected Sender".to_owned()
}

impl MessageQueueStore<()> for LinkListQueue {
    /// A store with both slots unclaimed and empty.
    fn new(config: &()) -> (r: Result<Self, String>)
        ensures
            r matches Ok(q) && q.sender_a().len() == 0 && q.sender_b().len() == 0 && q.msgs_a().len()
                == 0 && q.msgs_b().len() == 0,
    {
        Ok(LinkListQueue { sender_a_queue: SenderQueue::new(), sender_b_queue: SenderQueue::new() })
    }

    /// Append `message` to the slot that [`spec_push_target`] names for
    /// its author, claiming an unclaimed slot on first use; a message
    /// from a third distinct token is turned away and nothing changes.
    fn push_message(&mut self, message: Message) -> (r: Result<bool, String>)
        ensures
            ({
                let target = spec_push_target(
                    old(self).sender_a(),
                    old(self).sender_b(),
                    message@.sender,
                );
                &&& (r is Ok <==> !(target is Rejected))
                &&& (r matches Ok(b) ==> b)
                &&& target is ToA ==> {
                    &&& final(self).sender_a() == message@.sender
                    &&& final(self).msgs_a() == old(self).msgs_a().push(message@)
                    &&& final(self).sender_b() == old(self).sender_b()
                    &&& final(self).msgs_b() == old(self).msgs_b()
                }
                &&& target is ToB ==> {
                    &&& final(self).sender_b() == message@.sender
                    &&& final(self).msgs_b() == old(self).msgs_b().push(message@)
                    &&& final(self).sender_a() == old(self).sender_a()
                    &&& final(self).msgs_a() == old(self).msgs_a()
                }
                &&& target is Rejected ==> *final(self) == *old(self)
            }),
    {
        let to_a = if self.sender_a_queue.get_sender() == message.sender {
            true
        } else if self.sender_b_queue.get_sender() == message.sender {
            false
        } else if !self.sender_a_queue.has_sender() {
            true
        } else if !self.sender_b_queue.has_sender() {
            false
        } else {
            return Err(unexpected_sender_error());
        };
        if to_a {
            self.sender_a_queue.set_sender(message.sender.clone());
            self.sender_a_queue.enqueue(message);
        } else {
            self.sender_b_queue.set_sender(message.sender.clone());
            self.sender_b_queue.enqueue(message);
        }
        Ok(true)
    }

    /// Drain `sender`'s mailbox: its messages leave the slot and are
    /// handed back oldest first.  A token with no slot drains nothing.
    /// The store serves a single line, so `line_id` does not pick the
    /// mailbox; the slot token alone does.
    fn pop_all(&mut self, line_id: u16, sender: &String) -> (r: Result<Vec<Message>, String>)
        ensures
            final(self).sender_a() == old(self).sender_a(),
            final(self).sender_b() == old(self).sender_b(),
            old(self).sender_a() == sender@ ==> (r matches Ok(v)
                && msgs_view(v@) == old(self).msgs_a()
                && final(self).msgs_a().len() == 0
                && final(self).msgs_b() == old(self).msgs_b()),
            old(self).sender_a() != sender@ && old(self).sender_b() == sender@ ==> (r matches Ok(v)
                && msgs_view(v@) == old(self).msgs_b()
                && final(self).msgs_b().len() == 0
                && final(self).msgs_a() == old(self).msgs_a()),
            old(self).sender_a() != sender@ && old(self).sender_b() != sender@ ==> (r matches Ok(v)
                && v@.len() == 0 && *final(self) == *old(self)),
    {
        match self.whose_sender_is(sender.clone()) {
            WhoseSenderIs::A => Ok(self.sender_a_queue.drain()),
            WhoseSenderIs::B => Ok(self.sender_b_queue.drain()),
            WhoseSenderIs::Neither => Ok(Vec::new()),
        }
    }

    /// The oldest message of `sender`'s mailbox, left in place; an
    /// unclaimed or empty mailbox has none.
    fn get_head(&self, line_id: u16, sender: &String) -> (r: Result<Message, String>)
        ensures
            self.sender_a() == sender@ && self.msgs_a().len() > 0 ==> (r matches Ok(m) && m@
                == self.msgs_a()[0]),
            self.sender_a() != sender@ && self.sender_b() == sender@ && self.msgs_b().len() > 0
                ==> (r matches Ok(m) && m@ == self.msgs_b()[0]),
            r is Ok <==> ((self.sender_a() == sender@ && self.msgs_a().len() > 0) || (
            self.sender_a() != sender@ && self.sender_b() == sender@ && self.msgs_b().len() > 0)),
    {
        match self.whose_sender_is(sender.clone()) {
            WhoseSenderIs::A => {
                if self.sender_a_queue.queue.len() > 0 {
                    Ok(self.sender_a_queue.queue[0].duplicate())
                } else {
                    Err(unexpected_sender_error())
                }
            },
            WhoseSenderIs::B => {
                if self.sender_b_queue.queue.len() > 0 {
                    Ok(self.sender_b_queue.queue[0].duplicate())
                } else {
                    Err(unexpected_sender_error())
                }
            },
            WhoseSenderIs::Neither => Err(unexpected_sender_error()),
        }
    }
}

/// One mailbox after a run of appends, one message at a time.
pub open spec fn spec_append_all(
    mailbox: Seq<MessageModel>,
    ms: Seq<MessageModel>,
) -> Seq<MessageModel>
    decreases ms.len(),
{
    if ms.len() == 0 {
        mailbox
    } else {
        spec_append_all(mailbox.push(ms[0]), ms.drop_first())
    }
}

/// Appending a run of messages one at a time amounts to concatenation.
pub proof fn lemma_append_all_is_concat(mailbox: Seq<MessageModel>, ms: Seq<MessageModel>)
    ensures
        spec_append_all(mailbox, ms) == mailbox + ms,
    decreases ms.len(),
{
    if ms.len() == 0 {
        assert(mailbox + ms =~= mailbox);
    } else {
        lemma_append_all_is_concat(mailbox.push(ms[0]), ms.drop_first());
        assert(mailbox.push(ms[0]) + ms.drop_first() =~= mailbox + ms);
    }
}

/// Appending `ms` into a fresh mailbox and then draining hands back
/// exactly `ms`, in append order; and since a drain leaves the mailbox
/// empty, a second drain before any new append hands back nothing.
pub proof fn lemma_drain_after_appends(ms: Seq<MessageModel>)
    ensures
        spec_append_all(Seq::<MessageModel>::empty(), ms) == ms,
{
    lemma_append_all_is_concat(Seq::<MessageModel>::empty(), ms);
    assert(Seq::<MessageModel>::empty() + ms =~= ms);
}

/// A message appended to a mailbox and later drained for the paired
/// token is reproduced exactly: same content, same origin line, same
/// author.
pub proof fn lemma_mailbox_round_trip(mailbox: Seq<MessageModel>, m: MessageModel)
    ensures
        spec_append_all(mailbox, seq![m]) == mailbox.push(m),
        spec_append_all(mailbox, seq![m]).last() == m,
{
    let one = seq![m];
    assert(one[0] == m);
    assert(one.drop_first() =~= Seq::<MessageModel>::empty());
    assert(spec_append_all(mailbox.push(m), Seq::<MessageModel>::empty()) == mailbox.push(m));
}

} // verus!
