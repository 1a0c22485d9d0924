//! Participant tokens, and the relay core that routes their messages.

use vstd::prelude::*;
use vstd::utf8::{valid_utf8, decode_utf8, encode_utf8};
use vstd::utf8::{encode_utf8_decode_utf8, decode_utf8_encode_utf8};
use crate::line_manage::{AddSenderActuallyDone, LineManager, not_exist_error, spec_classify_join,
    spec_join_result, spec_leave_result, tokens_view};
use crate::load_config::{LoadResult, Queue};
use crate::message::{Message, MessageModel, msgs_view};
use crate::parse_config::Profile;

verus! {

/// A participant token: 64 opaque bytes naming one connection.
pub type Sender = [u8; 64];

/// Build an owned error message.
fn error_text(msg: &str) -> (r: String)
    ensures
        r@ == msg@,
{
    msg.to_owned()
}

/// Relies on `std::str::from_utf8`: it succeeds exactly on valid UTF-8
/// input and yields the characters that those bytes encode.
#[verifier::external_body]
fn bytes_as_utf8(bytes: &[u8]) -> (r: Option<&str>)
    ensures
        r is Some <==> valid_utf8(bytes@),
        r matches Some(s) ==> s@ == decode_utf8(bytes@),
{
    std::str::from_utf8(bytes).ok()
}

/// A token as text: succeeds exactly when the 64 bytes are valid UTF-8.
pub fn sender_to_string(sender: Sender) -> (r: Result<String, String>)
    ensures
        r is Ok <==> valid_utf8(sender@),
        r matches Ok(s) ==> s@ == decode_utf8(sender@) && encode_utf8(s@) == sender@,
{
    match bytes_as_utf8(sender.as_slice()) {
        Some(v) => {
            proof {
                decode_utf8_encode_utf8(sender@);
            }
            Ok(v.to_owned())
        },
        None => Err(error_text("Sender is not valid UTF-8.")),
    }
}

/// Text back to a token: succeeds exactly when the text is 64 bytes long.
pub fn string_to_sender(sender: String) -> (r: Result<Sender, String>)
    ensures
        r is Ok <==> encode_utf8(sender@).len() == 64,
        r matches Ok(b) ==> b@ == encode_utf8(sender@) && decode_utf8(b@) == sender@,
{
    let bytes = sender.as_str().as_bytes();
    if bytes.len() == 64 {
        let mut out: Sender = [0u8; 64];
        let mut i: usize = 0;
        while i < 64
            invariant
                bytes@ == encode_utf8(sender@),
                bytes@.len() == 64,
                i <= 64,
                forall|k: int| 0 <= k < i ==> out@[k] == bytes@[k],
            decreases 64 - i,
        {
            out[i] = bytes[i];
            i = i + 1;
        }
        proof {
            assert(out@ =~= bytes@);
            encode_utf8_decode_utf8(sender@);
        }
        Ok(out)
    } else {
        Err(error_text("Sender must be 64 bytes"))
    }
}

/// Whether the token list `v` holds `t`.
pub open spec fn contains_token(v: Seq<Sender>, t: Seq<u8>) -> bool {
    exists|k: int| 0 <= k < v.len() && v[k]@ == t
}

proof fn lemma_contains_token_push(v: Seq<Sender>, x: Sender)
    ensures
        forall|t: Seq<u8>| #[trigger]
            contains_token(v.push(x), t) == (contains_token(v, t) || x@ == t),
{
    assert forall|t: Seq<u8>| #[trigger]
        contains_token(v.push(x), t) == (contains_token(v, t) || x@ == t) by {
        if contains_token(v.push(x), t) {
            let k = choose|k: int| 0 <= k < v.push(x).len() && #[trigger] v.push(x)[k]@ == t;
            if k < v.len() {
                assert(v[k]@ == t);
            } else {
                assert(x@ == t);
            }
        }
        if contains_token(v, t) {
            let k = choose|k: int| 0 <= k < v.len() && #[trigger] v[k]@ == t;
            assert(v.push(x)[k]@ == t);
        }
        if x@ == t {
            assert(v.push(x)[v.len() as int]@ == t);
        }
    }
}

/// Byte-exact token equality.
fn sender_eq(a: &Sender, b: &Sender) -> (r: bool)
    ensures
        r == (a@ == b@),
{
    let mut i: usize = 0;
    while i < 64
        invariant
            i <= 64,
            forall|k: int| 0 <= k < i ==> a@[k] == b@[k],
        decreases 64 - i,
    {
        if a[i] != b[i] {
            return false;
        }
        i = i + 1;
    }
    proof {
        assert(a@ =~= b@);
    }
    true
}

/// The first listed token other than `me`, if any.
pub open spec fn spec_first_other(occ: Seq<Seq<char>>, me: Seq<char>) -> Option<Seq<char>>
    decreases occ.len(),
{
    if occ.len() == 0 {
        None
    } else if occ[0] != me {
        Some(occ[0])
    } else {
        spec_first_other(occ.drop_first(), me)
    }
}

proof fn lemma_first_other_skip(occ: Seq<Seq<char>>, me: Seq<char>, i: int)
    requires
        0 <= i <= occ.len(),
        forall|k: int| 0 <= k < i ==> occ[k] == me,
    ensures
        spec_first_other(occ, me) == spec_first_other(occ.skip(i), me),
    decreases i,
{
    if i > 0 {
        assert(occ[0] == me);
        let d = occ.drop_first();
        assert(forall|k: int| 0 <= k < i - 1 ==> d[k] == occ[k + 1]);
        lemma_first_other_skip(d, me, i - 1);
        assert(d.skip(i - 1) =~= occ.skip(i));
    } else {
        assert(occ.skip(0) =~= occ);
    }
}

/// The first occupant other than `me`, exactly as [`spec_first_other`]
/// says.
fn find_other(senders: &Vec<String>, me: &String) -> (r: Option<String>)
    ensures
        r matches Some(s) ==> spec_first_other(tokens_view(senders@), me@) == Some(s@),
        r is None <==> spec_first_other(tokens_view(senders@), me@) is None,
{
    let ghost occ = tokens_view(senders@);
    let mut i: usize = 0;
    while i < senders.len()
        invariant
            occ == tokens_view(senders@),
            i <= senders@.len(),
            forall|k: int| 0 <= k < i ==> occ[k] == me@,
        decreases senders@.len() - i,
    {
        if !(senders[i] == *me) {
            proof {
                lemma_first_other_skip(occ, me@, i as int);
                assert(occ.skip(i as int)[0] == occ[i as int]);
            }
            return Some(senders[i].clone());
        }
        i = i + 1;
    }
    proof {
        lemma_first_other_skip(occ, me@, occ.len() as int);
        assert(occ.skip(occ.len() as int).len() == 0);
    }
    None
}

/// What the relay did with an inbound message.
#[derive(Debug, PartialEq, Eq)]
pub enum BehaviorAfterReceiveMessage {
    /// The partner named here is online: the transport should push the
    /// payload into that token's live connection, and fall back to
    /// queueing when the connection is gone by then.
    SendToAnotherSender(String),
    /// The message was appended to its author's mailbox.
    PushedToQueue,
}

/// What a join attempt came to.
#[derive(Debug, PartialEq, Eq)]
pub enum JoinLineResult {
    /// The token was already online; nothing was touched.
    Refresh,
    /// The token opened the line.
    BeTheFirst,
    /// The token completed the pair; the backlog its partner queued
    /// while waiting comes along.
    BeTheSecond(Vec<Message>),
    /// The token was already listed (a reconnection); the backlog of the
    /// other listed occupant comes along.
    Rejoin(Vec<Message>),
}

/// The relay core: presence, the pairing registry, the mailbox store and
/// the static profile, with the routing decisions over them.
pub struct Core {
    online: Vec<Sender>,
    queue: Queue,
    line_manager: LineManager,
    profile: Profile,
}

impl Core {
    /// Whether this instance holds token `t` online.
    pub closed spec fn spec_online(self, t: Seq<u8>) -> bool {
        contains_token(self.online@, t)
    }

    /// The occupant tokens of `line` (meaningful when memory-backed).
    pub closed spec fn lines(self, line: u16) -> Seq<Seq<char>> {
        self.line_manager.occupants(line)
    }

    /// The mailbox of token `t` (meaningful when memory-backed).
    pub closed spec fn mailbox(self, t: Seq<char>) -> Seq<MessageModel> {
        self.queue.box_of(t)
    }

    /// Whether the mailbox store has room for a message from `t`.
    pub closed spec fn queue_accepts(self, t: Seq<char>) -> bool {
        self.queue.accepts(t)
    }

    /// Whether both shared components run in-process, so that the
    /// contracts below pin their contents down.
    pub closed spec fn mem_backed(self) -> bool {
        self.line_manager.is_memory() && self.queue.is_memory()
    }

    pub closed spec fn wf(self) -> bool {
        self.line_manager.wf() && self.queue.wf()
    }

    /// The static profile data, opaque to routing.
    pub closed spec fn spec_profile(self) -> Profile {
        self.profile
    }

    /// A core over the given components, with nobody online yet.
    pub fn new(config: LoadResult) -> (r: Core)
        ensures
            forall|t: Seq<u8>| !r.spec_online(t),
            r.mem_backed() == (config.line_manager.is_memory() && config.queue.is_memory()),
            config.line_manager.wf() && config.queue.wf() ==> r.wf(),
            forall|l: u16| r.lines(l) == config.line_manager.occupants(l),
            forall|t: Seq<char>| r.mailbox(t) == config.queue.box_of(t),
            forall|t: Seq<char>| r.queue_accepts(t) == config.queue.accepts(t),
            r.spec_profile() == config.profile,
    {
        Core {
            online: Vec::new(),
            queue: config.queue,
            line_manager: config.line_manager,
            profile: config.profile,
        }
    }

    /// Whether `sender` is marked online on this instance.
    pub fn is_online(&self, sender: Sender) -> (r: bool)
        ensures
            r == self.spec_online(sender@),
    {
        let mut i: usize = 0;
        while i < self.online.len()
            invariant
                i <= self.online@.len(),
                forall|k: int| 0 <= k < i ==> self.online@[k]@ != sender@,
            decreases self.online@.len() - i,
        {
            if sender_eq(&self.online[i], &sender) {
                return true;
            }
            i = i + 1;
        }
        false
    }

    /// Forget that `sender` is connected; other state is untouched.
    pub fn set_offline(&mut self, sender: Sender)
        ensures
            forall|t: Seq<u8>| final(self).spec_online(t) == (old(self).spec_online(t) && t
                != sender@),
            forall|l: u16| final(self).lines(l) == old(self).lines(l),
            forall|t: Seq<char>| final(self).mailbox(t) == old(self).mailbox(t),
            forall|t: Seq<char>| final(self).queue_accepts(t) == old(self).queue_accepts(t),
            final(self).mem_backed() == old(self).mem_backed(),
            final(self).wf() == old(self).wf(),
            final(self).spec_profile() == old(self).spec_profile(),
    {
        let ghost v0 = self.online@;
        let mut kept: Vec<Sender> = Vec::new();
        let mut i: usize = 0;
        while i < self.online.len()
            invariant
                v0 == self.online@,
                i <= v0.len(),
                forall|t: Seq<u8>| #[trigger]
                    contains_token(kept@, t) == (contains_token(v0.take(i as int), t) && t
                        != sender@),
            decreases v0.len() - i,
        {
            let ghost kept0 = kept@;
            let keep = !sender_eq(&self.online[i], &sender);
            if keep {
                kept.push(self.online[i]);
            }
            proof {
                lemma_contains_token_push(v0.take(i as int), v0[i as int]);
                assert(v0.take(i + 1) =~= v0.take(i as int).push(v0[i as int]));
                if keep {
                    lemma_contains_token_push(kept0, v0[i as int]);
                }
            }
            i = i + 1;
        }
        proof {
            assert(v0.take(v0.len() as int) =~= v0);
        }
        self.online = kept;
    }

    /// Hand an inbound message on: reject it when its author is not
    /// listed in the line, report the partner when one is listed and
    /// online, and queue it otherwise.
    pub fn receive_message(&mut self, message: &Message) -> (r: Result<
        BehaviorAfterReceiveMessage,
        String,
    >)
        ensures
            forall|t: Seq<u8>| final(self).spec_online(t) == old(self).spec_online(t),
            forall|l: u16| final(self).lines(l) == old(self).lines(l),
            final(self).mem_backed() == old(self).mem_backed(),
            final(self).spec_profile() == old(self).spec_profile(),
            old(self).mem_backed() ==> ({
                let occ = old(self).lines(message@.line_id);
                let me = message@.sender;
                &&& !occ.contains(me) ==> (r matches Err(e) && e@
                    == "Sending to the line that you are not in"@ && *final(self) == *old(self))
                &&& (occ.contains(me) && me.len() > 0 && old(self).wf()) ==> {
                    &&& final(self).wf()
                    &&& (occ.len() == 1 || ({
                        let other = if occ[0] == me { occ[1] } else { occ[0] };
                        encode_utf8(other).len() == 64 && !old(self).spec_online(
                            encode_utf8(other),
                        )
                    })) ==> {
                        &&& (r is Ok <==> old(self).queue_accepts(me))
                        &&& old(self).queue_accepts(me) ==> {
                            &&& (r matches Ok(b) && b is PushedToQueue)
                            &&& final(self).mailbox(me) == old(self).mailbox(me).push(message@)
                            &&& forall|t: Seq<char>|
                                t != me && t.len() > 0
                                    ==> final(self).mailbox(t) == old(self).mailbox(t)
                        }
                        &&& !old(self).queue_accepts(me) ==> *final(self) == *old(self)
                    }
                    &&& (occ.len() >= 2 && ({
                        let other = if occ[0] == me { occ[1] } else { occ[0] };
                        encode_utf8(other).len() == 64 && old(self).spec_online(
                            encode_utf8(other),
                        )
                    })) ==> (r matches Ok(b) && (b matches
                        BehaviorAfterReceiveMessage::SendToAnotherSender(to) && to@ == (
                        if occ[0] == me { occ[1] } else { occ[0] }) && *final(self) == *old(self)))
                    &&& (occ.len() >= 2 && encode_utf8(
                        if occ[0] == me { occ[1] } else { occ[0] },
                    ).len() != 64) ==> (r matches Err(e) && e@ == "Illegal input."@ && *final(self)
                        == *old(self))
                }
            }),
    {
        let senders = match self.line_manager.get_senders(message.line_id) {
            Ok(senders) => senders,
            Err(_) => {
                return Err(error_text("Internal server error."));
            },
        };
        let ghost occ = tokens_view(senders@);

        let mut in_line = false;
        let mut i: usize = 0;
        while i < senders.len()
            invariant
                occ == tokens_view(senders@),
                i <= senders@.len(),
                in_line <==> exists|k: int| 0 <= k < i && senders@[k]@ == message@.sender,
            decreases senders@.len() - i,
        {
            if senders[i] == message.sender {
                in_line = true;
            }
            i = i + 1;
        }
        proof {
            if in_line {
                let k = choose|k: int|
                    0 <= k < senders@.len() && #[trigger] senders@[k]@ == message@.sender;
                assert(occ[k] == message@.sender);
            }
            if occ.contains(message@.sender) {
                let k = choose|k: int|
                    0 <= k < occ.len() && #[trigger] occ[k] == message@.sender;
                assert(senders@[k]@ == message@.sender);
            }
        }
        if !in_line {
            return Err(error_text("Sending to the line that you are not in"));
        }

        if senders.len() == 1 {
            match self.queue.push(message.duplicate()) {
                Ok(_) => {
                    return Ok(BehaviorAfterReceiveMessage::PushedToQueue);
                },
                Err(e) => {
                    return Err(e);
                },
            }
        }

        let another = if senders[0] == message.sender {
            senders[1].clone()
        } else {
            senders[0].clone()
        };

        let another_sender = match string_to_sender(another.clone()) {
            Ok(s) => s,
            Err(_) => {
                return Err(error_text("Illegal input."));
            },
        };

        if self.is_online(another_sender) {
            Ok(BehaviorAfterReceiveMessage::SendToAnotherSender(another))
        } else {
            match self.queue.push(message.duplicate()) {
                Ok(_) => Ok(BehaviorAfterReceiveMessage::PushedToQueue),
                Err(e) => Err(e),
            }
        }
    }

    /// Queue a message for later delivery, whatever the line holds.
    pub fn push_message_to_queue(&mut self, message: Message) -> (r: Result<(), String>)
        ensures
            forall|t: Seq<u8>| final(self).spec_online(t) == old(self).spec_online(t),
            forall|l: u16| final(self).lines(l) == old(self).lines(l),
            final(self).mem_backed() == old(self).mem_backed(),
            final(self).spec_profile() == old(self).spec_profile(),
            old(self).mem_backed() ==> ({
                &&& (r is Ok <==> old(self).queue_accepts(message@.sender))
                &&& (old(self).wf() && message@.sender.len() > 0 && old(self).queue_accepts(
                    message@.sender,
                )) ==> {
                    &&& final(self).wf()
                    &&& final(self).mailbox(message@.sender) == old(self).mailbox(
                        message@.sender,
                    ).push(message@)
                    &&& forall|t: Seq<char>|
                        t != message@.sender && t.len() > 0
                            ==> final(self).mailbox(t) == old(self).mailbox(t)
                }
                &&& !old(self).queue_accepts(message@.sender) ==> *final(self) == *old(self)
            }),
    {
        match self.queue.push(message) {
            Ok(_) => Ok(()),
            Err(e) => Err(e),
        }
    }

    /// Mark `sender` offline and remove it from the line.  A token that
    /// the line no longer lists is already gone: that case still
    /// succeeds, as does a repeated call.
    pub fn exit_line(&mut self, sender: Sender, line_id: u16) -> (r: Result<(), String>)
        requires
            old(self).wf(),
        ensures
            forall|t: Seq<u8>| final(self).spec_online(t) == (old(self).spec_online(t) && t
                != sender@),
            forall|t: Seq<char>| final(self).mailbox(t) == old(self).mailbox(t),
            forall|t: Seq<char>| final(self).queue_accepts(t) == old(self).queue_accepts(t),
            final(self).mem_backed() == old(self).mem_backed(),
            final(self).spec_profile() == old(self).spec_profile(),
            final(self).wf(),
            old(self).mem_backed() ==> ({
                &&& valid_utf8(sender@) ==> (r is Ok && final(self).lines(line_id)
                    == spec_leave_result(old(self).lines(line_id), decode_utf8(sender@)) && forall|
                    l: u16,
                |
                    l != line_id ==> final(self).lines(l) == old(self).lines(l))
                &&& !valid_utf8(sender@) ==> (r is Err && forall|l: u16|
                    final(self).lines(l) == old(self).lines(l))
            }),
    {
        self.set_offline(sender);
        let sender_str = match sender_to_string(sender) {
            Ok(s) => s,
            Err(e) => {
                return Err(e);
            },
        };
        match self.line_manager.remove_sender(sender_str, line_id) {
            Ok(_) => Ok(()),
            Err(e) => {
                // A token that was not listed is already gone; any other
                // report is a store failure.
                if e == not_exist_error() {
                    Ok(())
                } else {
                    Err(e)
                }
            },
        }
    }

    /// In a well-formed core, no line ever lists more than two
    /// occupants, whatever sequence of calls led here.
    pub proof fn lemma_occupancy_bound(self, line: u16)
        requires
            self.wf(),
        ensures
            self.lines(line).len() <= 2,
    {
        crate::line_manage::lemma_occupancy_bound(self.line_manager, line);
    }

    /// Bring `sender` online and into `line_id`.
    ///
    /// A token already online anywhere is only refreshed.  Otherwise the
    /// token goes online first and the registry decides: opening the
    /// line, completing the pair (draining the partner's backlog),
    /// rejoining (draining the other listed occupant's backlog), or
    /// rejection when two other tokens hold the line.
    pub fn join_line(&mut self, sender: Sender, line_id: u16) -> (r: Result<
        JoinLineResult,
        String,
    >)
        requires
            old(self).wf(),
        ensures
            old(self).spec_online(sender@) ==> (r matches Ok(j) && j is Refresh && *final(self)
                == *old(self)),
            !old(self).spec_online(sender@) ==> forall|t: Seq<u8>|
                final(self).spec_online(t) == (old(self).spec_online(t) || t == sender@),
            (r matches Ok(j) && j is Refresh) <==> old(self).spec_online(sender@),
            final(self).mem_backed() == old(self).mem_backed(),
            final(self).spec_profile() == old(self).spec_profile(),
            final(self).wf(),
            (old(self).mem_backed() && !old(self).spec_online(sender@)) ==> ({
                let me = decode_utf8(sender@);
                let occ = old(self).lines(line_id);
                &&& !valid_utf8(sender@) ==> (r is Err
                    && (forall|l: u16| final(self).lines(l) == old(self).lines(l))
                    && (forall|t: Seq<char>| final(self).mailbox(t) == old(self).mailbox(t)))
                &&& valid_utf8(sender@) ==> {
                    &&& final(self).lines(line_id) == spec_join_result(occ, me)
                    &&& forall|l: u16| l != line_id ==> final(self).lines(l) == old(self).lines(l)
                    &&& spec_classify_join(occ, me) is AddTheFirstSender ==> (r matches Ok(j) && j
                        is BeTheFirst && forall|t: Seq<char>|
                        final(self).mailbox(t) == old(self).mailbox(t))
                    &&& spec_classify_join(occ, me) is AddTheSecondSender ==> (r matches Ok(j) && (j
                        matches JoinLineResult::BeTheSecond(msgs) && msgs_view(msgs@) == old(self).mailbox(occ[0])
                        && final(self).mailbox(occ[0]).len() == 0 && forall|t: Seq<char>|
                        t != occ[0] ==> final(self).mailbox(t) == old(self).mailbox(t)))
                    &&& spec_classify_join(occ, me) is AlreadyInLine ==> (r matches Ok(j) && (j
                        matches JoinLineResult::Rejoin(msgs) && ({
                        match spec_first_other(occ, me) {
                            Some(o) => msgs_view(msgs@) == old(self).mailbox(o)
                                && final(self).mailbox(o).len() == 0 && forall|t: Seq<char>|
                                t != o ==> final(self).mailbox(t) == old(self).mailbox(t),
                            None => msgs@.len() == 0 && forall|t: Seq<char>|
                                final(self).mailbox(t) == old(self).mailbox(t),
                        }
                    })))
                    &&& spec_classify_join(occ, me) is TryToAddTheThirdSender ==> (r matches Err(e)
                        && e@ == "Try to join busy line."@ && forall|t: Seq<char>|
                        final(self).mailbox(t) == old(self).mailbox(t))
                }
            }),
    {
        if self.is_online(sender) {
            return Ok(JoinLineResult::Refresh);
        }

        self.online.push(sender);
        proof {
            lemma_contains_token_push(old(self).online@, sender);
        }

        let sender_str = match sender_to_string(sender) {
            Ok(s) => s,
            Err(e) => {
                return Err(e);
            },
        };
        match self.line_manager.add_sender(sender_str.clone(), line_id) {
            Ok(AddSenderActuallyDone::AddTheFirstSender) => Ok(JoinLineResult::BeTheFirst),
            Ok(AddSenderActuallyDone::AddTheSecondSender) => {
                let senders = match self.line_manager.get_senders(line_id) {
                    Ok(s) => s,
                    Err(_) => {
                        return Err(error_text("Internal server error."));
                    },
                };
                let another = match find_other(&senders, &sender_str) {
                    Some(a) => a,
                    None => {
                        return Ok(JoinLineResult::BeTheSecond(Vec::new()));
                    },
                };
                match self.queue.pop_all(line_id, &another) {
                    Ok(messages) => Ok(JoinLineResult::BeTheSecond(messages)),
                    Err(_) => Err(error_text("Internal server error.")),
                }
            },
            Ok(AddSenderActuallyDone::AlreadyInLine) => {
                let senders = match self.line_manager.get_senders(line_id) {
                    Ok(s) => s,
                    Err(_) => {
                        return Err(error_text("Internal server error."));
                    },
                };
                let another = match find_other(&senders, &sender_str) {
                    Some(a) => a,
                    None => {
                        return Ok(JoinLineResult::Rejoin(Vec::new()));
                    },
                };
                match self.queue.pop_all(line_id, &another) {
                    Ok(messages) => Ok(JoinLineResult::Rejoin(messages)),
                    Err(_) => Err(error_text("Internal server error.")),
                }
            },
            Ok(AddSenderActuallyDone::TryToAddTheThirdSender) => {
                Err(error_text("Try to join busy line."))
            },
            Err(_) => Err(error_text("Internal server error.")),
        }
    }
}

} // verus!

