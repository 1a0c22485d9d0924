//! The pairing registry: which tokens occupy which line.
//!
//! A line holds an ordered list of at most two distinct occupant tokens.
//! The registry runs either against the durable store (shared with other
//! relay processes, reached through the trusted wrappers) or against an
//! in-process table; the join/leave decisions are the same verified
//! functions either way.

use vstd::prelude::*;
use std::collections::HashMap;
use crate::redis_connect::RedisConnection;
use crate::redis_connect::{client_get_connection, expire_key, list_push_back, list_read_all,
    list_remove};
use crate::store_keys::line_key;

verus! {

broadcast use vstd::std_specs::hash::group_hash_axioms;

/// What a join attempt actually did to the line's occupant list.
#[derive(Debug, Clone, Copy, PartialEq, Eq, Structural)]
pub enum AddSenderActuallyDone {
    AddTheFirstSender,
    AddTheSecondSender,
    /// Turned away: the line already had two other occupants.
    TryToAddTheThirdSender,
    AlreadyInLine,
}

/// The occupant tokens of a list of senders, as character sequences.
pub open spec fn tokens_view(v: Seq<String>) -> Seq<Seq<char>> {
    Seq::new(v.len(), |i: int| v[i]@)
}

/// A well-formed occupant list: at most two occupants, and two occupants
/// are distinct.
pub open spec fn occupants_wf(occ: Seq<Seq<char>>) -> bool {
    occ.len() <= 2 && (occ.len() == 2 ==> occ[0] != occ[1])
}

/// The join decision for token `t` against the current list `occ`.
pub open spec fn spec_classify_join(occ: Seq<Seq<char>>, t: Seq<char>) -> AddSenderActuallyDone {
    if occ.contains(t) {
        AddSenderActuallyDone::AlreadyInLine
    } else if occ.len() == 0 {
        AddSenderActuallyDone::AddTheFirstSender
    } else if occ.len() == 1 {
        AddSenderActuallyDone::AddTheSecondSender
    } else {
        AddSenderActuallyDone::TryToAddTheThirdSender
    }
}

/// The occupant list after a join attempt by `t`: appended when the
/// decision admits `t`, unchanged otherwise.
pub open spec fn spec_join_result(occ: Seq<Seq<char>>, t: Seq<char>) -> Seq<Seq<char>> {
    match spec_classify_join(occ, t) {
        AddSenderActuallyDone::AddTheFirstSender => occ.push(t),
        AddSenderActuallyDone::AddTheSecondSender => occ.push(t),
        AddSenderActuallyDone::TryToAddTheThirdSender => occ,
        AddSenderActuallyDone::AlreadyInLine => occ,
    }
}

/// The occupant list after token `t` leaves: every occurrence of `t`
/// removed, the order of the others kept.
pub open spec fn spec_leave_result(occ: Seq<Seq<char>>, t: Seq<char>) -> Seq<Seq<char>>
    decreases occ.len(),
{
    if occ.len() == 0 {
        occ
    } else {
        let rest = spec_leave_result(occ.drop_last(), t);
        if occ.last() == t {
            rest
        } else {
            rest.push(occ.last())
        }
    }
}

/// A line never holds more than two occupants: any join attempt keeps a
/// well-formed occupant list well-formed, and an attempt by a third
/// distinct token is exactly the one that is turned away, with the list
/// left unchanged.
pub proof fn lemma_join_capacity(occ: Seq<Seq<char>>, t: Seq<char>)
    requires
        occupants_wf(occ),
    ensures
        occupants_wf(spec_join_result(occ, t)),
        spec_join_result(occ, t).len() <= 2,
        spec_classify_join(occ, t) == AddSenderActuallyDone::TryToAddTheThirdSender <==> (occ.len()
            == 2 && !occ.contains(t)),
        spec_classify_join(occ, t) == AddSenderActuallyDone::TryToAddTheThirdSender
            ==> spec_join_result(occ, t) == occ,
{
    if !occ.contains(t) && occ.len() == 1 {
        assert(occ[0] != t);
    }
}

/// In a well-formed registry, no line ever lists more than two
/// occupants, and two listed occupants are distinct.
pub proof fn lemma_occupancy_bound(m: LineManager, line: u16)
    requires
        m.wf(),
    ensures
        occupants_wf(m.occupants(line)),
        m.occupants(line).len() <= 2,
{
}

/// Joining with a token already listed reports `AlreadyInLine` and never
/// duplicates the token: the occupant list is left exactly as it was.
pub proof fn lemma_rejoin_no_duplicate(occ: Seq<Seq<char>>, t: Seq<char>)
    requires
        occupants_wf(occ),
        occ.contains(t),
    ensures
        spec_classify_join(occ, t) == AddSenderActuallyDone::AlreadyInLine,
        spec_join_result(occ, t) == occ,
{
}

/// Leaving keeps only the other occupants: the result is still
/// well-formed, no larger, and made of occupants the line already had.
pub proof fn lemma_leave_wf(occ: Seq<Seq<char>>, t: Seq<char>)
    requires
        occupants_wf(occ),
    ensures
        occupants_wf(spec_leave_result(occ, t)),
        spec_leave_result(occ, t).len() <= occ.len(),
        forall|x: Seq<char>| #[trigger] spec_leave_result(occ, t).contains(x) ==> occ.contains(x),
    decreases occ.len(),
{
    if occ.len() > 0 {
        let prefix = occ.drop_last();
        assert(occupants_wf(prefix));
        lemma_leave_wf(prefix, t);
        let rest = spec_leave_result(prefix, t);
        assert(forall|x: Seq<char>| #[trigger] prefix.contains(x) ==> occ.contains(x));
        assert(occ.contains(occ.last()));
        if occ.last() != t {
            let result = rest.push(occ.last());
            assert(forall|x: Seq<char>| #[trigger] result.contains(x) ==> rest.contains(x) || x
                == occ.last());
            if result.len() == 2 {
                assert(occ.len() == 2);
                assert(rest.len() == 1);
                assert(prefix.len() == 1);
                let e = prefix.drop_last();
                assert(e.len() == 0);
                assert(spec_leave_result(e, t).len() == 0);
                assert(prefix.last() == occ[0]);
                assert(rest =~= seq![occ[0]]);
                assert(result[0] == occ[0] && result[1] == occ[1]);
            }
        }
    }
}

/// After `t` has left, `t` is no longer listed.
pub proof fn lemma_leave_removes(occ: Seq<Seq<char>>, t: Seq<char>)
    ensures
        !spec_leave_result(occ, t).contains(t),
    decreases occ.len(),
{
    if occ.len() > 0 {
        lemma_leave_removes(occ.drop_last(), t);
        let rest = spec_leave_result(occ.drop_last(), t);
        if occ.last() != t {
            assert(forall|x: Seq<char>| #[trigger] rest.push(occ.last()).contains(x)
                ==> rest.contains(x) || x == occ.last());
        }
    }
}

/// Leaving a line that does not list `t` changes nothing.
pub proof fn lemma_leave_absent_noop(occ: Seq<Seq<char>>, t: Seq<char>)
    requires
        !occ.contains(t),
    ensures
        spec_leave_result(occ, t) == occ,
    decreases occ.len(),
{
    if occ.len() > 0 {
        let prefix = occ.drop_last();
        assert(!prefix.contains(t)) by {
            assert(forall|k: int| 0 <= k < prefix.len() ==> prefix[k] == occ[k]);
        }
        lemma_leave_absent_noop(prefix, t);
        assert(occ.contains(occ.last()));
        assert(occ.last() != t);
        assert(prefix.push(occ.last()) =~= occ);
    }
}

/// Leaving twice is the same as leaving once: the second departure finds
/// nothing left to remove.
pub proof fn lemma_leave_idempotent(occ: Seq<Seq<char>>, t: Seq<char>)
    ensures
        spec_leave_result(spec_leave_result(occ, t), t) == spec_leave_result(occ, t),
{
    lemma_leave_removes(occ, t);
    lemma_leave_absent_noop(spec_leave_result(occ, t), t);
}

/// The decision for `sender` against `occupants`, exactly as
/// [`spec_classify_join`] says.
pub fn classify_join(occupants: &Vec<String>, sender: &String) -> (r: AddSenderActuallyDone)
    ensures
        r == spec_classify_join(tokens_view(occupants@), sender@),
{
    let ghost occ = tokens_view(occupants@);
    let mut found = false;
    let mut i: usize = 0;
    while i < occupants.len()
        invariant
            occ == tokens_view(occupants@),
            i <= occupants@.len(),
            found <==> exists|k: int| 0 <= k < i && occupants@[k]@ == sender@,
        decreases occupants@.len() - i,
    {
        if occupants[i] == *sender {
            found = true;
        }
        i = i + 1;
    }
    proof {
        assert(found <==> occ.contains(sender@)) by {
            if found {
                let k = choose|k: int| 0 <= k < occupants@.len() && occupants@[k]@ == sender@;
                assert(occ[k] == sender@);
            }
            if occ.contains(sender@) {
                let k = choose|k: int| 0 <= k < occ.len() && occ[k] == sender@;
                assert(occupants@[k]@ == sender@);
            }
        }
    }
    if found {
        AddSenderActuallyDone::AlreadyInLine
    } else if occupants.len() == 0 {
        AddSenderActuallyDone::AddTheFirstSender
    } else if occupants.len() == 1 {
        AddSenderActuallyDone::AddTheSecondSender
    } else {
        AddSenderActuallyDone::TryToAddTheThirdSender
    }
}

/// Copy a token list.
fn clone_tokens(v: &Vec<String>) -> (r: Vec<String>)
    ensures
        r@ == v@,
{
    let r = v.clone();
    proof {
        assert(r@ =~= v@);
    }
    r
}

/// The in-process registry backend: one occupant list per line seen.
pub struct MemoryLines {
    entries: HashMap<u16, Vec<String>>,
}

impl MemoryLines {
    /// The occupant tokens of `line`; an absent line is empty.
    pub closed spec fn occupants(self, line: u16) -> Seq<Seq<char>> {
        if self.entries@.contains_key(line) {
            tokens_view(self.entries@[line]@)
        } else {
            Seq::<Seq<char>>::empty()
        }
    }

    /// Every stored occupant list is well-formed.
    pub closed spec fn wf(self) -> bool {
        forall|l: u16|
            self.entries@.contains_key(l) ==> occupants_wf(tokens_view(#[trigger] self.entries@[l]@))
    }

    /// A registry with every line empty.
    pub fn new() -> (r: Self)
        ensures
            r.wf(),
            forall|l: u16| r.occupants(l) == Seq::<Seq<char>>::empty(),
    {
        MemoryLines { entries: HashMap::new() }
    }

    /// The occupant list of `line`, as stored.
    fn get_line(&self, line: u16) -> (r: Vec<String>)
        ensures
            tokens_view(r@) == self.occupants(line),
    {
        match self.entries.get(&line) {
            Some(v) => clone_tokens(v),
            None => {
                let r = Vec::<String>::new();
                proof {
                    assert(tokens_view(r@) =~= Seq::<Seq<char>>::empty());
                }
                r
            },
        }
    }

    /// Replace the occupant list of `line`.
    fn set_line(&mut self, line: u16, senders: Vec<String>)
        requires
            old(self).wf(),
            occupants_wf(tokens_view(senders@)),
        ensures
            final(self).wf(),
            final(self).occupants(line) == tokens_view(senders@),
            forall|l: u16| l != line ==> final(self).occupants(l) == old(self).occupants(l),
    {
        self.entries.insert(line, senders);
    }
}

/// Which store the registry runs against.
enum LineBackend {
    Memory(MemoryLines),
    Redis(redis::Client),
}

/// The pairing registry.
pub struct LineManager {
    backend: LineBackend,
    auto_delete_time: Option<u64>,
}

/// The error reported when a leave finds the token unlisted.
pub open spec fn msg_not_present() -> Seq<char> {
    "Try to remove a sender that not exist."@
}

pub(crate) fn not_exist_error() -> (r: String)
    ensures
        r@ == msg_not_present(),
{
    "Try to remove a sender that not exist.".to_owned()
}

/// Give the occupant-list record its time-to-live, clamped to what the
/// store accepts.
fn set_ttl_for_key(con: &mut redis::Connection, key: &str, time: u64) -> (r: Result<bool, String>)
    ensures
        r matches Ok(b) ==> b,
{
    let secs = if time > (i64::MAX as u64) {
        i64::MAX as u64
    } else {
        time
    };
    match expire_key(con, key, secs) {
        Ok(_) => Ok(true),
        Err(e) => Err(e),
    }
}

impl LineManager {
    /// Whether this registry runs against the in-process backend; only
    /// then do its contracts pin the stored occupant lists down.
    pub closed spec fn is_memory(self) -> bool {
        self.backend is Memory
    }

    /// The occupant lists, meaningful for the in-process backend.
    pub closed spec fn occupants(self, line: u16) -> Seq<Seq<char>> {
        match self.backend {
            LineBackend::Memory(m) => m.occupants(line),
            LineBackend::Redis(_) => Seq::<Seq<char>>::empty(),
        }
    }

    /// The retention window applied to occupant-list records.
    pub closed spec fn retention(self) -> Option<u64> {
        self.auto_delete_time
    }

    pub closed spec fn wf(self) -> bool {
        match self.backend {
            LineBackend::Memory(m) => m.wf(),
            LineBackend::Redis(_) => true,
        }
    }

    /// A registry against the durable store that `config` names.
    pub fn new(config: RedisConnection) -> (r: Result<Self, String>)
        ensures
            r matches Ok(m) ==> m.wf() && !m.is_memory() && m.retention()
                == config.auto_delete_time,
    {
        Ok(
            LineManager {
                backend: LineBackend::Redis(config.client),
                auto_delete_time: config.auto_delete_time,
            },
        )
    }

    /// A registry against an in-process table: every line starts empty,
    /// and nothing expires.
    pub fn new_in_memory() -> (r: Self)
        ensures
            r.wf(),
            r.is_memory(),
            r.retention() is None,
            forall|l: u16| r.occupants(l) == Seq::<Seq<char>>::empty(),
    {
        LineManager { backend: LineBackend::Memory(MemoryLines::new()), auto_delete_time: None }
    }

    /// Try to add `sender` to `line_id`, and say what actually happened.
    ///
    /// Against the in-process backend the decision and the new occupant
    /// list are exactly [`spec_classify_join`] and [`spec_join_result`];
    /// against the durable store the same decision is taken over whatever
    /// occupant list the store returned, and only store failures err.
    pub fn add_sender(&mut self, sender: String, line_id: u16) -> (r: Result<
        AddSenderActuallyDone,
        String,
    >)
        requires
            old(self).wf(),
        ensures
            final(self).wf(),
            final(self).is_memory() == old(self).is_memory(),
            final(self).retention() == old(self).retention(),
            old(self).is_memory() ==> (r matches Ok(d) && d == spec_classify_join(
                old(self).occupants(line_id),
                sender@,
            )),
            old(self).is_memory() ==> final(self).occupants(line_id) == spec_join_result(
                old(self).occupants(line_id),
                sender@,
            ),
            old(self).is_memory() ==> forall|l: u16|
                l != line_id ==> final(self).occupants(l) == old(self).occupants(l),
            !old(self).is_memory() ==> *final(self) == *old(self),
    {
        let ghost t = sender@;
        match &mut self.backend {
            LineBackend::Memory(m) => {
                let ghost occ = m.occupants(line_id);
                let mut occupants = m.get_line(line_id);
                let decision = classify_join(&occupants, &sender);
                proof {
                    lemma_join_capacity(occ, t);
                }
                match decision {
                    AddSenderActuallyDone::AddTheFirstSender
                    | AddSenderActuallyDone::AddTheSecondSender => {
                        occupants.push(sender);
                        proof {
                            assert(tokens_view(occupants@) =~= occ.push(t));
                        }
                        m.set_line(line_id, occupants);
                    },
                    _ => {},
                }
                Ok(decision)
            },
            LineBackend::Redis(client) => {
                let key = line_key(line_id);
                let mut con = match client_get_connection(client) {
                    Ok(c) => c,
                    Err(e) => {
                        return Err(e);
                    },
                };
                let occupants = match list_read_all(&mut con, key.as_str()) {
                    Ok(v) => v,
                    Err(e) => {
                        return Err(e);
                    },
                };
                let decision = classify_join(&occupants, &sender);
                match decision {
                    AddSenderActuallyDone::AddTheFirstSender
                    | AddSenderActuallyDone::AddTheSecondSender => {
                        match list_push_back(&mut con, key.as_str(), sender.as_str()) {
                            Ok(_) => {},
                            Err(e) => {
                                return Err(e);
                            },
                        }
                    },
                    _ => {},
                }
                match decision {
                    AddSenderActuallyDone::TryToAddTheThirdSender => {},
                    _ => {
                        // A successful join resets the line's expiry.
                        match self.auto_delete_time {
                            Some(time) => {
                                match set_ttl_for_key(&mut con, key.as_str(), time) {
                                    Ok(_) => {},
                                    Err(e) => {
                                        return Err(e);
                                    },
                                }
                            },
                            None => {},
                        }
                    },
                }
                Ok(decision)
            },
        }
    }

    /// Re-apply the line's time-to-live without touching its occupants.
    pub fn refresh_ttl(&self, line_id: u16) -> (r: Result<bool, String>)
        ensures
            r matches Ok(b) ==> b,
    {
        match &self.backend {
            LineBackend::Memory(_) => Ok(true),
            LineBackend::Redis(client) => {
                let key = line_key(line_id);
                let mut con = match client_get_connection(client) {
                    Ok(c) => c,
                    Err(e) => {
                        return Err(e);
                    },
                };
                match self.auto_delete_time {
                    Some(time) => {
                        match set_ttl_for_key(&mut con, key.as_str(), time) {
                            Ok(_) => Ok(true),
                            Err(e) => Err(e),
                        }
                    },
                    None => Ok(true),
                }
            },
        }
    }

    /// The ordered occupant list of `line_id`; an absent line is empty.
    pub fn get_senders(&self, line_id: u16) -> (r: Result<Vec<String>, String>)
        ensures
            self.is_memory() ==> (r matches Ok(v) && tokens_view(v@) == self.occupants(line_id)),
    {
        match &self.backend {
            LineBackend::Memory(m) => Ok(m.get_line(line_id)),
            LineBackend::Redis(client) => {
                let key = line_key(line_id);
                let mut con = match client_get_connection(client) {
                    Ok(c) => c,
                    Err(e) => {
                        return Err(e);
                    },
                };
                list_read_all(&mut con, key.as_str())
            },
        }
    }

    /// Remove `sender` from `line_id`'s occupant list.  A token that was
    /// not listed is reported with [`msg_not_present`]; the list is then
    /// left as it was.
    pub fn remove_sender(&mut self, sender: String, line_id: u16) -> (r: Result<(), String>)
        requires
            old(self).wf(),
        ensures
            final(self).wf(),
            final(self).is_memory() == old(self).is_memory(),
            final(self).retention() == old(self).retention(),
            old(self).is_memory() ==> final(self).occupants(line_id) == spec_leave_result(
                old(self).occupants(line_id),
                sender@,
            ),
            old(self).is_memory() ==> forall|l: u16|
                l != line_id ==> final(self).occupants(l) == old(self).occupants(l),
            old(self).is_memory() ==> (r is Ok <==> old(self).occupants(line_id).contains(sender@)),
            old(self).is_memory() ==> (r matches Err(e) ==> e@ == msg_not_present()),
            !old(self).is_memory() ==> *final(self) == *old(self),
    {
        let ghost t = sender@;
        match &mut self.backend {
            LineBackend::Memory(m) => {
                let ghost occ = m.occupants(line_id);
                let occupants = m.get_line(line_id);
                proof {
                    lemma_leave_wf(occ, t);
                }
                let mut kept: Vec<String> = Vec::new();
                let mut found = false;
                let mut i: usize = 0;
                while i < occupants.len()
                    invariant
                        t == sender@,
                        occ == tokens_view(occupants@),
                        i <= occupants@.len(),
                        found <==> occ.take(i as int).contains(t),
                        tokens_view(kept@) == spec_leave_result(occ.take(i as int), t),
                    decreases occupants@.len() - i,
                {
                    let ghost before = occ.take(i as int);
                    proof {
                        assert(occ.take(i + 1).drop_last() =~= before);
                        assert(occ.take(i + 1).last() == occ[i as int]);
                        assert(occ[i as int] == occupants@[i as int]@);
                    }
                    if occupants[i] == sender {
                        found = true;
                        proof {
                            assert(occ.take(i + 1).contains(t)) by {
                                assert(occ.take(i + 1)[i as int] == t);
                            }
                        }
                    } else {
                        kept.push(occupants[i].clone());
                        proof {
                            assert(tokens_view(kept@) =~= spec_leave_result(before, t).push(
                                occ[i as int],
                            ));
                            if occ.take(i + 1).contains(t) {
                                let k = choose|k: int|
                                    0 <= k < i + 1 && #[trigger] occ.take(i + 1)[k] == t;
                                assert(before[k] == t);
                            }
                        }
                    }
                    i = i + 1;
                }
                proof {
                    assert(occ.take(occ.len() as int) =~= occ);
                }
                if found {
                    m.set_line(line_id, kept);
                    Ok(())
                } else {
                    proof {
                        lemma_leave_absent_noop(occ, t);
                    }
                    Err(not_exist_error())
                }
            },
            LineBackend::Redis(client) => {
                let key = line_key(line_id);
                let mut con = match client_get_connection(client) {
                    Ok(c) => c,
                    Err(e) => {
                        return Err(e);
                    },
                };
                let removed = match list_remove(&mut con, key.as_str(), sender.as_str()) {
                    Ok(n) => n,
                    Err(e) => {
                        return Err(e);
                    },
                };
                if removed == 0 {
                    Err(not_exist_error())
                } else {
                    Ok(())
                }
            },
        }
    }
}

} // verus!
