//! Assembling the relay's components from a parsed configuration.

use vstd::prelude::*;
use crate::line_manage::LineManager;
use crate::linklist_queue::{LinkListQueue, spec_push_target};
use crate::message::{Message, MessageModel, msgs_view};
use crate::parse_config::{Config, Profile, spec_time_str_to_seconds, time_str_to_seconds};
use crate::queue_trait::MessageQueueStore;
use crate::redis_connect::{RedisConfig, RedisConnection};
use crate::redis_queue::RedisQueue;

verus! {

/// The mailbox store a relay runs with: in-process or durable.
pub enum Queue {
    LinkList(LinkListQueue),
    Redis(RedisQueue),
}

impl Queue {
    /// Whether this is the in-process store; only then do the contracts
    /// below pin the mailbox contents down.
    pub closed spec fn is_memory(self) -> bool {
        self is LinkList
    }

    /// The first slot's claiming token, for the in-process store.
    pub closed spec fn sender_a(self) -> Seq<char> {
        match self {
            Queue::LinkList(q) => q.sender_a(),
            Queue::Redis(_) => Seq::<char>::empty(),
        }
    }

    /// The first slot's undelivered messages, for the in-process store.
    pub closed spec fn msgs_a(self) -> Seq<MessageModel> {
        match self {
            Queue::LinkList(q) => q.msgs_a(),
            Queue::Redis(_) => Seq::<MessageModel>::empty(),
        }
    }

    /// The second slot's claiming token, for the in-process store.
    pub closed spec fn sender_b(self) -> Seq<char> {
        match self {
            Queue::LinkList(q) => q.sender_b(),
            Queue::Redis(_) => Seq::<char>::empty(),
        }
    }

    /// The second slot's undelivered messages, for the in-process store.
    pub closed spec fn msgs_b(self) -> Seq<MessageModel> {
        match self {
            Queue::LinkList(q) => q.msgs_b(),
            Queue::Redis(_) => Seq::<MessageModel>::empty(),
        }
    }

    /// The mailbox of token `t`, absence being empty.
    pub open spec fn box_of(self, t: Seq<char>) -> Seq<MessageModel> {
        if self.sender_a() == t {
            self.msgs_a()
        } else if self.sender_b() == t {
            self.msgs_b()
        } else {
            Seq::<MessageModel>::empty()
        }
    }

    /// Whether the in-process store has room for a message from `t`.
    pub open spec fn accepts(self, t: Seq<char>) -> bool {
        !(spec_push_target(self.sender_a(), self.sender_b(), t) is Rejected)
    }

    /// An unclaimed slot holds no messages.
    pub open spec fn wf(self) -> bool {
        &&& (self.sender_a().len() == 0 ==> self.msgs_a().len() == 0)
        &&& (self.sender_b().len() == 0 ==> self.msgs_b().len() == 0)
    }

    /// Append `message` to its author's mailbox.
    pub fn push(&mut self, message: Message) -> (r: Result<bool, String>)
        ensures
            final(self).is_memory() == old(self).is_memory(),
            (r matches Ok(b) ==> b),
            old(self).is_memory() ==> ({
                &&& (r is Ok <==> old(self).accepts(message@.sender))
                &&& (old(self).wf() && message@.sender.len() > 0 && old(self).accepts(
                    message@.sender,
                )) ==> {
                    &&& final(self).wf()
                    &&& final(self).box_of(message@.sender) == old(self).box_of(
                        message@.sender,
                    ).push(message@)
                    &&& forall|t: Seq<char>|
                        t != message@.sender && t.len() > 0 ==> final(self).box_of(t) == old(
                            self,
                        ).box_of(t)
                }
                &&& !old(self).accepts(message@.sender) ==> *final(self) == *old(self)
            }),
            !old(self).is_memory() ==> *final(self) == *old(self),
    {
        match self {
            Queue::LinkList(q) => q.push_message(message),
            Queue::Redis(q) => q.push_message(message),
        }
    }

    /// Drain `sender`'s mailbox: its messages, oldest first, which are
    /// no longer stored afterwards.
    pub fn pop_all(&mut self, line_id: u16, sender: &String) -> (r: Result<Vec<Message>, String>)
        ensures
            final(self).is_memory() == old(self).is_memory(),
            old(self).is_memory() ==> ({
                &&& (r matches Ok(v) && msgs_view(v@) == old(self).box_of(sender@))
                &&& final(self).box_of(sender@).len() == 0
                &&& forall|t: Seq<char>|
                    t != sender@ ==> final(self).box_of(t) == old(self).box_of(t)
                &&& (old(self).wf() ==> final(self).wf())
            }),
            !old(self).is_memory() ==> *final(self) == *old(self),
    {
        match self {
            Queue::LinkList(q) => q.pop_all(line_id, sender),
            Queue::Redis(q) => q.pop_all(line_id, sender),
        }
    }

    /// The oldest undelivered message of `sender`'s mailbox.
    pub fn get_head(&self, line_id: u16, sender: &String) -> (r: Result<Message, String>)
        ensures
            self.is_memory() ==> ({
                &&& (r is Ok <==> self.box_of(sender@).len() > 0)
                &&& (r matches Ok(m) ==> m@ == self.box_of(sender@)[0])
            }),
    {
        match self {
            Queue::LinkList(q) => q.get_head(line_id, sender),
            Queue::Redis(q) => q.get_head(line_id, sender),
        }
    }
}

/// The assembled components handed to the relay core.
pub struct LoadResult {
    pub queue: Queue,
    pub line_manager: LineManager,
    pub profile: Profile,
}

/// The retention window a configuration asks for: `None` when expiry is
/// switched off, otherwise the parsed number of seconds.
pub open spec fn spec_config_retention(config: Config) -> Option<Option<u64>> {
    if !config.config.auto_delete {
        Some(None)
    } else {
        match spec_time_str_to_seconds(config.config.auto_delete_time@) {
            Some(t) => Some(Some(t)),
            None => None,
        }
    }
}

/// Build the store-backed components that a parsed configuration names.
///
/// The configuration must name the supported store kind and, when expiry
/// is on, a readable retention window; reaching the store may then still
/// fail.  Errors carry a short headline and a detail.
pub fn load_config(config: Config) -> (r: Result<LoadResult, (String, String)>)
    ensures
        config.database.type_@ != "redis"@ ==> (r matches Err(e) && e.0@ == "Config is not valid."@
            && e.1@ == "Database type is not supported."@),
        config.database.type_@ == "redis"@ && spec_config_retention(config) is None ==> (r matches
            Err(e) && e.0@ == "Config is not valid."@ && e.1@ == "Auto delete time is not valid."@),
        r matches Ok(l) ==> ({
            &&& config.database.type_@ == "redis"@
            &&& spec_config_retention(config) matches Some(ret) && l.line_manager.retention() == ret
            &&& l.line_manager.wf()
            &&& !l.line_manager.is_memory()
            &&& !l.queue.is_memory()
            &&& l.profile == config.profile
        }),
{
    let redis_name: String = "redis".to_owned();
    if !(config.database.type_ == redis_name) {
        return Err((
            "Config is not valid.".to_owned(),
            "Database type is not supported.".to_owned(),
        ));
    }

    let auto_delete_time: Option<u64> = if config.config.auto_delete {
        match time_str_to_seconds(config.config.auto_delete_time.as_str()) {
            Some(time) => Some(time),
            None => {
                return Err((
                    "Config is not valid.".to_owned(),
                    "Auto delete time is not valid.".to_owned(),
                ));
            },
        }
    } else {
        None
    };

    let redis_connection = match RedisConnection::new(
        &RedisConfig { url: config.database.url, auto_delete_time },
    ) {
        Ok(connection) => connection,
        Err(e) => {
            return Err(("Failed to connect to database.".to_owned(), e));
        },
    };

    let queue = match RedisQueue::new(&redis_connection) {
        Ok(queue) => Queue::Redis(queue),
        Err(e) => {
            return Err(("Failed to connect to database.".to_owned(), e));
        },
    };

    let line_manager = match LineManager::new(redis_connection) {
        Ok(line_manager) => line_manager,
        Err(e) => {
            return Err(("Failed to connect to database.".to_owned(), e));
        },
    };

    Ok(LoadResult { queue, line_manager, profile: config.profile })
}

} // verus!
