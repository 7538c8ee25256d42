//! The bounded group-chat log.
//!
//! One log is shared by an orchestrator and its subagents. It is append-only
//! up to a fixed capacity; beyond it the oldest entries are evicted and every
//! reader's cursor shifts down with them, so the distance from a cursor to
//! the end of the log — the unread window — keeps its meaning. Reading does
//! not advance a cursor; acknowledgment is a separate, caller-driven step.

use vstd::prelude::*;

use crate::ids::AgentId;
use crate::protocol::GroupChatSender;
use crate::store::{find_key, has_key, keys_unique, lemma_key_at, set_key, value_of_key};

verus! {

/// Capacity of the group-chat log.
pub const MAX_GROUP_CHAT_MESSAGES: usize = 500;

/// One message in the group chat.
#[derive(Debug, PartialEq, Eq)]
pub struct GroupChatMessageEvent {
    pub text: String,
    pub sender: GroupChatSender,
}

impl Clone for GroupChatMessageEvent {
    fn clone(&self) -> (r: Self)
        ensures
            r == *self,
    {
        GroupChatMessageEvent { text: self.text.clone(), sender: self.sender.clone() }
    }
}

/// The bounded log with one read cursor per subscriber.
pub struct GroupChatState {
    entries: Vec<GroupChatMessageEvent>,
    cursors: Vec<(AgentId, usize)>,
}

impl GroupChatState {
    /// The logged messages, oldest first.
    pub closed spec fn entries_view(&self) -> Seq<GroupChatMessageEvent> {
        self.entries@
    }

    /// The next-unread index of a subscriber. A subscriber without a recorded
    /// cursor has read nothing.
    pub closed spec fn cursor_of(&self, id: AgentId) -> nat {
        match value_of_key(self.cursors@, id) {
            Some(c) => c as nat,
            None => 0,
        }
    }

    pub closed spec fn wf(&self) -> bool {
        keys_unique(self.cursors@) && self.entries@.len() <= MAX_GROUP_CHAT_MESSAGES
    }

    pub fn new() -> (r: Self)
        ensures
            r.wf(),
            r.entries_view() == Seq::<GroupChatMessageEvent>::empty(),
            forall|id: AgentId| r.cursor_of(id) == 0,
    {
        let r = GroupChatState { entries: Vec::new(), cursors: Vec::new() };
        proof {
            assert(r.entries_view() =~= Seq::<GroupChatMessageEvent>::empty());
            assert(forall|id: AgentId| !has_key(r.cursors@, id));
        }
        r
    }

    /// Appends a message and returns the new length of the log.
    ///
    /// The log never grows past its capacity: on overflow the oldest entries
    /// are dropped from the front and every cursor shifts down by the same
    /// amount, saturating at zero. No cursor ever grows by an append, and a
    /// subscriber whose unread window lies outside the evicted prefix keeps
    /// exactly the same unread count.
    pub fn append(&mut self, message: GroupChatMessageEvent) -> (r: usize)
        requires
            old(self).wf(),
        ensures
            final(self).wf(),
            final(self).entries_view().len() <= MAX_GROUP_CHAT_MESSAGES as nat,
            r == final(self).entries_view().len(),
            ({
                let pushed = old(self).entries_view().push(message);
                let overflow: nat = if pushed.len() > MAX_GROUP_CHAT_MESSAGES as nat {
                    (pushed.len() - MAX_GROUP_CHAT_MESSAGES) as nat
                } else {
                    0
                };
                &&& final(self).entries_view() == pushed.skip(overflow as int)
                &&& forall|id: AgentId|
                    #[trigger] final(self).cursor_of(id) == if old(self).cursor_of(id) >= overflow {
                        (old(self).cursor_of(id) - overflow) as nat
                    } else {
                        0
                    }
                &&& forall|id: AgentId|
                    #[trigger] final(self).cursor_of(id) <= old(self).cursor_of(id)
                &&& forall|id: AgentId|
                    old(self).cursor_of(id) >= overflow ==> final(self).entries_view().len()
                        - #[trigger] final(self).cursor_of(id) == pushed.len() - old(
                        self,
                    ).cursor_of(id)
            }),
    {
        let ghost pushed = old(self).entries_view().push(message);
        self.entries.push(message);
        if self.entries.len() > MAX_GROUP_CHAT_MESSAGES {
            let overflow = self.entries.len() - MAX_GROUP_CHAT_MESSAGES;
            let mut removed: usize = 0;
            while removed < overflow
                invariant
                    0 <= removed <= overflow,
                    overflow <= pushed.len(),
                    self.entries@ =~= pushed.skip(removed as int),
                    self.cursors@ == old(self).cursors@,
                decreases overflow - removed,
            {
                self.entries.remove(0);
                removed += 1;
            }
            let n = self.cursors.len();
            let mut i: usize = 0;
            while i < n
                invariant
                    0 <= i <= n,
                    n == self.cursors@.len(),
                    self.cursors@.len() == old(self).cursors@.len(),
                    self.entries@ =~= pushed.skip(overflow as int),
                    forall|j: int|
                        0 <= j < i ==> #[trigger] self.cursors@[j] == (
                            old(self).cursors@[j].0,
                            if old(self).cursors@[j].1 >= overflow {
                                (old(self).cursors@[j].1 - overflow) as usize
                            } else {
                                0
                            },
                        ),
                    forall|j: int| i <= j < n ==> self.cursors@[j] == old(self).cursors@[j],
                decreases n - i,
            {
                let key = self.cursors[i].0;
                let cur = self.cursors[i].1;
                let nc: usize = if cur >= overflow {
                    cur - overflow
                } else {
                    0
                };
                self.cursors[i] = (key, nc);
                i += 1;
            }
            proof {
                let ghost ov: nat = overflow as nat;
                assert(keys_unique(self.cursors@)) by {
                    assert(forall|j: int|
                        0 <= j < self.cursors@.len() ==> (#[trigger] self.cursors@[j]).0 == old(
                            self,
                        ).cursors@[j].0);
                }
                assert forall|id: AgentId| #[trigger] final(self).cursor_of(id) == if old(
                    self,
                ).cursor_of(id) >= ov {
                    (old(self).cursor_of(id) - ov) as nat
                } else {
                    0nat
                } by {
                    if has_key(old(self).cursors@, id) {
                        let j = crate::store::index_of_key(old(self).cursors@, id);
                        lemma_key_at(old(self).cursors@, j);
                        lemma_key_at(self.cursors@, j);
                    } else {
                        assert(!has_key(self.cursors@, id)) by {
                            assert(forall|j: int|
                                0 <= j < self.cursors@.len() ==> (#[trigger] self.cursors@[j]).0
                                    == old(self).cursors@[j].0);
                        }
                    }
                }
            }
        } else {
            proof {
                assert(self.entries@ =~= pushed.skip(0));
            }
        }
        self.entries.len()
    }

    /// The current length of the log, and the messages from the subscriber's
    /// cursor to the end. Does not advance the cursor, so a subscriber can
    /// peek without committing.
    pub fn unread_messages(&self, subagent_id: AgentId) -> (r: (usize, Vec<GroupChatMessageEvent>))
        requires
            self.wf(),
        ensures
            r.0 == self.entries_view().len(),
            ({
                let start: nat = if self.cursor_of(subagent_id) <= self.entries_view().len() {
                    self.cursor_of(subagent_id)
                } else {
                    self.entries_view().len()
                };
                r.1@ == self.entries_view().skip(start as int)
            }),
    {
        let recorded: usize = match find_key(&self.cursors, subagent_id) {
            Some(i) => self.cursors[i].1,
            None => 0,
        };
        let start: usize = if recorded < self.entries.len() {
            recorded
        } else {
            self.entries.len()
        };
        let mut messages: Vec<GroupChatMessageEvent> = Vec::new();
        let mut i: usize = start;
        while i < self.entries.len()
            invariant
                start <= i <= self.entries@.len(),
                messages@ =~= self.entries@.subrange(start as int, i as int),
            decreases self.entries@.len() - i,
        {
            messages.push(self.entries[i].clone());
            i += 1;
        }
        proof {
            assert(messages@ =~= self.entries@.skip(start as int));
        }
        (self.entries.len(), messages)
    }

    /// Caller-driven acknowledgment: records how far the subscriber has read.
    pub fn mark_read(&mut self, subagent_id: AgentId, cursor: usize)
        requires
            old(self).wf(),
        ensures
            final(self).wf(),
            final(self).entries_view() == old(self).entries_view(),
            final(self).cursor_of(subagent_id) == cursor as nat,
            forall|id: AgentId|
                id != subagent_id ==> #[trigger] final(self).cursor_of(id) == old(self).cursor_of(
                    id,
                ),
    {
        set_key(&mut self.cursors, subagent_id, cursor);
    }
}

} // verus!
