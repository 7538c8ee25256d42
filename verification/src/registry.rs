//! The thread registry: the authoritative map from agent id to thread state,
//! the subagent metadata map, and the per-subagent output buffers.
//!
//! An agent thread itself runs outside the control plane; the registry holds
//! what the control plane knows of it: its last observed lifecycle status and
//! the operations queued for it, oldest first. Ids are assigned by the
//! registry and never reused, so an id handed to a caller always refers to
//! the thread it was minted for.

use vstd::prelude::*;
use vstd::string::*;

use crate::errors::ControlError;
use crate::ids::{decimal_digits, u64_text, AgentId};
use crate::output::{snapshot_matches, SubagentOutput, SubagentOutputSnapshot};
use crate::protocol::{agent_status_from_event, AgentStatus, Event, EventMsg, Op, INITIAL_SUBMIT_ID};
use crate::store::{
    find_key, has_key, index_of_key, keys_unique, lemma_key_at, lemma_lookup_after_push,
    lemma_lookup_after_update, remove_key, set_key, value_of_key,
};
use crate::text::clone_opt_string;

verus! {

/// Metadata of a registered subagent: who spawned it and under what persona.
/// Immutable once registered.
#[derive(Debug)]
pub struct SubagentInfo {
    pub parent_id: AgentId,
    pub persona: Option<String>,
    pub display_name: Option<String>,
}

impl Clone for SubagentInfo {
    fn clone(&self) -> (r: Self)
        ensures
            r == *self,
    {
        SubagentInfo {
            parent_id: self.parent_id,
            persona: clone_opt_string(&self.persona),
            display_name: clone_opt_string(&self.display_name),
        }
    }
}

/// The registry's knowledge of one agent thread: its last observed status and
/// the operations submitted to it that it has not consumed yet.
#[derive(Debug)]
pub struct ThreadEntry {
    pub status: AgentStatus,
    pub inbox: Vec<Op>,
}

/// The registry of agent threads and subagent bookkeeping.
pub struct ThreadRegistry {
    next_id: u64,
    threads: Vec<(AgentId, ThreadEntry)>,
    subagents: Vec<(AgentId, SubagentInfo)>,
    subagent_outputs: Vec<(AgentId, SubagentOutput)>,
}

impl ThreadRegistry {
    /// The thread entry registered under `id`, if any.
    pub closed spec fn thread(&self, id: AgentId) -> Option<ThreadEntry> {
        value_of_key(self.threads@, id)
    }

    pub open spec fn has_thread(&self, id: AgentId) -> bool {
        self.thread(id) is Some
    }

    /// The subagent metadata registered under `id`, if any.
    pub closed spec fn subagent(&self, id: AgentId) -> Option<SubagentInfo> {
        value_of_key(self.subagents@, id)
    }

    /// The output buffer of `id`, if any.
    pub closed spec fn output(&self, id: AgentId) -> Option<SubagentOutput> {
        value_of_key(self.subagent_outputs@, id)
    }

    /// Whether `child` is registered as a subagent of `parent`.
    pub open spec fn is_child(&self, parent: AgentId, child: AgentId) -> bool {
        match self.subagent(child) {
            Some(info) => info.parent_id == parent,
            None => false,
        }
    }

    /// Ids the registry has not handed out yet.
    pub closed spec fn id_fresh(&self, id: AgentId) -> bool {
        id.value >= self.next_id
    }

    /// The id the next accepted thread will get.
    pub closed spec fn next_agent_id(&self) -> AgentId {
        AgentId { value: self.next_id }
    }

    pub closed spec fn wf(&self) -> bool {
        &&& keys_unique(self.threads@)
        &&& keys_unique(self.subagents@)
        &&& keys_unique(self.subagent_outputs@)
        &&& forall|id: AgentId|
            #[trigger] has_key(self.subagents@, id) == has_key(self.subagent_outputs@, id)
        &&& forall|id: AgentId| #[trigger] has_key(self.threads@, id) ==> id.value < self.next_id
    }

    pub fn new() -> (r: Self)
        ensures
            r.wf(),
            forall|id: AgentId| r.thread(id) is None,
            forall|id: AgentId| r.subagent(id) is None,
            forall|id: AgentId| r.output(id) is None,
    {
        let r = ThreadRegistry {
            next_id: 0,
            threads: Vec::new(),
            subagents: Vec::new(),
            subagent_outputs: Vec::new(),
        };
        proof {
            assert(forall|id: AgentId| !has_key(r.threads@, id));
            assert(forall|id: AgentId| !has_key(r.subagents@, id));
            assert(forall|id: AgentId| !has_key(r.subagent_outputs@, id));
        }
        r
    }

    /// The last observed status of a registered thread.
    pub fn thread_status(&self, id: AgentId) -> (r: Option<AgentStatus>)
        requires
            self.wf(),
        ensures
            r == match self.thread(id) {
                Some(t) => Some(t.status),
                None => None::<AgentStatus>,
            },
    {
        match find_key(&self.threads, id) {
            Some(i) => Some(self.threads[i].1.status.clone()),
            None => None,
        }
    }

    /// Accepts a thread whose first event has been observed. The spawn
    /// protocol demands that this first event is the configuration
    /// acknowledgment of the initial submission; anything else fails the
    /// spawn. On success the new thread is registered under a fresh id,
    /// pending initialization, with an empty inbox — the id is assigned and
    /// inserted in one step, so no caller can see an id without its entry.
    pub fn start_thread(&mut self, first_event: Event) -> (r: Result<AgentId, ControlError>)
        requires
            old(self).wf(),
        ensures
            final(self).wf(),
            (r is Ok) == (first_event.id@ == INITIAL_SUBMIT_ID@ && first_event.msg
                is SessionConfigured && old(self).next_ids_left()),
            r matches Ok(id) ==> {
                &&& id == old(self).next_agent_id()
                &&& old(self).thread(id) is None
                &&& old(self).id_fresh(id)
                &&& final(self).thread(id) matches Some(t) && t.status == AgentStatus::PendingInit
                    && t.inbox@ == Seq::<Op>::empty()
                &&& forall|k: AgentId| k != id ==> final(self).thread(k) == old(self).thread(k)
                &&& forall|k: AgentId| final(self).subagent(k) == old(self).subagent(k)
                &&& forall|k: AgentId| final(self).output(k) == old(self).output(k)
            },
            r matches Err(e) ==> {
                &&& ((first_event.id@ == INITIAL_SUBMIT_ID@ && first_event.msg
                    is SessionConfigured) ==> (e matches ControlError::UnsupportedOperation(m) && m@
                    == "agent id space exhausted"@))
                &&& (!(first_event.id@ == INITIAL_SUBMIT_ID@ && first_event.msg
                    is SessionConfigured) ==> e == ControlError::SessionConfiguredNotFirstEvent)
                &&& forall|k: AgentId| final(self).thread(k) == old(self).thread(k)
                &&& forall|k: AgentId| final(self).subagent(k) == old(self).subagent(k)
                &&& forall|k: AgentId| final(self).output(k) == old(self).output(k)
            },
    {
        let id_ok = first_event.id == String::from_str(INITIAL_SUBMIT_ID);
        let msg_ok = match &first_event.msg {
            EventMsg::SessionConfigured => true,
            _ => false,
        };
        if !(id_ok && msg_ok) {
            return Err(ControlError::SessionConfiguredNotFirstEvent);
        }
        if self.next_id == u64::MAX {
            return Err(
                ControlError::UnsupportedOperation(String::from_str("agent id space exhausted")),
            );
        }
        let id = AgentId { value: self.next_id };
        let ghost pre_threads = self.threads@;
        proof {
            assert(!has_key(pre_threads, id));
        }
        let entry = ThreadEntry { status: AgentStatus::PendingInit, inbox: Vec::new() };
        self.threads.push((id, entry));
        self.next_id = self.next_id + 1;
        proof {
            lemma_key_at(self.threads@, pre_threads.len() as int);
            assert forall|k: AgentId| k != id implies value_of_key(self.threads@, k)
                == value_of_key(pre_threads, k) by {
                lemma_lookup_after_push(pre_threads, id, self.threads@.last().1, k);
            }
            assert(keys_unique(self.threads@)) by {
                lemma_lookup_after_push(pre_threads, id, self.threads@.last().1, id);
            }
            assert forall|k: AgentId| has_key(self.threads@, k) implies (#[trigger] k.value)
                < self.next_id by {
                if k != id {
                    assert(value_of_key(self.threads@, k) == value_of_key(pre_threads, k));
                }
            }
        }
        Ok(id)
    }

    /// Whether the id space is not exhausted. Practically always true; stated
    /// so that `start_thread`'s contract is total.
    pub closed spec fn next_ids_left(&self) -> bool {
        self.next_id < u64::MAX
    }

    /// Queues an operation for a registered thread and returns its
    /// acknowledgment token: the position the operation took in the thread's
    /// inbox, as text.
    pub fn send_op(&mut self, thread_id: AgentId, op: Op) -> (r: Result<String, ControlError>)
        requires
            old(self).wf(),
        ensures
            final(self).wf(),
            (r is Ok) == old(self).has_thread(thread_id),
            r matches Ok(ack) ==> {
                let entry = old(self).thread(thread_id).unwrap();
                &&& final(self).thread(thread_id) matches Some(t) && t.status == entry.status
                    && t.inbox@ == entry.inbox@.push(op)
                &&& ack@ == decimal_digits(entry.inbox@.len() as nat)
                &&& forall|k: AgentId|
                    k != thread_id ==> final(self).thread(k) == old(self).thread(k)
            },
            r matches Err(e) ==> {
                &&& e == ControlError::ThreadNotFound(thread_id)
                &&& forall|k: AgentId| final(self).thread(k) == old(self).thread(k)
            },
            forall|k: AgentId| final(self).subagent(k) == old(self).subagent(k),
            forall|k: AgentId| final(self).output(k) == old(self).output(k),
    {
        match find_key(&self.threads, thread_id) {
            Some(i) => {
                let ghost pre_threads = self.threads@;
                let mut pair = self.threads.remove(i);
                let pos = pair.1.inbox.len();
                pair.1.inbox.push(op);
                self.threads.insert(i, pair);
                proof {
                    assert(self.threads@ =~= pre_threads.update(
                        i as int,
                        (thread_id, self.threads@[i as int].1),
                    ));
                    lemma_lookup_after_update(
                        pre_threads,
                        i as int,
                        self.threads@[i as int].1,
                        thread_id,
                    );
                    assert forall|k: AgentId| k != thread_id implies value_of_key(self.threads@, k)
                        == value_of_key(pre_threads, k) by {
                        lemma_lookup_after_update(
                            pre_threads,
                            i as int,
                            self.threads@[i as int].1,
                            k,
                        );
                    }
                    assert forall|k: AgentId| has_key(self.threads@, k) implies (
                    #[trigger] k.value) < self.next_id by {
                        if k != thread_id {
                            assert(value_of_key(self.threads@, k) == value_of_key(pre_threads, k));
                        }
                    }
                }
                Ok(u64_text(pos as u64))
            },
            None => Err(ControlError::ThreadNotFound(thread_id)),
        }
    }

    /// Removes and returns the oldest queued operation of `thread_id`'s
    /// thread — what the thread itself consumes next.
    pub fn take_op(&mut self, thread_id: AgentId) -> (r: Option<Op>)
        requires
            old(self).wf(),
        ensures
            final(self).wf(),
            (match old(self).thread(thread_id) {
                Some(entry) => if entry.inbox@.len() > 0 {
                    &&& r matches Some(op) && op == entry.inbox@[0]
                    &&& final(self).thread(thread_id) matches Some(t) && t.status == entry.status
                        && t.inbox@ == entry.inbox@.drop_first()
                } else {
                    r is None && final(self).thread(thread_id) == old(self).thread(thread_id)
                },
                None => r is None && final(self).thread(thread_id) == old(self).thread(thread_id),
            }),
            forall|k: AgentId| k != thread_id ==> final(self).thread(k) == old(self).thread(k),
            forall|k: AgentId| final(self).subagent(k) == old(self).subagent(k),
            forall|k: AgentId| final(self).output(k) == old(self).output(k),
    {
        match find_key(&self.threads, thread_id) {
            Some(i) => {
                if self.threads[i].1.inbox.len() == 0 {
                    return None;
                }
                let ghost pre_threads = self.threads@;
                let mut pair = self.threads.remove(i);
                let op = pair.1.inbox.remove(0);
                self.threads.insert(i, pair);
                proof {
                    assert(self.threads@ =~= pre_threads.update(
                        i as int,
                        (thread_id, self.threads@[i as int].1),
                    ));
                    lemma_lookup_after_update(
                        pre_threads,
                        i as int,
                        self.threads@[i as int].1,
                        thread_id,
                    );
                    assert forall|k: AgentId| k != thread_id implies value_of_key(self.threads@, k)
                        == value_of_key(pre_threads, k) by {
                        lemma_lookup_after_update(
                            pre_threads,
                            i as int,
                            self.threads@[i as int].1,
                            k,
                        );
                    }
                    assert forall|k: AgentId| has_key(self.threads@, k) implies (
                    #[trigger] k.value) < self.next_id by {
                        if k != thread_id {
                            assert(value_of_key(self.threads@, k) == value_of_key(pre_threads, k));
                        }
                    }
                    assert(self.threads@[i as int].1.inbox@ =~= old(self).thread(
                        thread_id,
                    ).unwrap().inbox@.drop_first());
                }
                Some(op)
            },
            None => None,
        }
    }

    /// Folds one observed lifecycle event of `id`'s thread into its recorded
    /// status. Events that carry no lifecycle information, and ids without a
    /// thread, change nothing.
    pub fn apply_event(&mut self, id: AgentId, event: &EventMsg)
        requires
            old(self).wf(),
        ensures
            final(self).wf(),
            (match old(self).thread(id) {
                Some(entry) => {
                    &&& final(self).thread(id) matches Some(t) && t.inbox@ == entry.inbox@
                    &&& (!no_status_from_event(*event) ==> agent_status_from_event_gives(
                        *event,
                        final(self).thread(id).unwrap().status,
                    ))
                    &&& (no_status_from_event(*event) ==> final(self).thread(id).unwrap().status
                        == entry.status)
                },
                None => final(self).thread(id) == old(self).thread(id),
            }),
            forall|k: AgentId| k != id ==> final(self).thread(k) == old(self).thread(k),
            forall|k: AgentId| final(self).subagent(k) == old(self).subagent(k),
            forall|k: AgentId| final(self).output(k) == old(self).output(k),
    {
        let next = agent_status_from_event(event);
        match next {
            Some(status) => {
                match find_key(&self.threads, id) {
                    Some(i) => {
                        let ghost pre_threads = self.threads@;
                        let mut pair = self.threads.remove(i);
                        pair.1.status = status;
                        self.threads.insert(i, pair);
                        proof {
                            assert(self.threads@ =~= pre_threads.update(
                                i as int,
                                (id, self.threads@[i as int].1),
                            ));
                            lemma_lookup_after_update(
                                pre_threads,
                                i as int,
                                self.threads@[i as int].1,
                                id,
                            );
                            assert forall|k: AgentId| k != id implies value_of_key(
                                self.threads@,
                                k,
                            ) == value_of_key(pre_threads, k) by {
                                lemma_lookup_after_update(
                                    pre_threads,
                                    i as int,
                                    self.threads@[i as int].1,
                                    k,
                                );
                            }
                            assert forall|k: AgentId| has_key(self.threads@, k) implies (
                            #[trigger] k.value) < self.next_id by {
                                if k != id {
                                    assert(value_of_key(self.threads@, k) == value_of_key(
                                        pre_threads,
                                        k,
                                    ));
                                }
                            }
                        }
                    },
                    None => {},
                }
            },
            None => {},
        }
    }

    /// Unregisters any subagent bookkeeping for `thread_id`, then removes and
    /// returns the registry's thread entry. Other holders of the agent's id
    /// simply find nothing registered under it afterwards.
    pub fn remove_thread(&mut self, thread_id: AgentId) -> (r: Option<ThreadEntry>)
        requires
            old(self).wf(),
        ensures
            final(self).wf(),
            r == old(self).thread(thread_id),
            final(self).thread(thread_id) is None,
            final(self).subagent(thread_id) is None,
            final(self).output(thread_id) is None,
            forall|k: AgentId| k != thread_id ==> final(self).thread(k) == old(self).thread(k),
            forall|k: AgentId| k != thread_id ==> final(self).subagent(k) == old(self).subagent(k),
            forall|k: AgentId| k != thread_id ==> final(self).output(k) == old(self).output(k),
    {
        self.unregister_subagent(thread_id);
        let ghost pre_threads = self.threads@;
        let r = remove_key(&mut self.threads, thread_id);
        proof {
            assert forall|k: AgentId| #[trigger] has_key(self.threads@, k) implies k.value
                < self.next_id by {
                assert(value_of_key(self.threads@, k) == value_of_key(pre_threads, k));
                assert(has_key(pre_threads, k));
            }
        }
        r
    }

    /// Registers `subagent_id` as a child of `parent_id` and makes sure it
    /// has an output buffer. The buffer is created only if absent, so
    /// repeated registration keeps accumulated output.
    pub fn register_subagent(
        &mut self,
        parent_id: AgentId,
        subagent_id: AgentId,
        persona: Option<String>,
        display_name: Option<String>,
    )
        requires
            old(self).wf(),
        ensures
            final(self).wf(),
            final(self).subagent(subagent_id) matches Some(info) && info.parent_id == parent_id
                && info.persona == persona && info.display_name == display_name,
            final(self).is_child(parent_id, subagent_id),
            (match old(self).output(subagent_id) {
                Some(o) => final(self).output(subagent_id) == Some(o),
                None => final(self).output(subagent_id) matches Some(o) && o.partial_text().len()
                    == 0 && o.reasoning_text().len() == 0 && o.message() is None && o.events().len()
                    == 0,
            }),
            forall|k: AgentId| k != subagent_id ==> final(self).subagent(k) == old(self).subagent(k),
            forall|k: AgentId| k != subagent_id ==> final(self).output(k) == old(self).output(k),
            forall|k: AgentId| final(self).thread(k) == old(self).thread(k),
    {
        let info = SubagentInfo { parent_id, persona, display_name };
        set_key(&mut self.subagents, subagent_id, info);
        let ghost pre_outputs = self.subagent_outputs@;
        match find_key(&self.subagent_outputs, subagent_id) {
            Some(_) => {},
            None => {
                self.subagent_outputs.push((subagent_id, SubagentOutput::new()));
                proof {
                    lemma_lookup_after_push(
                        pre_outputs,
                        subagent_id,
                        self.subagent_outputs@.last().1,
                        subagent_id,
                    );
                    assert forall|k: AgentId| k != subagent_id implies value_of_key(
                        self.subagent_outputs@,
                        k,
                    ) == value_of_key(pre_outputs, k) by {
                        lemma_lookup_after_push(
                            pre_outputs,
                            subagent_id,
                            self.subagent_outputs@.last().1,
                            k,
                        );
                    }
                }
            },
        }
        proof {
            assert forall|k: AgentId| #[trigger] has_key(self.subagents@, k) == has_key(
                self.subagent_outputs@,
                k,
            ) by {
                if k != subagent_id {
                    assert(value_of_key(self.subagents@, k) == value_of_key(old(self).subagents@, k));
                    assert(value_of_key(self.subagent_outputs@, k) == value_of_key(
                        old(self).subagent_outputs@,
                        k,
                    ));
                    assert(has_key(old(self).subagents@, k) == has_key(
                        old(self).subagent_outputs@,
                        k,
                    ));
                }
            }
        }
    }

    /// Removes a subagent's metadata and output buffer.
    pub fn unregister_subagent(&mut self, subagent_id: AgentId)
        requires
            old(self).wf(),
        ensures
            final(self).wf(),
            final(self).subagent(subagent_id) is None,
            final(self).output(subagent_id) is None,
            forall|k: AgentId| k != subagent_id ==> final(self).subagent(k) == old(self).subagent(k),
            forall|k: AgentId| k != subagent_id ==> final(self).output(k) == old(self).output(k),
            forall|k: AgentId| final(self).thread(k) == old(self).thread(k),
    {
        remove_key(&mut self.subagents, subagent_id);
        remove_key(&mut self.subagent_outputs, subagent_id);
        proof {
            assert forall|k: AgentId| #[trigger] has_key(self.subagents@, k) == has_key(
                self.subagent_outputs@,
                k,
            ) by {
                if k != subagent_id {
                    assert(value_of_key(self.subagents@, k) == value_of_key(old(self).subagents@, k));
                    assert(value_of_key(self.subagent_outputs@, k) == value_of_key(
                        old(self).subagent_outputs@,
                        k,
                    ));
                    assert(has_key(old(self).subagents@, k) == has_key(
                        old(self).subagent_outputs@,
                        k,
                    ));
                }
            }
        }
    }

    /// The metadata of one registered subagent.
    pub fn subagent_info(&self, subagent_id: AgentId) -> (r: Option<SubagentInfo>)
        requires
            self.wf(),
        ensures
            r == self.subagent(subagent_id),
    {
        match find_key(&self.subagents, subagent_id) {
            Some(i) => Some(self.subagents[i].1.clone()),
            None => None,
        }
    }

    /// Whether `subagent_id` is registered as a child of `parent_id`. An id
    /// that was never registered has no parent.
    pub fn is_subagent_of(&self, parent_id: AgentId, subagent_id: AgentId) -> (r: bool)
        requires
            self.wf(),
        ensures
            r == self.is_child(parent_id, subagent_id),
    {
        match find_key(&self.subagents, subagent_id) {
            Some(i) => self.subagents[i].1.parent_id == parent_id,
            None => false,
        }
    }

    /// All registered children of `parent_id`. A linear scan: the registry
    /// itself guarantees no ordering; callers impose one where they need it.
    pub fn subagents_for_parent(&self, parent_id: AgentId) -> (r: Vec<(AgentId, SubagentInfo)>)
        requires
            self.wf(),
        ensures
            keys_unique(r@),
            forall|m: int|
                0 <= m < r@.len() ==> self.is_child(parent_id, (#[trigger] r@[m]).0)
                    && self.subagent(r@[m].0) == Some(r@[m].1),
            forall|id: AgentId| #[trigger] self.is_child(parent_id, id) ==> has_key(r@, id),
    {
        let mut out: Vec<(AgentId, SubagentInfo)> = Vec::new();
        let n = self.subagents.len();
        let mut i: usize = 0;
        while i < n
            invariant
                0 <= i <= n,
                n == self.subagents@.len(),
                self.wf(),
                forall|m: int|
                    0 <= m < out@.len() ==> self.is_child(parent_id, (#[trigger] out@[m]).0)
                        && self.subagent(out@[m].0) == Some(out@[m].1),
                forall|m: int|
                    0 <= m < out@.len() ==> exists|j: int|
                        0 <= j < i && (#[trigger] out@[m]).0 == self.subagents@[j].0,
                keys_unique(out@),
                forall|j: int|
                    0 <= j < i && (#[trigger] self.subagents@[j]).1.parent_id == parent_id
                        ==> has_key(out@, self.subagents@[j].0),
            decreases n - i,
        {
            let ghost pre_out = out@;
            if self.subagents[i].1.parent_id == parent_id {
                let key = self.subagents[i].0;
                let info = self.subagents[i].1.clone();
                proof {
                    lemma_key_at(self.subagents@, i as int);
                    assert(!has_key(pre_out, key)) by {
                        if has_key(pre_out, key) {
                            let m = index_of_key(pre_out, key);
                            lemma_key_at(pre_out, m);
                            let j = choose|j: int|
                                0 <= j < i && (#[trigger] pre_out[m]).0 == self.subagents@[j].0;
                            assert(self.subagents@[j].0 == self.subagents@[i as int].0);
                        }
                    }
                }
                out.push((key, info));
                proof {
                    lemma_lookup_after_push(pre_out, key, out@.last().1, key);
                    assert forall|j: int|
                        0 <= j < i + 1 && (#[trigger] self.subagents@[j]).1.parent_id
                            == parent_id implies has_key(out@, self.subagents@[j].0) by {
                        if j < i {
                            assert(has_key(pre_out, self.subagents@[j].0));
                            let m = index_of_key(pre_out, self.subagents@[j].0);
                            lemma_key_at(pre_out, m);
                            assert(out@[m] == pre_out[m]);
                            assert(has_key(out@, self.subagents@[j].0));
                        } else {
                            assert(out@.last().0 == self.subagents@[j].0);
                            assert(has_key(out@, self.subagents@[j].0));
                        }
                    }
                    assert forall|m: int| 0 <= m < out@.len() implies exists|j: int|
                        0 <= j < i + 1 && (#[trigger] out@[m]).0 == self.subagents@[j].0 by {
                        if m < pre_out.len() {
                            assert(out@[m] == pre_out[m]);
                            let j0 = choose|j: int|
                                0 <= j < i && (#[trigger] pre_out[m]).0 == self.subagents@[j].0;
                            assert(0 <= j0 < i + 1 && out@[m].0 == self.subagents@[j0].0);
                        } else {
                            assert(out@[m].0 == self.subagents@[i as int].0);
                        }
                    }
                }
            }
            i += 1;
        }
        proof {
            assert forall|id: AgentId| #[trigger] self.is_child(parent_id, id) implies has_key(
                out@,
                id,
            ) by {
                assert(has_key(self.subagents@, id));
                let j = index_of_key(self.subagents@, id);
                lemma_key_at(self.subagents@, j);
            }
        }
        out
    }

    /// Appends streamed message text to `subagent_id`'s output buffer; a
    /// no-op when the id has no buffer (for instance, already removed).
    pub fn record_subagent_delta(&mut self, subagent_id: AgentId, delta: &str)
        requires
            old(self).wf(),
        ensures
            final(self).wf(),
            (match old(self).output(subagent_id) {
                Some(o) => final(self).output(subagent_id) matches Some(o2) && o2.partial_text()
                    == crate::output::last_of(
                    o.partial_text() + delta@,
                    crate::output::MAX_SUBAGENT_OUTPUT_CHARS as nat,
                ) && o2.reasoning_text() == o.reasoning_text() && o2.message() == o.message()
                    && o2.events() == o.events(),
                None => final(self).output(subagent_id) is None,
            }),
            forall|k: AgentId| k != subagent_id ==> final(self).output(k) == old(self).output(k),
            forall|k: AgentId| final(self).thread(k) == old(self).thread(k),
            forall|k: AgentId| final(self).subagent(k) == old(self).subagent(k),
    {
        match find_key(&self.subagent_outputs, subagent_id) {
            Some(i) => {
                let ghost pre = self.subagent_outputs@;
                let mut pair = self.subagent_outputs.remove(i);
                pair.1.push_delta(delta);
                self.subagent_outputs.insert(i, pair);
                proof {
                    assert(self.subagent_outputs@ =~= pre.update(
                        i as int,
                        (subagent_id, self.subagent_outputs@[i as int].1),
                    ));
                    self.lemma_output_updated(pre, i as int, subagent_id);
                }
            },
            None => {},
        }
    }

    /// Appends streamed reasoning text to `subagent_id`'s output buffer; a
    /// no-op when the id has no buffer.
    pub fn record_subagent_reasoning_delta(&mut self, subagent_id: AgentId, delta: &str)
        requires
            old(self).wf(),
        ensures
            final(self).wf(),
            (match old(self).output(subagent_id) {
                Some(o) => final(self).output(subagent_id) matches Some(o2) && o2.reasoning_text()
                    == crate::output::last_of(
                    o.reasoning_text() + delta@,
                    crate::output::MAX_SUBAGENT_REASONING_CHARS as nat,
                ) && o2.partial_text() == o.partial_text() && o2.message() == o.message()
                    && o2.events() == o.events(),
                None => final(self).output(subagent_id) is None,
            }),
            forall|k: AgentId| k != subagent_id ==> final(self).output(k) == old(self).output(k),
            forall|k: AgentId| final(self).thread(k) == old(self).thread(k),
            forall|k: AgentId| final(self).subagent(k) == old(self).subagent(k),
    {
        match find_key(&self.subagent_outputs, subagent_id) {
            Some(i) => {
                let ghost pre = self.subagent_outputs@;
                let mut pair = self.subagent_outputs.remove(i);
                pair.1.push_reasoning_delta(delta);
                self.subagent_outputs.insert(i, pair);
                proof {
                    assert(self.subagent_outputs@ =~= pre.update(
                        i as int,
                        (subagent_id, self.subagent_outputs@[i as int].1),
                    ));
                    self.lemma_output_updated(pre, i as int, subagent_id);
                }
            },
            None => {},
        }
    }

    /// Records the finalized message of `subagent_id`'s current turn; a no-op
    /// when the id has no buffer.
    pub fn record_subagent_message(&mut self, subagent_id: AgentId, message: &str)
        requires
            old(self).wf(),
        ensures
            final(self).wf(),
            (match old(self).output(subagent_id) {
                Some(o) => final(self).output(subagent_id) matches Some(o2) && o2.message()
                    == Some(message@) && o2.partial_text().len() == 0 && o2.reasoning_text()
                    == o.reasoning_text() && o2.events() == o.events(),
                None => final(self).output(subagent_id) is None,
            }),
            forall|k: AgentId| k != subagent_id ==> final(self).output(k) == old(self).output(k),
            forall|k: AgentId| final(self).thread(k) == old(self).thread(k),
            forall|k: AgentId| final(self).subagent(k) == old(self).subagent(k),
    {
        match find_key(&self.subagent_outputs, subagent_id) {
            Some(i) => {
                let ghost pre = self.subagent_outputs@;
                let mut pair = self.subagent_outputs.remove(i);
                pair.1.set_message(message);
                self.subagent_outputs.insert(i, pair);
                proof {
                    assert(self.subagent_outputs@ =~= pre.update(
                        i as int,
                        (subagent_id, self.subagent_outputs@[i as int].1),
                    ));
                    self.lemma_output_updated(pre, i as int, subagent_id);
                }
            },
            None => {},
        }
    }

    /// Appends one formatted tool event to `subagent_id`'s log; a no-op when
    /// the id has no buffer.
    pub fn record_subagent_tool_event(&mut self, subagent_id: AgentId, event: String)
        requires
            old(self).wf(),
        ensures
            final(self).wf(),
            (match old(self).output(subagent_id) {
                Some(o) => final(self).output(subagent_id) matches Some(o2) && o2.events()
                    == crate::output::last_of(
                    o.events().push(event@),
                    crate::output::MAX_SUBAGENT_TOOL_EVENTS as nat,
                ) && o2.partial_text() == o.partial_text() && o2.reasoning_text()
                    == o.reasoning_text() && o2.message() == o.message(),
                None => final(self).output(subagent_id) is None,
            }),
            forall|k: AgentId| k != subagent_id ==> final(self).output(k) == old(self).output(k),
            forall|k: AgentId| final(self).thread(k) == old(self).thread(k),
            forall|k: AgentId| final(self).subagent(k) == old(self).subagent(k),
    {
        match find_key(&self.subagent_outputs, subagent_id) {
            Some(i) => {
                let ghost pre = self.subagent_outputs@;
                let mut pair = self.subagent_outputs.remove(i);
                pair.1.push_tool_event(event);
                self.subagent_outputs.insert(i, pair);
                proof {
                    assert(self.subagent_outputs@ =~= pre.update(
                        i as int,
                        (subagent_id, self.subagent_outputs@[i as int].1),
                    ));
                    self.lemma_output_updated(pre, i as int, subagent_id);
                }
            },
            None => {},
        }
    }

    /// Clears `subagent_id`'s streamed buffers and event log for a new
    /// prompt; a no-op when the id has no buffer.
    pub fn reset_subagent_output(&mut self, subagent_id: AgentId)
        requires
            old(self).wf(),
        ensures
            final(self).wf(),
            (match old(self).output(subagent_id) {
                Some(o) => final(self).output(subagent_id) matches Some(o2) && o2.partial_text().len()
                    == 0 && o2.reasoning_text().len() == 0 && o2.events().len() == 0 && o2.message()
                    == o.message(),
                None => final(self).output(subagent_id) is None,
            }),
            forall|k: AgentId| k != subagent_id ==> final(self).output(k) == old(self).output(k),
            forall|k: AgentId| final(self).thread(k) == old(self).thread(k),
            forall|k: AgentId| final(self).subagent(k) == old(self).subagent(k),
    {
        match find_key(&self.subagent_outputs, subagent_id) {
            Some(i) => {
                let ghost pre = self.subagent_outputs@;
                let mut pair = self.subagent_outputs.remove(i);
                pair.1.reset_for_prompt();
                self.subagent_outputs.insert(i, pair);
                proof {
                    assert(self.subagent_outputs@ =~= pre.update(
                        i as int,
                        (subagent_id, self.subagent_outputs@[i as int].1),
                    ));
                    self.lemma_output_updated(pre, i as int, subagent_id);
                }
            },
            None => {},
        }
    }

    /// A point-in-time copy of a subagent's output, or nothing when the id
    /// has no buffer.
    pub fn subagent_output_snapshot(&self, subagent_id: AgentId, max_chars: Option<usize>) -> (r:
        Option<SubagentOutputSnapshot>)
        requires
            self.wf(),
        ensures
            (r is Some) == (self.output(subagent_id) is Some),
            r matches Some(snap) ==> snapshot_matches(snap, self.output(subagent_id).unwrap(), max_chars),
    {
        match find_key(&self.subagent_outputs, subagent_id) {
            Some(i) => Some(self.subagent_outputs[i].1.snapshot(max_chars)),
            None => None,
        }
    }

    /// After replacing the output-buffer entry at index `i` in place, every
    /// lookup but the buffer of the key at `i` is what it was, and the
    /// registry is still well-formed.
    proof fn lemma_output_updated(
        &self,
        pre: Seq<(AgentId, SubagentOutput)>,
        i: int,
        subagent_id: AgentId,
    )
        requires
            keys_unique(pre),
            0 <= i < pre.len(),
            pre[i].0 == subagent_id,
            self.subagent_outputs@ == pre.update(i, (subagent_id, self.subagent_outputs@[i].1)),
            keys_unique(self.threads@),
            keys_unique(self.subagents@),
            forall|id: AgentId| #[trigger] has_key(self.subagents@, id) == has_key(pre, id),
            forall|id: AgentId| #[trigger] has_key(self.threads@, id) ==> id.value < self.next_id,
        ensures
            self.wf(),
            value_of_key(self.subagent_outputs@, subagent_id) == Some(
                self.subagent_outputs@[i].1,
            ),
            forall|k: AgentId|
                k != subagent_id ==> value_of_key(self.subagent_outputs@, k) == value_of_key(
                    pre,
                    k,
                ),
    {
        lemma_lookup_after_update(pre, i, self.subagent_outputs@[i].1, subagent_id);
        assert forall|k: AgentId| k != subagent_id implies value_of_key(self.subagent_outputs@, k)
            == value_of_key(pre, k) by {
            lemma_lookup_after_update(pre, i, self.subagent_outputs@[i].1, k);
        }
        assert forall|id: AgentId| #[trigger] has_key(self.subagents@, id) == has_key(
            self.subagent_outputs@,
            id,
        ) by {
            if id != subagent_id {
                assert(value_of_key(self.subagent_outputs@, id) == value_of_key(pre, id));
            } else {
                assert(has_key(pre, subagent_id)) by {
                    lemma_key_at(pre, i);
                }
            }
        }
    }
}

/// Whether `event` drives a status transition to `s` — the relation that
/// `agent_status_from_event` decides.
pub open spec fn agent_status_from_event_gives(event: EventMsg, s: AgentStatus) -> bool {
    match event {
        EventMsg::TurnStarted => s == AgentStatus::Running,
        EventMsg::TurnComplete { last_agent_message } => s == AgentStatus::Completed(
            last_agent_message,
        ),
        EventMsg::Error { message } => s == AgentStatus::Errored(message),
        EventMsg::TurnAborted { reason } => s matches AgentStatus::Errored(m) && m@
            == reason.text_spec(),
        EventMsg::ShutdownComplete => s == AgentStatus::Shutdown,
        _ => false,
    }
}

/// Whether `event` carries no lifecycle information.
pub open spec fn no_status_from_event(event: EventMsg) -> bool {
    match event {
        EventMsg::TurnStarted => false,
        EventMsg::TurnComplete { .. } => false,
        EventMsg::Error { .. } => false,
        EventMsg::TurnAborted { .. } => false,
        EventMsg::ShutdownComplete => false,
        _ => true,
    }
}

} // verus!
