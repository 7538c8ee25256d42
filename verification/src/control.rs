//! The capability handle held by every running agent.
//!
//! An `AgentControl` lets a session spawn siblings, message them, and inspect
//! them — through the registry, which it does not own. The owning process may
//! tear the registry down while a detached task still holds a control handle;
//! every operation therefore resolves the registry first and fails cleanly
//! when it is gone. Here that non-owning link is the optional registry the
//! handle was given: a handle over `None` is one whose registry has been
//! dropped.

use vstd::prelude::*;
use vstd::string::*;

use crate::errors::ControlError;
use crate::ids::{decimal_digits, AgentId};
use crate::output::{snapshot_matches, SubagentOutputSnapshot};
use crate::protocol::{AgentStatus, Event, GroupChatSender, Op, INITIAL_SUBMIT_ID};
use crate::registry::{SubagentInfo, ThreadRegistry};
use crate::store::{has_key, index_of_key, keys_unique, lemma_key_at, lemma_lookup_after_push,
    lemma_remove_entry, value_of_key};
use crate::text::clone_opt_string;

verus! {

/// The error every operation fails with when the registry is gone.
pub open spec fn dropped_err(e: ControlError) -> bool {
    e matches ControlError::UnsupportedOperation(m) && m@ == "thread manager dropped"@
}

fn manager_dropped() -> (e: ControlError)
    ensures
        dropped_err(e),
{
    ControlError::UnsupportedOperation(String::from_str("thread manager dropped"))
}

/// One row of a subagent listing.
#[derive(Debug, PartialEq, Eq)]
pub struct SubagentSummary {
    pub id: AgentId,
    pub status: AgentStatus,
    pub persona: Option<String>,
}

/// What a successful spawn leaves behind: a fresh thread, pending
/// initialization, whose one queued operation is the prompt; a subagent
/// record under `parent_id` with the given persona and display name; an
/// output buffer with empty streams and event log; and nothing else touched.
pub open spec fn spawned_child(
    reg: ThreadRegistry,
    reg2: ThreadRegistry,
    parent_id: AgentId,
    prompt: String,
    persona: Option<String>,
    display_name: Option<String>,
    id: AgentId,
) -> bool {
    &&& reg.thread(id) is None
    &&& (reg2.thread(id) matches Some(t) && t.status == AgentStatus::PendingInit && t.inbox@.len()
        == 1 && (t.inbox@[0] matches Op::UserInput { text } && text == prompt))
    &&& (reg2.subagent(id) matches Some(info) && info.parent_id == parent_id && info.persona
        == persona && info.display_name == display_name)
    &&& reg2.is_child(parent_id, id)
    &&& (reg2.output(id) matches Some(o) && o.partial_text().len() == 0 && o.reasoning_text().len()
        == 0 && o.events().len() == 0 && o.message() == (match reg.output(id) {
        Some(o0) => o0.message(),
        None => None::<Seq<char>>,
    }))
    &&& forall|k: AgentId| k != id ==> reg2.thread(k) == reg.thread(k)
    &&& forall|k: AgentId| k != id ==> reg2.subagent(k) == reg.subagent(k)
    &&& forall|k: AgentId| k != id ==> reg2.output(k) == reg.output(k)
}

/// What a listing promises: strictly ascending id order, one accurate row per
/// child of `parent_id`, and a row for every child.
pub open spec fn listing_ok(
    reg: ThreadRegistry,
    parent_id: AgentId,
    out: Seq<SubagentSummary>,
) -> bool {
    &&& forall|a: int, b: int|
        0 <= a < b < out.len() ==> (#[trigger] out[a]).id.value < (#[trigger] out[b]).id.value
    &&& forall|m: int|
        0 <= m < out.len() ==> {
            let s = #[trigger] out[m];
            &&& reg.is_child(parent_id, s.id)
            &&& (reg.subagent(s.id) matches Some(info) && s.persona == info.persona)
            &&& s.status == (match reg.thread(s.id) {
                Some(t) => t.status,
                None => AgentStatus::NotFound,
            })
        }
    &&& forall|id: AgentId|
        #[trigger] reg.is_child(parent_id, id) ==> exists|m: int|
            0 <= m < out.len() && (#[trigger] out[m]).id == id
}

/// The keyed pairs of `v` in strictly ascending id order: the least remaining
/// key is moved over first. Lookups are untouched.
fn sort_pairs_by_id(v: Vec<(AgentId, SubagentInfo)>) -> (r: Vec<(AgentId, SubagentInfo)>)
    requires
        keys_unique(v@),
    ensures
        keys_unique(r@),
        r@.len() == v@.len(),
        forall|a: int, b: int|
            0 <= a < b < r@.len() ==> (#[trigger] r@[a]).0.value < (#[trigger] r@[b]).0.value,
        forall|k: AgentId| #[trigger] value_of_key(r@, k) == value_of_key(v@, k),
{
    let mut rest = v;
    let mut out: Vec<(AgentId, SubagentInfo)> = Vec::new();
    while rest.len() > 0
        invariant
            keys_unique(rest@),
            keys_unique(out@),
            out@.len() + rest@.len() == v@.len(),
            forall|a: int, b: int|
                0 <= a < b < out@.len() ==> (#[trigger] out@[a]).0.value < (
                #[trigger] out@[b]).0.value,
            forall|m: int, j: int|
                0 <= m < out@.len() && 0 <= j < rest@.len() ==> (#[trigger] out@[m]).0.value < (
                #[trigger] rest@[j]).0.value,
            forall|k: AgentId| !(#[trigger] has_key(out@, k) && has_key(rest@, k)),
            forall|k: AgentId|
                #[trigger] value_of_key(v@, k) == if has_key(out@, k) {
                    value_of_key(out@, k)
                } else {
                    value_of_key(rest@, k)
                },
        decreases rest@.len(),
    {
        let mut min_i: usize = 0;
        let mut j: usize = 1;
        while j < rest.len()
            invariant
                0 <= min_i < rest@.len(),
                min_i < j <= rest@.len(),
                rest@.len() > 0,
                forall|t: int|
                    0 <= t < j ==> rest@[min_i as int].0.value <= (#[trigger] rest@[t]).0.value,
            decreases rest@.len() - j,
        {
            if rest[j].0.value < rest[min_i].0.value {
                min_i = j;
            }
            j += 1;
        }
        let ghost pre_rest = rest@;
        let ghost pre_out = out@;
        let pair = rest.remove(min_i);
        proof {
            lemma_key_at(pre_rest, min_i as int);
            lemma_remove_entry(pre_rest, min_i as int);
            assert(!has_key(pre_out, pair.0)) by {
                assert(has_key(pre_rest, pair.0));
            }
        }
        out.push(pair);
        proof {
            let k0 = pair.0;
            lemma_lookup_after_push(pre_out, k0, out@.last().1, k0);
            assert forall|k: AgentId| k != k0 implies value_of_key(out@, k) == value_of_key(
                pre_out,
                k,
            ) by {
                lemma_lookup_after_push(pre_out, k0, out@.last().1, k);
            }
            assert forall|k: AgentId| k != k0 implies has_key(out@, k) == has_key(pre_out, k) by {
                assert(value_of_key(out@, k) == value_of_key(pre_out, k));
            }
            assert forall|m: int, j2: int|
                0 <= m < out@.len() && 0 <= j2 < rest@.len() implies (
            #[trigger] out@[m]).0.value < (#[trigger] rest@[j2]).0.value by {
                let j0 = if j2 < min_i as int {
                    j2
                } else {
                    j2 + 1
                };
                assert(rest@[j2] == pre_rest[j0]);
                if m < pre_out.len() {
                    assert(out@[m] == pre_out[m]);
                } else {
                    assert(out@[m] == (k0, out@.last().1));
                    assert(k0.value <= pre_rest[j0].0.value);
                    if j0 < min_i as int {
                        assert(pre_rest[j0].0 != pre_rest[min_i as int].0);
                    } else {
                        assert(pre_rest[min_i as int].0 != pre_rest[j0].0);
                    }
                }
            }
            assert forall|a: int, b: int| 0 <= a < b < out@.len() implies (
            #[trigger] out@[a]).0.value < (#[trigger] out@[b]).0.value by {
                if b < pre_out.len() {
                    assert(out@[a] == pre_out[a]);
                    assert(out@[b] == pre_out[b]);
                } else {
                    assert(out@[a] == pre_out[a]);
                    assert(pre_out[a].0.value < pre_rest[min_i as int].0.value);
                }
            }
            assert forall|k: AgentId| #[trigger] value_of_key(v@, k) == (if has_key(out@, k) {
                value_of_key(out@, k)
            } else {
                value_of_key(rest@, k)
            }) by {
                if k == k0 {
                    assert(value_of_key(pre_rest, k0) == Some(pair.1));
                    assert(!has_key(pre_out, k0));
                    assert(value_of_key(out@, k0) == Some(out@.last().1));
                } else {
                    assert(value_of_key(rest@, k) == value_of_key(pre_rest, k));
                }
            }
        }
    }
    proof {
        assert forall|k: AgentId| #[trigger] value_of_key(out@, k) == value_of_key(v@, k) by {
            if has_key(out@, k) {
            } else {
                assert(!has_key(rest@, k));
            }
        }
    }
    out
}

/// Control-plane handle for multi-agent operations.
pub struct AgentControl {
    manager: Option<ThreadRegistry>,
}

impl AgentControl {
    /// The registry this handle reaches, unless it has been dropped.
    pub closed spec fn registry(&self) -> Option<ThreadRegistry> {
        self.manager
    }

    pub open spec fn wf(&self) -> bool {
        match self.registry() {
            Some(reg) => reg.wf(),
            None => true,
        }
    }

    /// A handle over the given registry; `None` models a handle whose
    /// registry has already been torn down.
    pub fn new(manager: Option<ThreadRegistry>) -> (r: Self)
        ensures
            r.registry() == manager,
    {
        AgentControl { manager }
    }

    /// Accepts a newly spawned agent thread under `parent_id`, registers it
    /// as a subagent, and sends `prompt` as its first user input.
    ///
    /// The caller has already started the thread and read its first event,
    /// which the spawn protocol checks here. When `headless` is set, the
    /// caller is expected to run a drain loop for the new agent: nothing else
    /// will read its events.
    pub fn spawn_agent(
        &mut self,
        parent_id: AgentId,
        prompt: String,
        headless: bool,
        persona: Option<String>,
        display_name: Option<String>,
        first_event: Event,
    ) -> (r: Result<AgentId, ControlError>)
        requires
            old(self).wf(),
        ensures
            final(self).wf(),
            old(self).registry() is None ==> (r matches Err(e) && dropped_err(e) && final(self).registry() is None),
            old(self).registry() matches Some(reg) ==> final(self).registry() matches Some(reg2)
                && {
                &&& (r is Ok) == (first_event.id@ == INITIAL_SUBMIT_ID@ && first_event.msg
                    is SessionConfigured && reg.next_ids_left())
                &&& (r matches Ok(id) ==> id == reg.next_agent_id() && spawned_child(
                    reg,
                    reg2,
                    parent_id,
                    prompt,
                    persona,
                    display_name,
                    id,
                ))
                &&& (r matches Err(e) ==> {
                    &&& (!(first_event.id@ == INITIAL_SUBMIT_ID@ && first_event.msg
                        is SessionConfigured) ==> e == ControlError::SessionConfiguredNotFirstEvent)
                    &&& forall|k: AgentId| reg2.thread(k) == reg.thread(k)
                    &&& forall|k: AgentId| reg2.subagent(k) == reg.subagent(k)
                    &&& forall|k: AgentId| reg2.output(k) == reg.output(k)
                })
            },
    {
        let _ = headless;
        match &mut self.manager {
            Some(reg) => {
                let id = match reg.start_thread(first_event) {
                    Ok(id) => id,
                    Err(e) => {
                        return Err(e);
                    },
                };
                reg.register_subagent(parent_id, id, persona, display_name);
                reg.reset_subagent_output(id);
                let op = Op::UserInput { text: prompt };
                let sent = reg.send_op(id, op);
                proof {
                    assert(sent is Ok);
                    let t = reg.thread(id).unwrap();
                    assert(t.inbox@ =~= Seq::<Op>::empty().push(t.inbox@.last()));
                }
                Ok(id)
            },
            None => Err(manager_dropped()),
        }
    }

    /// Sends a user prompt to an existing agent thread for its next turn. The
    /// agent's output buffer is reset before the submission, so drain updates
    /// that follow at once are not clobbered by a stale reset; the reset
    /// stands even when the submission then fails.
    pub fn send_prompt(&mut self, agent_id: AgentId, prompt: String) -> (r: Result<
        String,
        ControlError,
    >)
        requires
            old(self).wf(),
        ensures
            final(self).wf(),
            old(self).registry() is None ==> (r matches Err(e) && dropped_err(e) && final(self).registry() is None),
            old(self).registry() matches Some(reg) ==> final(self).registry() matches Some(reg2)
                && {
                &&& (r is Ok) == reg.has_thread(agent_id)
                &&& (match reg.output(agent_id) {
                    Some(o) => reg2.output(agent_id) matches Some(o2) && o2.partial_text().len()
                        == 0 && o2.reasoning_text().len() == 0 && o2.events().len() == 0
                        && o2.message() == o.message(),
                    None => reg2.output(agent_id) is None,
                })
                &&& (r matches Ok(ack) ==> {
                    let entry = reg.thread(agent_id).unwrap();
                    &&& reg2.thread(agent_id) matches Some(t) && t.status == entry.status
                        && t.inbox@.len() == entry.inbox@.len() + 1 && t.inbox@.drop_last()
                        == entry.inbox@ && (t.inbox@.last() matches Op::UserInput { text } && text
                        == prompt)
                    &&& ack@ == decimal_digits(entry.inbox@.len() as nat)
                })
                &&& (r matches Err(e) ==> e == ControlError::ThreadNotFound(agent_id) && forall|
                    k: AgentId,
                |
                    reg2.thread(k) == reg.thread(k))
                &&& forall|k: AgentId| k != agent_id ==> reg2.thread(k) == reg.thread(k)
                &&& forall|k: AgentId| k != agent_id ==> reg2.output(k) == reg.output(k)
                &&& forall|k: AgentId| reg2.subagent(k) == reg.subagent(k)
            },
    {
        match &mut self.manager {
            Some(reg) => {
                reg.reset_subagent_output(agent_id);
                let op = Op::UserInput { text: prompt };
                let ghost gop = op;
                let r = reg.send_op(agent_id, op);
                proof {
                    if r is Ok {
                        let entry = old(self).registry().unwrap().thread(agent_id).unwrap();
                        let t = reg.thread(agent_id).unwrap();
                        assert(t.inbox@ == entry.inbox@.push(gop));
                        assert(t.inbox@.drop_last() =~= entry.inbox@);
                    }
                }
                r
            },
            None => Err(manager_dropped()),
        }
    }

    /// Submits a group-chat message to the parent's thread; delivery and
    /// ordering are the parent thread's own affair once it is received.
    pub fn post_group_chat_message(
        &mut self,
        parent_id: AgentId,
        text: String,
        sender: GroupChatSender,
    ) -> (r: Result<(), ControlError>)
        requires
            old(self).wf(),
        ensures
            final(self).wf(),
            old(self).registry() is None ==> (r matches Err(e) && dropped_err(e) && final(self).registry() is None),
            old(self).registry() matches Some(reg) ==> final(self).registry() matches Some(reg2)
                && {
                &&& (r is Ok) == reg.has_thread(parent_id)
                &&& (r is Ok ==> {
                    let entry = reg.thread(parent_id).unwrap();
                    &&& reg2.thread(parent_id) matches Some(t) && t.status == entry.status
                        && t.inbox@.len() == entry.inbox@.len() + 1 && t.inbox@.drop_last()
                        == entry.inbox@ && (t.inbox@.last() matches Op::GroupChatMessage {
                        text: mt,
                        mentions,
                        sender: ms,
                    } && mt == text && mentions@ == Seq::<AgentId>::empty() && ms == sender)
                })
                &&& (r matches Err(e) ==> e == ControlError::ThreadNotFound(parent_id) && forall|
                    k: AgentId,
                |
                    reg2.thread(k) == reg.thread(k))
                &&& forall|k: AgentId| k != parent_id ==> reg2.thread(k) == reg.thread(k)
                &&& forall|k: AgentId| reg2.subagent(k) == reg.subagent(k)
                &&& forall|k: AgentId| reg2.output(k) == reg.output(k)
            },
    {
        match &mut self.manager {
            Some(reg) => {
                let op = Op::GroupChatMessage { text, mentions: Vec::new(), sender };
                let ghost gop = op;
                let r = reg.send_op(parent_id, op);
                match r {
                    Ok(_) => {
                        proof {
                            let entry = old(self).registry().unwrap().thread(parent_id).unwrap();
                            let t = reg.thread(parent_id).unwrap();
                            assert(t.inbox@ == entry.inbox@.push(gop));
                            assert(t.inbox@.drop_last() =~= entry.inbox@);
                        }
                        Ok(())
                    },
                    Err(e) => Err(e),
                }
            },
            None => Err(manager_dropped()),
        }
    }

    /// Delivers a group-chat message to one mentioned agent's thread. A
    /// missing thread is absorbed: the message already stands in the
    /// sender's own log, and a vanished recipient is no failure of the send.
    pub fn deliver_group_chat_mention(
        &mut self,
        target: AgentId,
        text: String,
        sender: GroupChatSender,
    ) -> (r: Result<(), ControlError>)
        requires
            old(self).wf(),
        ensures
            final(self).wf(),
            old(self).registry() is None ==> (r matches Err(e) && dropped_err(e)
                && final(self).registry() is None),
            old(self).registry() matches Some(reg) ==> final(self).registry() matches Some(reg2)
                && {
                &&& r is Ok
                &&& (match reg.thread(target) {
                    Some(pt) => reg2.thread(target) matches Some(t2) && t2.status == pt.status
                        && t2.inbox@.len() == pt.inbox@.len() + 1 && t2.inbox@.drop_last()
                        == pt.inbox@ && (t2.inbox@.last() matches Op::GroupChatMessage {
                        text: mt,
                        mentions,
                        sender: ms,
                    } && mt == text && mentions@ == seq![target] && ms == sender),
                    None => reg2.thread(target) is None,
                })
                &&& forall|k: AgentId| k != target ==> reg2.thread(k) == reg.thread(k)
                &&& forall|k: AgentId| reg2.subagent(k) == reg.subagent(k)
                &&& forall|k: AgentId| reg2.output(k) == reg.output(k)
            },
    {
        match &mut self.manager {
            Some(reg) => {
                let mut mentions: Vec<AgentId> = Vec::new();
                mentions.push(target);
                let op = Op::GroupChatMessage { text, mentions, sender };
                let ghost gop = op;
                let sent = reg.send_op(target, op);
                proof {
                    if old(self).registry().unwrap().thread(target) is Some {
                        let pt = old(self).registry().unwrap().thread(target).unwrap();
                        let t2 = reg.thread(target).unwrap();
                        assert(t2.inbox@ == pt.inbox@.push(gop));
                        assert(t2.inbox@.drop_last() =~= pt.inbox@);
                        assert(gop matches Op::GroupChatMessage { mentions, .. } && mentions@
                            =~= seq![target]);
                    }
                }
                Ok(())
            },
            None => Err(manager_dropped()),
        }
    }

    /// The last known status of `agent_id`. A dropped registry, an unknown
    /// id, and a removed agent all read as `NotFound`, so callers can treat
    /// "gone" and "never existed" identically.
    pub fn get_status(&self, agent_id: AgentId) -> (r: AgentStatus)
        requires
            self.wf(),
        ensures
            (match self.registry() {
                Some(reg) => r == match reg.thread(agent_id) {
                    Some(t) => t.status,
                    None => AgentStatus::NotFound,
                },
                None => r == AgentStatus::NotFound,
            }),
    {
        match &self.manager {
            Some(reg) => match reg.thread_status(agent_id) {
                Some(status) => status,
                None => AgentStatus::NotFound,
            },
            None => AgentStatus::NotFound,
        }
    }

    /// All subagents of `parent_id`, each with its live status, in ascending
    /// id order: the registry's own scan order is unspecified, and the id's
    /// textual form is fixed-width, so this numeric order is exactly the
    /// lexicographic order of the ids' texts. A child whose thread has
    /// independently vanished lists as `NotFound`.
    pub fn list_subagents(&self, parent_id: AgentId) -> (r: Result<Vec<SubagentSummary>, ControlError>)
        requires
            self.wf(),
        ensures
            self.registry() is None ==> (r matches Err(e) && dropped_err(e)),
            self.registry() matches Some(reg) ==> r matches Ok(out) && listing_ok(
                reg,
                parent_id,
                out@,
            ),
    {
        match &self.manager {
            Some(reg) => {
                let subs = reg.subagents_for_parent(parent_id);
                let ghost gsubs = subs@;
                let sorted = sort_pairs_by_id(subs);
                let mut out: Vec<SubagentSummary> = Vec::new();
                let mut i: usize = 0;
                while i < sorted.len()
                    invariant
                        0 <= i <= sorted@.len(),
                        out@.len() == i,
                        self.wf(),
                        self.registry() matches Some(regi) && regi == reg,
                        reg.wf(),
                        forall|m: int|
                            0 <= m < i ==> (#[trigger] out@[m]).id == sorted@[m].0
                                && out@[m].persona == sorted@[m].1.persona && out@[m].status == (
                            match reg.thread(sorted@[m].0) {
                                Some(t) => t.status,
                                None => AgentStatus::NotFound,
                            }),
                    decreases sorted@.len() - i,
                {
                    let id = sorted[i].0;
                    let status = match reg.thread_status(id) {
                        Some(s) => s,
                        None => AgentStatus::NotFound,
                    };
                    let persona = clone_opt_string(&sorted[i].1.persona);
                    out.push(SubagentSummary { id, status, persona });
                    i += 1;
                }
                proof {
                    assert forall|m: int| 0 <= m < out@.len() implies {
                        let s = #[trigger] out@[m];
                        &&& reg.is_child(parent_id, s.id)
                        &&& reg.subagent(s.id) matches Some(info) && s.persona == info.persona
                    } by {
                        lemma_key_at(sorted@, m);
                        assert(value_of_key(sorted@, sorted@[m].0) == value_of_key(
                            gsubs,
                            sorted@[m].0,
                        ));
                        assert(has_key(gsubs, sorted@[m].0));
                        let j = index_of_key(gsubs, sorted@[m].0);
                        lemma_key_at(gsubs, j);
                        assert(reg.is_child(parent_id, gsubs[j].0));
                        assert(reg.subagent(gsubs[j].0) == Some(gsubs[j].1));
                        assert(gsubs[j].1 == sorted@[m].1);
                    }
                    assert forall|id: AgentId| #[trigger] reg.is_child(parent_id, id) implies exists|
                        m: int,
                    | 0 <= m < out@.len() && (#[trigger] out@[m]).id == id by {
                        assert(has_key(gsubs, id));
                        assert(value_of_key(sorted@, id) == value_of_key(gsubs, id));
                        assert(has_key(sorted@, id));
                        let m = index_of_key(sorted@, id);
                        lemma_key_at(sorted@, m);
                        assert(out@[m].id == id);
                    }
                }
                Ok(out)
            },
            None => Err(manager_dropped()),
        }
    }

    /// Whether `subagent_id` is registered as a child of `parent_id`.
    pub fn is_subagent_of(&self, parent_id: AgentId, subagent_id: AgentId) -> (r: Result<
        bool,
        ControlError,
    >)
        requires
            self.wf(),
        ensures
            self.registry() is None ==> (r matches Err(e) && dropped_err(e)),
            self.registry() matches Some(reg) ==> r == Ok::<bool, ControlError>(
                reg.is_child(parent_id, subagent_id),
            ),
    {
        match &self.manager {
            Some(reg) => Ok(reg.is_subagent_of(parent_id, subagent_id)),
            None => Err(manager_dropped()),
        }
    }

    /// The persona `subagent_id` was registered under, if any.
    pub fn subagent_persona(&self, subagent_id: AgentId) -> (r: Result<Option<String>, ControlError>)
        requires
            self.wf(),
        ensures
            self.registry() is None ==> (r matches Err(e) && dropped_err(e)),
            self.registry() matches Some(reg) ==> r == Ok::<Option<String>, ControlError>(
                match reg.subagent(subagent_id) {
                    Some(info) => info.persona,
                    None => None,
                },
            ),
    {
        match &self.manager {
            Some(reg) => match reg.subagent_info(subagent_id) {
                Some(info) => Ok(info.persona),
                None => Ok(None),
            },
            None => Err(manager_dropped()),
        }
    }

    /// A snapshot of a subagent's output, allowed only for a registered child
    /// of `parent_id`: any other id fails as "not found", whether it exists
    /// or not, so an agent can read only its own descendants.
    pub fn subagent_output(
        &self,
        parent_id: AgentId,
        subagent_id: AgentId,
        max_chars: Option<usize>,
    ) -> (r: Result<SubagentOutputSnapshot, ControlError>)
        requires
            self.wf(),
        ensures
            self.registry() is None ==> (r matches Err(e) && dropped_err(e)),
            self.registry() matches Some(reg) ==> {
                &&& (r is Ok) == (reg.is_child(parent_id, subagent_id) && reg.output(subagent_id)
                    is Some)
                &&& (r matches Ok(snap) ==> snapshot_matches(
                    snap,
                    reg.output(subagent_id).unwrap(),
                    max_chars,
                ))
                &&& (r matches Err(e) ==> e == ControlError::ThreadNotFound(subagent_id))
            },
    {
        match &self.manager {
            Some(reg) => {
                if !reg.is_subagent_of(parent_id, subagent_id) {
                    return Err(ControlError::ThreadNotFound(subagent_id));
                }
                match reg.subagent_output_snapshot(subagent_id, max_chars) {
                    Some(snap) => Ok(snap),
                    None => Err(ControlError::ThreadNotFound(subagent_id)),
                }
            },
            None => Err(manager_dropped()),
        }
    }

    /// Submits a cooperative shutdown request to `agent_id`'s thread.
    pub fn shutdown_agent(&mut self, agent_id: AgentId) -> (r: Result<(), ControlError>)
        requires
            old(self).wf(),
        ensures
            final(self).wf(),
            old(self).registry() is None ==> (r matches Err(e) && dropped_err(e) && final(self).registry() is None),
            old(self).registry() matches Some(reg) ==> final(self).registry() matches Some(reg2)
                && {
                &&& (r is Ok) == reg.has_thread(agent_id)
                &&& (r is Ok ==> {
                    let entry = reg.thread(agent_id).unwrap();
                    &&& reg2.thread(agent_id) matches Some(t) && t.status == entry.status
                        && t.inbox@.len() == entry.inbox@.len() + 1 && t.inbox@.drop_last()
                        == entry.inbox@ && t.inbox@.last() is Shutdown
                })
                &&& (r matches Err(e) ==> e == ControlError::ThreadNotFound(agent_id) && forall|
                    k: AgentId,
                |
                    reg2.thread(k) == reg.thread(k))
                &&& forall|k: AgentId| k != agent_id ==> reg2.thread(k) == reg.thread(k)
                &&& forall|k: AgentId| reg2.subagent(k) == reg.subagent(k)
                &&& forall|k: AgentId| reg2.output(k) == reg.output(k)
            },
    {
        match &mut self.manager {
            Some(reg) => {
                let r = reg.send_op(agent_id, Op::Shutdown);
                match r {
                    Ok(_) => {
                        proof {
                            let entry = old(self).registry().unwrap().thread(agent_id).unwrap();
                            let t = reg.thread(agent_id).unwrap();
                            assert(t.inbox@ == entry.inbox@.push(Op::Shutdown));
                            assert(t.inbox@.drop_last() =~= entry.inbox@);
                        }
                        Ok(())
                    },
                    Err(e) => Err(e),
                }
            },
            None => Err(manager_dropped()),
        }
    }

    /// Removes `agent_id` from the registry entirely: thread entry, subagent
    /// record, and output buffer. Removing an unknown id is not an error.
    pub fn forget_subagent(&mut self, agent_id: AgentId) -> (r: Result<(), ControlError>)
        requires
            old(self).wf(),
        ensures
            final(self).wf(),
            old(self).registry() is None ==> (r matches Err(e) && dropped_err(e) && final(self).registry() is None),
            old(self).registry() matches Some(reg) ==> final(self).registry() matches Some(reg2)
                && {
                &&& r is Ok
                &&& reg2.thread(agent_id) is None
                &&& reg2.subagent(agent_id) is None
                &&& reg2.output(agent_id) is None
                &&& forall|k: AgentId| k != agent_id ==> reg2.thread(k) == reg.thread(k)
                &&& forall|k: AgentId| k != agent_id ==> reg2.subagent(k) == reg.subagent(k)
                &&& forall|k: AgentId| k != agent_id ==> reg2.output(k) == reg.output(k)
            },
    {
        match &mut self.manager {
            Some(reg) => {
                let _ = reg.remove_thread(agent_id);
                Ok(())
            },
            None => Err(manager_dropped()),
        }
    }
}

impl AgentControl {
    /// Gives the registry back to its owner, consuming the handle.
    pub fn into_registry(self) -> (r: Option<ThreadRegistry>)
        ensures
            r == self.registry(),
    {
        self.manager
    }
}

impl Default for AgentControl {
    /// A handle with no registry behind it: every operation fails as dropped.
    fn default() -> (r: Self)
        ensures
            r.registry() is None,
    {
        AgentControl { manager: None }
    }
}

} // verus!
