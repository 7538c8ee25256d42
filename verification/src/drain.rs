//! Folding a headless subagent's event stream into the registry.
//!
//! A subagent spawned with no client reading its events would accumulate them
//! without bound. A drain loop therefore pulls events for the subagent's
//! whole lifetime and discards each one only after folding its effect into
//! state: completed messages are recorded and posted to the parent's group
//! chat, streamed deltas extend the output buffers, tool lifecycle events
//! become formatted log lines, and a terminal shutdown deregisters the agent.
//! The loop itself performs the blocking reads; the per-event decision is
//! `handle_drain_event`.

use vstd::prelude::*;
use vstd::string::*;

use crate::ids::{i64_text, signed_decimal_digits, AgentId};
use crate::output::{last_of, MAX_SUBAGENT_OUTPUT_CHARS, MAX_SUBAGENT_REASONING_CHARS,
    MAX_SUBAGENT_TOOL_EVENTS};
use crate::protocol::{AgentMessageContent, EventMsg, GroupChatSender, Op, TurnItem};
use crate::registry::{ThreadEntry, ThreadRegistry};
use crate::text::{non_empty_trimmed, trim_spec};

verus! {

/// The trimmed message text, or nothing when it is blank.
pub fn normalize_subagent_message(message: &str) -> (r: Option<String>)
    ensures
        (r is Some) == (trim_spec(message@).len() > 0),
        r matches Some(t) ==> t@ == trim_spec(message@),
{
    match non_empty_trimmed(message) {
        Some(t) => Some(t.to_owned()),
        None => None,
    }
}

/// Text of one content piece of an agent message.
pub open spec fn content_text(c: AgentMessageContent) -> Seq<char> {
    match c {
        AgentMessageContent::Text { text } => text@,
    }
}

/// All content pieces joined in order.
pub open spec fn contents_text(cs: Seq<AgentMessageContent>) -> Seq<char>
    decreases cs.len(),
{
    if cs.len() == 0 {
        Seq::empty()
    } else {
        contents_text(cs.drop_last()) + content_text(cs.last())
    }
}

/// The normalized message a completed item carries, if any: the joined text
/// of an agent message, trimmed, when it is not blank.
pub open spec fn item_message(item: TurnItem) -> Option<Seq<char>> {
    match item {
        TurnItem::AgentMessage { content } => {
            let t = trim_spec(contents_text(content@));
            if t.len() > 0 {
                Some(t)
            } else {
                None
            }
        },
        TurnItem::Other => None,
    }
}

/// The normalized message of a completed item, built from its content pieces.
pub fn subagent_message_from_item(item: &TurnItem) -> (r: Option<String>)
    ensures
        (r is Some) == (item_message(*item) is Some),
        r matches Some(t) ==> Some(t@) == item_message(*item),
{
    match item {
        TurnItem::AgentMessage { content } => {
            let mut text = String::new();
            let mut i: usize = 0;
            while i < content.len()
                invariant
                    0 <= i <= content@.len(),
                    text@ == contents_text(content@.take(i as int)),
                decreases content@.len() - i,
            {
                match &content[i] {
                    AgentMessageContent::Text { text: chunk } => {
                        text.append(chunk.as_str());
                    },
                }
                proof {
                    assert(content@.take(i + 1).drop_last() =~= content@.take(i as int));
                    assert(content@.take(i + 1).last() == content@[i as int]);
                }
                i += 1;
            }
            proof {
                assert(content@.take(content@.len() as int) =~= content@);
            }
            normalize_subagent_message(text.as_str())
        },
        TurnItem::Other => None,
    }
}

/// Command words joined by single spaces.
pub open spec fn joined_spec(parts: Seq<Seq<char>>) -> Seq<char>
    decreases parts.len(),
{
    if parts.len() == 0 {
        Seq::empty()
    } else if parts.len() == 1 {
        parts[0]
    } else {
        joined_spec(parts.drop_last()) + seq![' '] + parts.last()
    }
}

fn join_spaces(parts: &Vec<String>) -> (r: String)
    ensures
        r@ == joined_spec(parts.deep_view()),
{
    let ghost dv = parts.deep_view();
    proof {
        assert(dv.len() == parts@.len());
    }
    let mut r = String::new();
    let mut i: usize = 0;
    while i < parts.len()
        invariant
            0 <= i <= parts@.len(),
            dv == parts.deep_view(),
            dv.len() == parts@.len(),
            forall|j: int| 0 <= j < dv.len() ==> dv[j] == (#[trigger] parts@[j])@,
            r@ == joined_spec(dv.take(i as int)),
        decreases parts@.len() - i,
    {
        if i > 0 {
            proof {
                reveal_strlit(" ");
            }
            r.append(" ");
        }
        r.append(parts[i].as_str());
        proof {
            assert(dv.take(i + 1).drop_last() =~= dv.take(i as int));
            assert(dv.take(i + 1).last() == dv[i as int]);
            if i > 0 {
                assert(" "@ =~= seq![' ']);
            }
        }
        i += 1;
    }
    proof {
        assert(dv.take(dv.len() as int) =~= dv);
    }
    r
}

/// The log line of a command that started.
pub open spec fn exec_begin_line(command: Seq<Seq<char>>) -> Seq<char> {
    "exec begin: "@ + joined_spec(command)
}

/// The log line of a command that finished, with its exit code.
pub open spec fn exec_end_line(command: Seq<Seq<char>>, exit_code: int) -> Seq<char> {
    "exec end: "@ + joined_spec(command) + " (exit "@ + signed_decimal_digits(exit_code) + ")"@
}

/// The log line of a tool call that started.
pub open spec fn tool_begin_line(server: Seq<char>, tool: Seq<char>, call_id: Seq<char>) -> Seq<
    char,
> {
    "tool begin: "@ + server + "/"@ + tool + " ("@ + call_id + ")"@
}

/// The log line of a tool call that finished, with its outcome.
pub open spec fn tool_end_line(
    server: Seq<char>,
    tool: Seq<char>,
    call_id: Seq<char>,
    success: bool,
) -> Seq<char> {
    "tool end: "@ + server + "/"@ + tool + " ("@ + call_id + ") "@ + (if success {
        "ok"@
    } else {
        "error"@
    })
}

/// The log line of a web search that started.
pub open spec fn web_search_begin_line(call_id: Seq<char>) -> Seq<char> {
    "web search begin: "@ + call_id
}

/// The log line of a web search that finished, with its query.
pub open spec fn web_search_end_line(call_id: Seq<char>, query: Seq<char>) -> Seq<char> {
    "web search end: "@ + call_id + " ("@ + query + ")"@
}

fn format_exec_begin(command: &Vec<String>) -> (r: String)
    ensures
        r@ == exec_begin_line(command.deep_view()),
{
    let mut r = String::from_str("exec begin: ");
    r.append(join_spaces(command).as_str());
    r
}

fn format_exec_end(command: &Vec<String>, exit_code: i64) -> (r: String)
    ensures
        r@ == exec_end_line(command.deep_view(), exit_code as int),
{
    let mut r = String::from_str("exec end: ");
    r.append(join_spaces(command).as_str());
    r.append(" (exit ");
    r.append(i64_text(exit_code).as_str());
    r.append(")");
    r
}

fn format_tool_begin(server: &str, tool: &str, call_id: &str) -> (r: String)
    ensures
        r@ == tool_begin_line(server@, tool@, call_id@),
{
    let mut r = String::from_str("tool begin: ");
    r.append(server);
    r.append("/");
    r.append(tool);
    r.append(" (");
    r.append(call_id);
    r.append(")");
    r
}

fn format_tool_end(server: &str, tool: &str, call_id: &str, success: bool) -> (r: String)
    ensures
        r@ == tool_end_line(server@, tool@, call_id@, success),
{
    let mut r = String::from_str("tool end: ");
    r.append(server);
    r.append("/");
    r.append(tool);
    r.append(" (");
    r.append(call_id);
    r.append(") ");
    if success {
        r.append("ok");
    } else {
        r.append("error");
    }
    r
}

fn format_web_search_begin(call_id: &str) -> (r: String)
    ensures
        r@ == web_search_begin_line(call_id@),
{
    let mut r = String::from_str("web search begin: ");
    r.append(call_id);
    r
}

fn format_web_search_end(call_id: &str, query: &str) -> (r: String)
    ensures
        r@ == web_search_end_line(call_id@, query@),
{
    let mut r = String::from_str("web search end: ");
    r.append(call_id);
    r.append(" (");
    r.append(query);
    r.append(")");
    r
}

/// Nothing observable about the registry changed.
pub open spec fn registry_unchanged(pre: ThreadRegistry, post: ThreadRegistry) -> bool {
    &&& forall|k: AgentId| post.thread(k) == pre.thread(k)
    &&& forall|k: AgentId| post.subagent(k) == pre.subagent(k)
    &&& forall|k: AgentId| post.output(k) == pre.output(k)
}

/// The thread entry took exactly one group-chat post of `text` sent by
/// `sender_id` under `persona`, and nothing else about it changed.
pub open spec fn group_chat_posted(
    pre: ThreadEntry,
    post: ThreadEntry,
    text: Seq<char>,
    sender_id: AgentId,
    persona: Option<String>,
) -> bool {
    &&& post.status == pre.status
    &&& post.inbox@.len() == pre.inbox@.len() + 1
    &&& post.inbox@.drop_last() == pre.inbox@
    &&& (post.inbox@.last() matches Op::GroupChatMessage { text: t, mentions, sender } && t@
        == text && mentions@ == Seq::<AgentId>::empty() && sender == GroupChatSender::SubAgent {
        id: sender_id,
        persona,
    })
}

/// `message` became `id`'s recorded last message (clearing the partial
/// buffer), and one group-chat post of it went to `id`'s parent — when `id`
/// is a registered subagent whose parent still has a thread; a missing
/// buffer, parent record, or parent thread drops the corresponding part.
pub open spec fn message_recorded_and_posted(
    pre: ThreadRegistry,
    post: ThreadRegistry,
    id: AgentId,
    message: Seq<char>,
) -> bool {
    &&& (match pre.output(id) {
        Some(o) => post.output(id) matches Some(o2) && o2.message() == Some(message)
            && o2.partial_text().len() == 0 && o2.reasoning_text() == o.reasoning_text()
            && o2.events() == o.events(),
        None => post.output(id) is None,
    })
    &&& forall|k: AgentId| k != id ==> post.output(k) == pre.output(k)
    &&& forall|k: AgentId| post.subagent(k) == pre.subagent(k)
    &&& (match pre.subagent(id) {
        Some(info) => {
            &&& (match pre.thread(info.parent_id) {
                Some(pt) => post.thread(info.parent_id) matches Some(t2) && group_chat_posted(
                    pt,
                    t2,
                    message,
                    id,
                    info.persona,
                ),
                None => post.thread(info.parent_id) is None,
            })
            &&& forall|k: AgentId|
                k != info.parent_id ==> post.thread(k) == pre.thread(k)
        },
        None => forall|k: AgentId| post.thread(k) == pre.thread(k),
    })
}

/// Records `message` as `agent_id`'s last message and forwards it to the
/// parent's group chat, tagged with the subagent's id and persona. A failure
/// to post (no parent thread) is absorbed: the drain loop has no caller to
/// report to.
pub fn record_and_post_subagent_message(
    reg: &mut ThreadRegistry,
    agent_id: AgentId,
    message: String,
)
    requires
        old(reg).wf(),
    ensures
        final(reg).wf(),
        message_recorded_and_posted(*old(reg), *final(reg), agent_id, message@),
{
    reg.record_subagent_message(agent_id, message.as_str());
    let info_opt = reg.subagent_info(agent_id);
    match info_opt {
        Some(info) => {
            let parent_id = info.parent_id;
            let sender = GroupChatSender::SubAgent { id: agent_id, persona: info.persona };
            let op = Op::GroupChatMessage { text: message, mentions: Vec::new(), sender };
            let ghost gop = op;
            let r = reg.send_op(parent_id, op);
            proof {
                if old(reg).thread(parent_id) is Some {
                    let pt = old(reg).thread(parent_id).unwrap();
                    let t2 = reg.thread(parent_id).unwrap();
                    assert(t2.inbox@ == pt.inbox@.push(gop));
                    assert(t2.inbox@.drop_last() =~= pt.inbox@);
                }
            }
        },
        None => {},
    }
}

/// What the drain loop carries forward after folding one event.
#[derive(Debug)]
pub struct DrainStep {
    /// Whether a completed message item has been seen this turn; once true,
    /// later finalized-message events are not posted again.
    pub saw_message_item_completed: bool,
    /// Whether the subagent is gone and the loop should end.
    pub stop: bool,
}

/// Folds one event from `agent_id`'s stream into the registry and says what
/// the drain loop carries forward. Event kinds the control plane has no
/// interest in are ignored by design, so new kinds default to a no-op.
pub fn handle_drain_event(
    reg: &mut ThreadRegistry,
    agent_id: AgentId,
    event: &EventMsg,
    saw_message_item_completed: bool,
) -> (r: DrainStep)
    requires
        old(reg).wf(),
    ensures
        final(reg).wf(),
        r.stop == (*event is ShutdownComplete),
        (match *event {
            EventMsg::ItemCompleted { item } => match item_message(item) {
                Some(msg) => r.saw_message_item_completed && message_recorded_and_posted(
                    *old(reg),
                    *final(reg),
                    agent_id,
                    msg,
                ),
                None => r.saw_message_item_completed == saw_message_item_completed
                    && registry_unchanged(*old(reg), *final(reg)),
            },
            EventMsg::AgentMessage { message } => {
                &&& r.saw_message_item_completed == saw_message_item_completed
                &&& (if !saw_message_item_completed && trim_spec(message@).len() > 0 {
                    message_recorded_and_posted(*old(reg), *final(reg), agent_id, trim_spec(
                        message@,
                    ))
                } else {
                    registry_unchanged(*old(reg), *final(reg))
                })
            },
            EventMsg::AgentMessageDelta { delta } => r.saw_message_item_completed
                == saw_message_item_completed && delta_recorded(
                *old(reg),
                *final(reg),
                agent_id,
                delta@,
            ),
            EventMsg::AgentMessageContentDelta { delta } => r.saw_message_item_completed
                == saw_message_item_completed && delta_recorded(
                *old(reg),
                *final(reg),
                agent_id,
                delta@,
            ),
            EventMsg::AgentReasoning { text } => r.saw_message_item_completed
                == saw_message_item_completed && reasoning_recorded(
                *old(reg),
                *final(reg),
                agent_id,
                text@,
            ),
            EventMsg::AgentReasoningDelta { delta } => r.saw_message_item_completed
                == saw_message_item_completed && reasoning_recorded(
                *old(reg),
                *final(reg),
                agent_id,
                delta@,
            ),
            EventMsg::AgentReasoningRawContent { text } => r.saw_message_item_completed
                == saw_message_item_completed && reasoning_recorded(
                *old(reg),
                *final(reg),
                agent_id,
                text@,
            ),
            EventMsg::AgentReasoningRawContentDelta { delta } => r.saw_message_item_completed
                == saw_message_item_completed && reasoning_recorded(
                *old(reg),
                *final(reg),
                agent_id,
                delta@,
            ),
            EventMsg::ReasoningContentDelta { delta } => r.saw_message_item_completed
                == saw_message_item_completed && reasoning_recorded(
                *old(reg),
                *final(reg),
                agent_id,
                delta@,
            ),
            EventMsg::ReasoningRawContentDelta { delta } => r.saw_message_item_completed
                == saw_message_item_completed && reasoning_recorded(
                *old(reg),
                *final(reg),
                agent_id,
                delta@,
            ),
            EventMsg::ExecCommandBegin { command } => r.saw_message_item_completed
                == saw_message_item_completed && tool_event_recorded(
                *old(reg),
                *final(reg),
                agent_id,
                exec_begin_line(command.deep_view()),
            ),
            EventMsg::ExecCommandEnd { command, exit_code } => r.saw_message_item_completed
                == saw_message_item_completed && tool_event_recorded(
                *old(reg),
                *final(reg),
                agent_id,
                exec_end_line(command.deep_view(), exit_code as int),
            ),
            EventMsg::McpToolCallBegin { server, tool, call_id } => r.saw_message_item_completed
                == saw_message_item_completed && tool_event_recorded(
                *old(reg),
                *final(reg),
                agent_id,
                tool_begin_line(server@, tool@, call_id@),
            ),
            EventMsg::McpToolCallEnd { server, tool, call_id, success } => r.saw_message_item_completed
                == saw_message_item_completed && tool_event_recorded(
                *old(reg),
                *final(reg),
                agent_id,
                tool_end_line(server@, tool@, call_id@, success),
            ),
            EventMsg::WebSearchBegin { call_id } => r.saw_message_item_completed
                == saw_message_item_completed && tool_event_recorded(
                *old(reg),
                *final(reg),
                agent_id,
                web_search_begin_line(call_id@),
            ),
            EventMsg::WebSearchEnd { call_id, query } => r.saw_message_item_completed
                == saw_message_item_completed && tool_event_recorded(
                *old(reg),
                *final(reg),
                agent_id,
                web_search_end_line(call_id@, query@),
            ),
            EventMsg::ShutdownComplete => r.saw_message_item_completed
                == saw_message_item_completed && agent_removed(*old(reg), *final(reg), agent_id),
            _ => r.saw_message_item_completed == saw_message_item_completed && registry_unchanged(
                *old(reg),
                *final(reg),
            ),
        }),
{
    let mut saw = saw_message_item_completed;
    let mut stop = false;
    match event {
        EventMsg::ItemCompleted { item } => {
            match subagent_message_from_item(item) {
                Some(message) => {
                    saw = true;
                    record_and_post_subagent_message(reg, agent_id, message);
                },
                None => {},
            }
        },
        EventMsg::AgentMessage { message } => {
            if !saw_message_item_completed {
                match normalize_subagent_message(message.as_str()) {
                    Some(normalized) => {
                        record_and_post_subagent_message(reg, agent_id, normalized);
                    },
                    None => {},
                }
            }
        },
        EventMsg::AgentMessageDelta { delta } => {
            reg.record_subagent_delta(agent_id, delta.as_str());
        },
        EventMsg::AgentMessageContentDelta { delta } => {
            reg.record_subagent_delta(agent_id, delta.as_str());
        },
        EventMsg::AgentReasoning { text } => {
            reg.record_subagent_reasoning_delta(agent_id, text.as_str());
        },
        EventMsg::AgentReasoningDelta { delta } => {
            reg.record_subagent_reasoning_delta(agent_id, delta.as_str());
        },
        EventMsg::AgentReasoningRawContent { text } => {
            reg.record_subagent_reasoning_delta(agent_id, text.as_str());
        },
        EventMsg::AgentReasoningRawContentDelta { delta } => {
            reg.record_subagent_reasoning_delta(agent_id, delta.as_str());
        },
        EventMsg::ReasoningContentDelta { delta } => {
            reg.record_subagent_reasoning_delta(agent_id, delta.as_str());
        },
        EventMsg::ReasoningRawContentDelta { delta } => {
            reg.record_subagent_reasoning_delta(agent_id, delta.as_str());
        },
        EventMsg::ExecCommandBegin { command } => {
            let line = format_exec_begin(command);
            reg.record_subagent_tool_event(agent_id, line);
        },
        EventMsg::ExecCommandEnd { command, exit_code } => {
            let line = format_exec_end(command, *exit_code);
            reg.record_subagent_tool_event(agent_id, line);
        },
        EventMsg::McpToolCallBegin { server, tool, call_id } => {
            let line = format_tool_begin(server.as_str(), tool.as_str(), call_id.as_str());
            reg.record_subagent_tool_event(agent_id, line);
        },
        EventMsg::McpToolCallEnd { server, tool, call_id, success } => {
            let line = format_tool_end(server.as_str(), tool.as_str(), call_id.as_str(), *success);
            reg.record_subagent_tool_event(agent_id, line);
        },
        EventMsg::WebSearchBegin { call_id } => {
            let line = format_web_search_begin(call_id.as_str());
            reg.record_subagent_tool_event(agent_id, line);
        },
        EventMsg::WebSearchEnd { call_id, query } => {
            let line = format_web_search_end(call_id.as_str(), query.as_str());
            reg.record_subagent_tool_event(agent_id, line);
        },
        EventMsg::ShutdownComplete => {
            reg.remove_thread(agent_id);
            stop = true;
        },
        _ => {},
    }
    DrainStep { saw_message_item_completed: saw, stop }
}

/// A streamed message delta reached `id`'s buffer (when it has one) and
/// nothing else changed.
pub open spec fn delta_recorded(
    pre: ThreadRegistry,
    post: ThreadRegistry,
    id: AgentId,
    delta: Seq<char>,
) -> bool {
    &&& (match pre.output(id) {
        Some(o) => post.output(id) matches Some(o2) && o2.partial_text() == last_of(
            o.partial_text() + delta,
            MAX_SUBAGENT_OUTPUT_CHARS as nat,
        ) && o2.reasoning_text() == o.reasoning_text() && o2.message() == o.message()
            && o2.events() == o.events(),
        None => post.output(id) is None,
    })
    &&& forall|k: AgentId| k != id ==> post.output(k) == pre.output(k)
    &&& forall|k: AgentId| post.thread(k) == pre.thread(k)
    &&& forall|k: AgentId| post.subagent(k) == pre.subagent(k)
}

/// A streamed reasoning delta reached `id`'s buffer (when it has one) and
/// nothing else changed.
pub open spec fn reasoning_recorded(
    pre: ThreadRegistry,
    post: ThreadRegistry,
    id: AgentId,
    delta: Seq<char>,
) -> bool {
    &&& (match pre.output(id) {
        Some(o) => post.output(id) matches Some(o2) && o2.reasoning_text() == last_of(
            o.reasoning_text() + delta,
            MAX_SUBAGENT_REASONING_CHARS as nat,
        ) && o2.partial_text() == o.partial_text() && o2.message() == o.message() && o2.events()
            == o.events(),
        None => post.output(id) is None,
    })
    &&& forall|k: AgentId| k != id ==> post.output(k) == pre.output(k)
    &&& forall|k: AgentId| post.thread(k) == pre.thread(k)
    &&& forall|k: AgentId| post.subagent(k) == pre.subagent(k)
}

/// A formatted tool-event line reached `id`'s log (when it has one) and
/// nothing else changed.
pub open spec fn tool_event_recorded(
    pre: ThreadRegistry,
    post: ThreadRegistry,
    id: AgentId,
    line: Seq<char>,
) -> bool {
    &&& (match pre.output(id) {
        Some(o) => post.output(id) matches Some(o2) && o2.events() == last_of(
            o.events().push(line),
            MAX_SUBAGENT_TOOL_EVENTS as nat,
        ) && o2.partial_text() == o.partial_text() && o2.reasoning_text() == o.reasoning_text()
            && o2.message() == o.message(),
        None => post.output(id) is None,
    })
    &&& forall|k: AgentId| k != id ==> post.output(k) == pre.output(k)
    &&& forall|k: AgentId| post.thread(k) == pre.thread(k)
    &&& forall|k: AgentId| post.subagent(k) == pre.subagent(k)
}

/// `id`'s thread, subagent record, and output buffer are all gone; everything
/// else is untouched.
pub open spec fn agent_removed(pre: ThreadRegistry, post: ThreadRegistry, id: AgentId) -> bool {
    &&& post.thread(id) is None
    &&& post.subagent(id) is None
    &&& post.output(id) is None
    &&& forall|k: AgentId| k != id ==> post.thread(k) == pre.thread(k)
    &&& forall|k: AgentId| k != id ==> post.subagent(k) == pre.subagent(k)
    &&& forall|k: AgentId| k != id ==> post.output(k) == pre.output(k)
}

} // verus!
