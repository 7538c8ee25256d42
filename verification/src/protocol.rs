//! The modeled wire protocol between the control plane and its agent
//! threads: operations submitted to a thread, lifecycle and content events
//! read back from it, and the status an agent can be in.

use vstd::prelude::*;
use vstd::string::*;

use crate::ids::AgentId;
use crate::text::clone_opt_string;

verus! {

/// Submission id that the spawn protocol expects on the first event.
pub const INITIAL_SUBMIT_ID: &'static str = "0";

/// Who authored a group-chat message.
#[derive(Debug, PartialEq, Eq)]
pub enum GroupChatSender {
    /// The orchestrator itself.
    TeamLead,
    /// A subagent, tagged with its id and persona.
    SubAgent { id: AgentId, persona: Option<String> },
}

impl Clone for GroupChatSender {
    fn clone(&self) -> (r: Self)
        ensures
            r == *self,
    {
        match self {
            GroupChatSender::TeamLead => GroupChatSender::TeamLead,
            GroupChatSender::SubAgent { id, persona } => GroupChatSender::SubAgent {
                id: *id,
                persona: clone_opt_string(persona),
            },
        }
    }
}

/// An operation submitted to an agent thread.
#[derive(Debug, PartialEq, Eq)]
pub enum Op {
    /// A user prompt for the agent's next turn.
    UserInput { text: String },
    /// A message posted into the group chat that the agent hosts.
    GroupChatMessage { text: String, mentions: Vec<AgentId>, sender: GroupChatSender },
    /// A cooperative request to shut down.
    Shutdown,
}

/// Why a turn was aborted.
#[derive(Clone, Copy, Debug, PartialEq, Eq)]
pub enum TurnAbortReason {
    Interrupted,
    Replaced,
}

impl TurnAbortReason {
    pub open spec fn text_spec(&self) -> Seq<char> {
        match *self {
            TurnAbortReason::Interrupted => "Interrupted"@,
            TurnAbortReason::Replaced => "Replaced"@,
        }
    }

    pub fn text(&self) -> (r: String)
        ensures
            r@ == self.text_spec(),
    {
        match self {
            TurnAbortReason::Interrupted => String::from_str("Interrupted"),
            TurnAbortReason::Replaced => String::from_str("Replaced"),
        }
    }
}

/// One piece of a completed agent message.
#[derive(Debug, PartialEq, Eq)]
pub enum AgentMessageContent {
    Text { text: String },
}

/// A completed item of an agent's turn.
#[derive(Debug, PartialEq, Eq)]
pub enum TurnItem {
    /// A finished agent message, assembled from content pieces.
    AgentMessage { content: Vec<AgentMessageContent> },
    /// Any other item kind; the drain logic ignores these.
    Other,
}

/// A lifecycle or content event read from an agent thread.
#[derive(Debug, PartialEq, Eq)]
pub enum EventMsg {
    /// Acknowledgment that the newly spawned thread is configured.
    SessionConfigured,
    TurnStarted,
    TurnComplete { last_agent_message: Option<String> },
    Error { message: String },
    TurnAborted { reason: TurnAbortReason },
    ShutdownComplete,
    ItemCompleted { item: TurnItem },
    AgentMessage { message: String },
    AgentMessageDelta { delta: String },
    AgentMessageContentDelta { delta: String },
    AgentReasoning { text: String },
    AgentReasoningDelta { delta: String },
    AgentReasoningRawContent { text: String },
    AgentReasoningRawContentDelta { delta: String },
    ReasoningContentDelta { delta: String },
    ReasoningRawContentDelta { delta: String },
    ExecCommandBegin { command: Vec<String> },
    ExecCommandEnd { command: Vec<String>, exit_code: i64 },
    McpToolCallBegin { server: String, tool: String, call_id: String },
    McpToolCallEnd { server: String, tool: String, call_id: String, success: bool },
    WebSearchBegin { call_id: String },
    WebSearchEnd { call_id: String, query: String },
    /// Any event kind the control plane has no interest in.
    Other,
}

/// An event together with the id of the submission that caused it.
#[derive(Debug, PartialEq, Eq)]
pub struct Event {
    pub id: String,
    pub msg: EventMsg,
}

/// Lifecycle state of one agent thread.
#[derive(Debug, PartialEq, Eq)]
pub enum AgentStatus {
    PendingInit,
    Running,
    Completed(Option<String>),
    Errored(String),
    Shutdown,
    /// Synthetic: returned when a lookup fails, never stored.
    NotFound,
}

impl AgentStatus {
    /// Whether the agent may still leave this status by itself; the wait
    /// protocol keeps polling while this holds.
    pub open spec fn is_active(&self) -> bool {
        *self is PendingInit || *self is Running
    }
}

impl Clone for AgentStatus {
    fn clone(&self) -> (r: Self)
        ensures
            r == *self,
    {
        match self {
            AgentStatus::PendingInit => AgentStatus::PendingInit,
            AgentStatus::Running => AgentStatus::Running,
            AgentStatus::Completed(m) => AgentStatus::Completed(clone_opt_string(m)),
            AgentStatus::Errored(m) => AgentStatus::Errored(m.clone()),
            AgentStatus::Shutdown => AgentStatus::Shutdown,
            AgentStatus::NotFound => AgentStatus::NotFound,
        }
    }
}

/// The status transition an event drives, if any. Events that carry no
/// lifecycle information leave the status alone.
pub fn agent_status_from_event(event: &EventMsg) -> (r: Option<AgentStatus>)
    ensures
        (match *event {
            EventMsg::TurnStarted => r == Some(AgentStatus::Running),
            EventMsg::TurnComplete { last_agent_message } => r == Some(
                AgentStatus::Completed(last_agent_message),
            ),
            EventMsg::Error { message } => r == Some(AgentStatus::Errored(message)),
            EventMsg::TurnAborted { reason } => r matches Some(s) && s matches AgentStatus::Errored(
                m,
            ) && m@ == reason.text_spec(),
            EventMsg::ShutdownComplete => r == Some(AgentStatus::Shutdown),
            _ => r is None,
        }),
{
    match event {
        EventMsg::TurnStarted => Some(AgentStatus::Running),
        EventMsg::TurnComplete { last_agent_message } => Some(
            AgentStatus::Completed(clone_opt_string(last_agent_message)),
        ),
        EventMsg::Error { message } => Some(AgentStatus::Errored(message.clone())),
        EventMsg::TurnAborted { reason } => Some(AgentStatus::Errored(reason.text())),
        EventMsg::ShutdownComplete => Some(AgentStatus::Shutdown),
        _ => None,
    }
}

} // verus!
