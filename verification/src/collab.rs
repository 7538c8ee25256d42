//! The collaboration tool layer: the decisions behind the tool calls an
//! agent can issue against the control plane.
//!
//! Each call validates its arguments, enforces that a caller only reaches its
//! own subagents, and drives the control handle. Two calls need work that no
//! decision function can do — starting a real agent thread, and waiting while
//! one runs — so handling them yields a step for the caller to perform
//! outside, with a decision function for each poll and a finishing function
//! for afterwards.

use vstd::prelude::*;
use vstd::string::*;

use crate::control::{AgentControl, SubagentSummary};
use crate::errors::{ControlError, FunctionCallError};
use crate::ids::{id_digits, parse_agent_id, AgentId};
use crate::personas::{subagent_addition, with_subagent_instructions};
use crate::protocol::{AgentStatus, GroupChatSender};
use crate::session::SessionState;
use crate::spawn::{build_agent_spawn_config, Config, ToolPolicyOverrides, TurnContext};

verus! {

/// Timeout applied when a waiting call names none.
pub const DEFAULT_WAIT_TIMEOUT_MS: i64 = 30000;

/// Hard cap on the timeout of a waiting call.
pub const MAX_WAIT_TIMEOUT_MS: i64 = 300000;

/// How often the wait protocol polls an agent's status.
pub const WAIT_POLL_INTERVAL_MS: u64 = 200;

/// Arguments of a spawn request.
#[derive(Debug)]
pub struct SpawnAgentArgs {
    pub message: String,
    pub persona: Option<String>,
    pub tool_allowlist: Option<Vec<String>>,
    pub tool_denylist: Option<Vec<String>>,
    pub shell_command_allowlist: Option<Vec<String>>,
    pub shell_command_denylist: Option<Vec<String>>,
}

/// Arguments of a message to a running agent.
#[derive(Debug)]
pub struct SendInputArgs {
    pub id: String,
    pub message: String,
}

/// Arguments of a wait for an agent to finish.
#[derive(Debug)]
pub struct WaitArgs {
    pub id: String,
    pub timeout_ms: Option<i64>,
}

/// Arguments of a close request.
#[derive(Debug)]
pub struct CloseAgentArgs {
    pub id: String,
    pub timeout_ms: Option<i64>,
}

/// Arguments of an output fetch.
#[derive(Debug)]
pub struct AgentOutputArgs {
    pub id: String,
    pub max_chars: Option<usize>,
}

/// One parsed collaboration tool call.
#[derive(Debug)]
pub enum CollabToolCall {
    SpawnAgent(SpawnAgentArgs),
    SendInput(SendInputArgs),
    Wait(WaitArgs),
    CloseAgent(CloseAgentArgs),
    ListAgents,
    AgentOutput(AgentOutputArgs),
}

/// The kinds of tool a handler can serve.
#[derive(Clone, Copy, Debug, PartialEq, Eq, Structural)]
pub enum ToolKind {
    Function,
}

/// The payload a tool invocation carries.
#[derive(Debug)]
pub enum ToolPayload {
    Function(CollabToolCall),
    Other,
}

/// A subagent's accumulated output together with its live status.
#[derive(Debug, PartialEq, Eq)]
pub struct AgentOutputResponse {
    pub id: AgentId,
    pub status: AgentStatus,
    pub partial: Option<String>,
    pub last_message: Option<String>,
    pub reasoning: Option<String>,
    pub tool_events: Option<Vec<String>>,
}

/// What a finished call hands back; the boundary renders it for the model.
#[derive(Debug)]
pub enum ToolOutput {
    /// A plain acknowledgment or result line.
    Message { content: String, success: bool },
    /// The terminal status a waiting call observed.
    Status(AgentStatus),
    /// The caller's subagents, in id order.
    Agents(Vec<SubagentSummary>),
    /// One subagent's output and status.
    Output(AgentOutputResponse),
}

/// What handling one call decides: most calls finish at once; starting an
/// agent and waiting for one need outside work first.
#[derive(Debug)]
pub enum HandleStep {
    /// The call finished.
    Finished(ToolOutput),
    /// Start an agent thread with this configuration, then hand its first
    /// event, together with the prompt and persona here, to
    /// `complete_spawn_agent`.
    StartAgent { config: Config, prompt: String, persona: Option<String> },
    /// Poll the agent's status against `wait_decision` until it returns a
    /// result; when `forget_after` is set and a terminal status arrived,
    /// finish with `finish_close_agent`.
    AwaitAgent { agent_id: AgentId, timeout_ms: u64, forget_after: bool },
}

/// The fatal text reported when the registry behind the control handle is
/// gone.
pub open spec fn dropped_fatal_text() -> Seq<char> {
    "unsupported operation: "@ + "thread manager dropped"@
}

/// The "not found" text shown for an id the caller may not reach — the same
/// whether the id exists or not.
pub open spec fn not_found_text(id: AgentId) -> Seq<char> {
    "agent with id "@ + id_digits(id.value) + " not found"@
}

fn not_found_error(id: AgentId) -> (e: FunctionCallError)
    ensures
        e matches FunctionCallError::RespondToModel(m) && m@ == not_found_text(id),
{
    let mut s = String::from_str("agent with id ");
    s.append(id.text().as_str());
    s.append(" not found");
    FunctionCallError::RespondToModel(s)
}

/// Reads an agent id argument; anything but the exact textual form of an id
/// is rejected with a correctable error.
pub fn agent_id(id: &str) -> (r: Result<AgentId, FunctionCallError>)
    ensures
        (r is Ok) == (id@.len() == crate::ids::ID_TEXT_LEN as nat && crate::ids::all_digits(id@)
            && crate::ids::decimal_value(id@) <= u64::MAX as nat),
        r matches Ok(a) ==> a.value as nat == crate::ids::decimal_value(id@),
        r matches Err(e) ==> (e matches FunctionCallError::RespondToModel(m) && m@
            == "invalid agent id: "@ + id@),
{
    match parse_agent_id(id) {
        Some(a) => Ok(a),
        None => {
            let mut s = String::from_str("invalid agent id: ");
            s.append(id);
            Err(FunctionCallError::RespondToModel(s))
        },
    }
}

/// The timeout a waiting call runs with: its own, when positive, capped at
/// the hard maximum; the default when it names none; an error when it is not
/// positive.
pub fn resolve_timeout_ms(timeout_ms: Option<i64>) -> (r: Result<u64, FunctionCallError>)
    ensures
        ({
            let t: int = match timeout_ms {
                Some(t) => t as int,
                None => DEFAULT_WAIT_TIMEOUT_MS as int,
            };
            if t <= 0 {
                r matches Err(e) && (e matches FunctionCallError::RespondToModel(m) && m@
                    == "timeout_ms must be greater than zero"@)
            } else if t < MAX_WAIT_TIMEOUT_MS as int {
                r == Ok::<u64, FunctionCallError>(t as u64)
            } else {
                r == Ok::<u64, FunctionCallError>(MAX_WAIT_TIMEOUT_MS as u64)
            }
        }),
{
    let timeout_ms = match timeout_ms {
        Some(t) => t,
        None => DEFAULT_WAIT_TIMEOUT_MS,
    };
    if timeout_ms <= 0 {
        return Err(
            FunctionCallError::RespondToModel(
                String::from_str("timeout_ms must be greater than zero"),
            ),
        );
    }
    if timeout_ms < MAX_WAIT_TIMEOUT_MS {
        Ok(timeout_ms as u64)
    } else {
        Ok(MAX_WAIT_TIMEOUT_MS as u64)
    }
}

/// The rendered form of a status.
pub open spec fn status_text_spec(s: AgentStatus) -> Seq<char> {
    match s {
        AgentStatus::PendingInit => "pending_init"@,
        AgentStatus::Running => "running"@,
        AgentStatus::Completed(m) => match m {
            Some(t) => "completed: "@ + t@,
            None => "completed"@,
        },
        AgentStatus::Errored(t) => "errored: "@ + t@,
        AgentStatus::Shutdown => "shutdown"@,
        AgentStatus::NotFound => "not_found"@,
    }
}

/// The status line a waiting call reports.
pub fn status_payload(status: &AgentStatus) -> (r: String)
    ensures
        r@ == status_text_spec(*status),
{
    match status {
        AgentStatus::PendingInit => String::from_str("pending_init"),
        AgentStatus::Running => String::from_str("running"),
        AgentStatus::Completed(m) => match m {
            Some(t) => {
                let mut s = String::from_str("completed: ");
                s.append(t.as_str());
                s
            },
            None => String::from_str("completed"),
        },
        AgentStatus::Errored(t) => {
            let mut s = String::from_str("errored: ");
            s.append(t.as_str());
            s
        },
        AgentStatus::Shutdown => String::from_str("shutdown"),
        AgentStatus::NotFound => String::from_str("not_found"),
    }
}

/// The failure text of a wait that ran out of time.
pub open spec fn wait_timeout_text(s: AgentStatus) -> Seq<char> {
    "wait timed out; last status was "@ + status_text_spec(s)
}

/// One poll of the wait protocol.
#[derive(Debug)]
pub enum WaitStep {
    /// The status left the active set; the wait is over.
    Done(AgentStatus),
    /// The deadline passed with the agent still active; the wait failed,
    /// reporting the last observed status.
    TimedOut(FunctionCallError),
    /// Still active and within the deadline: sleep one poll interval and ask
    /// again.
    Poll,
}

/// What preparing a spawn promises: a blank message is rejected, a failed
/// configuration build is reported back, and otherwise the returned step
/// carries the prompt and persona as given together with a configuration
/// built from the turn — subagent instructions naming the caller merged into
/// it and the requested tool-policy overrides applied.
pub open spec fn spawn_prepared(
    turn: TurnContext,
    caller_id: AgentId,
    args: SpawnAgentArgs,
    r: Result<HandleStep, FunctionCallError>,
) -> bool {
    if crate::text::trim_spec(args.message@).len() == 0 {
        r matches Err(e) && (e matches FunctionCallError::RespondToModel(m) && m@
            == "Empty message can't be send to an agent"@)
    } else if turn.base_config.approval_policy.is_locked()
        || turn.base_config.sandbox_policy.is_locked() {
        r matches Err(e) && (e matches FunctionCallError::RespondToModel(m) && m@ == (
        if turn.base_config.approval_policy.is_locked() {
            "approval_policy is invalid: already set"@
        } else {
            "sandbox_policy is invalid: already set"@
        }))
    } else {
        r matches Ok(step) && (step matches HandleStep::StartAgent { config, prompt, persona }
            && {
            &&& prompt == args.message
            &&& persona == args.persona
            &&& config.model == Some(turn.model)
            &&& config.model_provider == turn.model_provider
            &&& config.base_instructions == turn.base_instructions
            &&& config.user_instructions == turn.user_instructions
            &&& config.cwd == turn.cwd
            &&& config.approval_policy.is_locked() && config.approval_policy.text()
                == turn.approval_policy@
            &&& config.sandbox_policy.is_locked() && config.sandbox_policy.text()
                == turn.sandbox_policy@
            &&& (match crate::personas::merged_spec(
                crate::text::opt_text(turn.developer_instructions),
                subagent_addition(crate::text::opt_text(args.persona), caller_id),
            ) {
                Some(t) => config.developer_instructions matches Some(s) && s@ == t,
                None => config.developer_instructions is None,
            })
            &&& crate::spawn::opt_texts(config.tool_policy.tool_allowlist) == (
            if args.tool_allowlist is Some {
                crate::spawn::opt_texts(args.tool_allowlist)
            } else {
                crate::spawn::opt_texts(turn.base_config.tool_policy.tool_allowlist)
            })
            &&& crate::spawn::opt_texts(config.tool_policy.tool_denylist) == (
            if args.tool_denylist is Some {
                crate::spawn::opt_texts(args.tool_denylist)
            } else {
                crate::spawn::opt_texts(turn.base_config.tool_policy.tool_denylist)
            })
            &&& crate::spawn::opt_texts(config.tool_policy.shell_command_allowlist) == (
            if args.shell_command_allowlist is Some {
                crate::spawn::opt_texts(args.shell_command_allowlist)
            } else {
                crate::spawn::opt_texts(turn.base_config.tool_policy.shell_command_allowlist)
            })
            &&& crate::spawn::opt_texts(config.tool_policy.shell_command_denylist) == (
            if args.shell_command_denylist is Some {
                crate::spawn::opt_texts(args.shell_command_denylist)
            } else {
                crate::spawn::opt_texts(turn.base_config.tool_policy.shell_command_denylist)
            })
        })
    }
}

/// Validates a spawn request and assembles the new agent's configuration.
/// The returned step tells the caller to start the thread and finish with
/// `complete_spawn_agent`.
pub fn handle_spawn_agent(turn: &TurnContext, caller_id: AgentId, args: SpawnAgentArgs) -> (r:
    Result<HandleStep, FunctionCallError>)
    ensures
        spawn_prepared(*turn, caller_id, args, r),
{
    let SpawnAgentArgs {
        message,
        persona,
        tool_allowlist,
        tool_denylist,
        shell_command_allowlist,
        shell_command_denylist,
    } = args;
    if crate::text::trim(message.as_str()).is_empty() {
        return Err(
            FunctionCallError::RespondToModel(
                String::from_str("Empty message can't be send to an agent"),
            ),
        );
    }
    let mut config = match build_agent_spawn_config(turn) {
        Ok(c) => c,
        Err(m) => {
            return Err(FunctionCallError::RespondToModel(m));
        },
    };
    let new_dev = with_subagent_instructions(
        match &config.developer_instructions {
            Some(s) => Some(s.as_str()),
            None => None,
        },
        match &persona {
            Some(s) => Some(s.as_str()),
            None => None,
        },
        caller_id,
    );
    config.developer_instructions = new_dev;
    config.tool_policy.apply_overrides(
        ToolPolicyOverrides {
            tool_allowlist,
            tool_denylist,
            shell_command_allowlist,
            shell_command_denylist,
        },
    );
    Ok(HandleStep::StartAgent { config, prompt: message, persona })
}

/// What completing a spawn promises: with the registry gone the call is
/// fatal; otherwise it succeeds exactly when the spawn protocol accepted the
/// first event, the new agent is registered and prompted, and the reply names
/// its id.
pub open spec fn spawn_completed(
    pre: AgentControl,
    post: AgentControl,
    caller_id: AgentId,
    prompt: String,
    persona: Option<String>,
    first_event: crate::protocol::Event,
    r: Result<HandleStep, FunctionCallError>,
) -> bool {
    &&& (pre.registry() is None ==> (r matches Err(e) && (
    e matches FunctionCallError::Fatal(m) && m@ == dropped_fatal_text())
        && post.registry() is None))
    &&& (pre.registry() matches Some(reg) ==> post.registry() matches Some(reg2) && {
        let accepted = first_event.id@ == crate::protocol::INITIAL_SUBMIT_ID@ && first_event.msg
            is SessionConfigured && reg.next_ids_left();
        &&& (r is Ok) == accepted
        &&& (r matches Ok(step) ==> (step matches HandleStep::Finished(out) && (
        out matches ToolOutput::Message { content, success } && success && content@ == "agent_id: "@
            + id_digits(reg.next_agent_id().value)) && crate::control::spawned_child(
            reg,
            reg2,
            caller_id,
            prompt,
            persona,
            None,
            reg.next_agent_id(),
        )))
        &&& (r matches Err(e) ==> {
            &&& e matches FunctionCallError::Fatal(_)
            &&& (!(first_event.id@ == crate::protocol::INITIAL_SUBMIT_ID@ && first_event.msg
                is SessionConfigured) ==> (e matches FunctionCallError::Fatal(m) && m@
                == crate::errors::control_err_text(ControlError::SessionConfiguredNotFirstEvent)))
            &&& forall|k: AgentId| reg2.thread(k) == reg.thread(k)
            &&& forall|k: AgentId| reg2.subagent(k) == reg.subagent(k)
            &&& forall|k: AgentId| reg2.output(k) == reg.output(k)
        })
    })
}

/// Finishes a spawn once the caller has started the thread and read its
/// first event: registers the agent under the caller, sends the prompt, and
/// replies with the new id. The caller is expected to run a drain loop for
/// the new agent.
pub fn complete_spawn_agent(
    control: &mut AgentControl,
    caller_id: AgentId,
    prompt: String,
    persona: Option<String>,
    first_event: crate::protocol::Event,
) -> (r: Result<HandleStep, FunctionCallError>)
    requires
        old(control).wf(),
    ensures
        final(control).wf(),
        spawn_completed(*old(control), *final(control), caller_id, prompt, persona, first_event, r),
{
    match control.spawn_agent(caller_id, prompt, true, persona, None, first_event) {
        Ok(id) => {
            let mut content = String::from_str("agent_id: ");
            content.append(id.text().as_str());
            Ok(HandleStep::Finished(ToolOutput::Message { content, success: true }))
        },
        Err(e) => Err(FunctionCallError::Fatal(e.message())),
    }
}

/// What sending input promises. A blank message and a malformed id are
/// rejected outright; a dropped registry is fatal. A subagent may write only
/// to its own parent, an orchestrator only to its own subagents, and either
/// violation reads as "not found". A subagent's message is posted into the
/// parent's group chat under the subagent's persona; an orchestrator's
/// message lands in its own chat log and is delivered to the mentioned
/// subagent's thread.
pub open spec fn send_input_post(
    pre_ctl: AgentControl,
    post_ctl: AgentControl,
    pre_sess: SessionState,
    post_sess: SessionState,
    caller_id: AgentId,
    caller_is_subagent: bool,
    args: SendInputArgs,
    r: Result<HandleStep, FunctionCallError>,
) -> bool {
    &&& (post_sess.history_items() == pre_sess.history_items() && post_sess.rate_limits()
        == pre_sess.rate_limits())
    &&& if crate::text::trim_spec(args.message@).len() == 0 {
        (r matches Err(e) && (e matches FunctionCallError::RespondToModel(m) && m@
            == "Empty message can't be send to an agent"@)) && control_unchanged(pre_ctl, post_ctl) && post_sess
            == pre_sess
    } else if !(args.id@.len() == crate::ids::ID_TEXT_LEN as nat && crate::ids::all_digits(args.id@)
        && crate::ids::decimal_value(args.id@) <= u64::MAX as nat) {
        (r matches Err(e) && (e matches FunctionCallError::RespondToModel(m) && m@
            == "invalid agent id: "@ + args.id@)) && control_unchanged(pre_ctl, post_ctl) && post_sess == pre_sess
    } else {
        let target = AgentId { value: crate::ids::decimal_value(args.id@) as u64 };
        match pre_ctl.registry() {
            None => (r matches Err(e) && (e matches FunctionCallError::Fatal(m) && m@ == dropped_fatal_text())) && control_unchanged(pre_ctl, post_ctl)
                && post_sess == pre_sess,
            Some(reg) => post_ctl.registry() matches Some(reg2) && {
                if caller_is_subagent {
                    if !reg.is_child(target, caller_id) {
                        (r matches Err(e) && (e matches FunctionCallError::RespondToModel(m) && m@
                            == not_found_text(target))) && control_unchanged(pre_ctl, post_ctl) && post_sess
                            == pre_sess
                    } else {
                        let persona = reg.subagent(caller_id).unwrap().persona;
                        match reg.thread(target) {
                            Some(pt) => {
                                &&& (r matches Ok(step) && (step matches HandleStep::Finished(out)
                                    && (out matches ToolOutput::Message { content, success }
                                    && success && content@ == "ok"@)))
                                &&& (reg2.thread(target) matches Some(t2)
                                    && crate::drain::group_chat_posted(
                                    pt,
                                    t2,
                                    args.message@,
                                    caller_id,
                                    persona,
                                ))
                                &&& forall|k: AgentId|
                                    k != target ==> reg2.thread(k) == reg.thread(k)
                                &&& forall|k: AgentId| reg2.subagent(k) == reg.subagent(k)
                                &&& forall|k: AgentId| reg2.output(k) == reg.output(k)
                                &&& post_sess == pre_sess
                            },
                            None => (r matches Err(e) && (e matches FunctionCallError::Fatal(m)
                                && m@ == crate::errors::control_err_text(
                                ControlError::ThreadNotFound(target),
                            ))) && control_unchanged(pre_ctl, post_ctl) && post_sess == pre_sess,
                        }
                    }
                } else {
                    if !reg.is_child(caller_id, target) {
                        (r matches Err(e) && (e matches FunctionCallError::RespondToModel(m) && m@
                            == not_found_text(target))) && control_unchanged(pre_ctl, post_ctl) && post_sess
                            == pre_sess
                    } else {
                        &&& (r matches Ok(step) && (step matches HandleStep::Finished(out) && (
                        out matches ToolOutput::Message { content, success } && success && content@
                            == "ok"@)))
                        &&& chat_took_message(
                            pre_sess.group_chat,
                            post_sess.group_chat,
                            crate::chat::GroupChatMessageEvent {
                                text: args.message,
                                sender: GroupChatSender::TeamLead,
                            },
                        )
                        &&& (match reg.thread(target) {
                            Some(pt) => reg2.thread(target) matches Some(t2)
                                && team_lead_delivered(pt, t2, args.message@, target),
                            None => reg2.thread(target) is None,
                        })
                        &&& forall|k: AgentId| k != target ==> reg2.thread(k) == reg.thread(k)
                        &&& forall|k: AgentId| reg2.subagent(k) == reg.subagent(k)
                        &&& forall|k: AgentId| reg2.output(k) == reg.output(k)
                    }
                }
            },
        }
    }
}

/// Whatever the handle could reach is untouched.
pub open spec fn control_unchanged(pre: AgentControl, post: AgentControl) -> bool {
    match pre.registry() {
        Some(reg) => post.registry() matches Some(reg2) && crate::drain::registry_unchanged(
            reg,
            reg2,
        ),
        None => post.registry() is None,
    }
}

/// The chat log took exactly one more entry, with the usual eviction and
/// cursor shift on overflow.
pub open spec fn chat_took_message(
    pre: crate::chat::GroupChatState,
    post: crate::chat::GroupChatState,
    entry: crate::chat::GroupChatMessageEvent,
) -> bool {
    let pushed = pre.entries_view().push(entry);
    let overflow: nat = if pushed.len() > crate::chat::MAX_GROUP_CHAT_MESSAGES as nat {
        (pushed.len() - crate::chat::MAX_GROUP_CHAT_MESSAGES) as nat
    } else {
        0
    };
    &&& post.entries_view() == pushed.skip(overflow as int)
    &&& forall|id: AgentId|
        #[trigger] post.cursor_of(id) == if pre.cursor_of(id) >= overflow {
            (pre.cursor_of(id) - overflow) as nat
        } else {
            0
        }
}

/// The mentioned subagent's thread took one team-lead chat message naming it.
pub open spec fn team_lead_delivered(
    pre: crate::registry::ThreadEntry,
    post: crate::registry::ThreadEntry,
    text: Seq<char>,
    target: AgentId,
) -> bool {
    &&& post.status == pre.status
    &&& post.inbox@.len() == pre.inbox@.len() + 1
    &&& post.inbox@.drop_last() == pre.inbox@
    &&& (post.inbox@.last() matches crate::protocol::Op::GroupChatMessage {
        text: t,
        mentions,
        sender,
    } && t@ == text && mentions@ == seq![target] && sender is TeamLead)
}

/// Sends a message to a running agent. A subagent writes to its parent's
/// group chat; an orchestrator delivers into its own chat log and to the
/// mentioned subagent's thread. Any id that is not the caller's own parent
/// or child reads as "not found".
pub fn handle_send_input(
    control: &mut AgentControl,
    session: &mut SessionState,
    caller_id: AgentId,
    caller_is_subagent: bool,
    args: SendInputArgs,
) -> (r: Result<HandleStep, FunctionCallError>)
    requires
        old(control).wf(),
        old(session).wf(),
    ensures
        final(control).wf(),
        final(session).wf(),
        send_input_post(
            *old(control),
            *final(control),
            *old(session),
            *final(session),
            caller_id,
            caller_is_subagent,
            args,
            r,
        ),
{
    let SendInputArgs { id, message } = args;
    if crate::text::trim(message.as_str()).is_empty() {
        return Err(
            FunctionCallError::RespondToModel(
                String::from_str("Empty message can't be send to an agent"),
            ),
        );
    }
    let target_id = match agent_id(id.as_str()) {
        Ok(t) => t,
        Err(e) => {
            return Err(e);
        },
    };
    if caller_is_subagent {
        let is_parent = match control.is_subagent_of(target_id, caller_id) {
            Ok(b) => b,
            Err(e) => {
                return Err(FunctionCallError::Fatal(e.message()));
            },
        };
        if !is_parent {
            return Err(not_found_error(target_id));
        }
        let persona = match control.subagent_persona(caller_id) {
            Ok(p) => p,
            Err(e) => {
                return Err(FunctionCallError::Fatal(e.message()));
            },
        };
        let sender = GroupChatSender::SubAgent { id: caller_id, persona };
        match control.post_group_chat_message(target_id, message, sender) {
            Ok(_) => {},
            Err(e) => {
                return Err(FunctionCallError::Fatal(e.message()));
            },
        }
        Ok(
            HandleStep::Finished(
                ToolOutput::Message { content: String::from_str("ok"), success: true },
            ),
        )
    } else {
        let is_child = match control.is_subagent_of(caller_id, target_id) {
            Ok(b) => b,
            Err(e) => {
                return Err(FunctionCallError::Fatal(e.message()));
            },
        };
        if !is_child {
            return Err(not_found_error(target_id));
        }
        let entry = crate::chat::GroupChatMessageEvent {
            text: message.clone(),
            sender: GroupChatSender::TeamLead,
        };
        session.group_chat.append(entry);
        match control.deliver_group_chat_mention(target_id, message, GroupChatSender::TeamLead) {
            Ok(_) => {},
            Err(e) => {
                return Err(FunctionCallError::Fatal(e.message()));
            },
        }
        Ok(
            HandleStep::Finished(
                ToolOutput::Message { content: String::from_str("ok"), success: true },
            ),
        )
    }
}

/// What a wait request promises: a malformed id is rejected; only a
/// registered child of the caller may be waited on, any other id reading as
/// "not found"; a non-positive timeout is rejected; otherwise the caller is
/// told to poll the agent until its status leaves the active set or the
/// resolved deadline passes.
pub open spec fn wait_prepared(
    pre: AgentControl,
    caller_id: AgentId,
    args: WaitArgs,
    r: Result<HandleStep, FunctionCallError>,
) -> bool {
    if !(args.id@.len() == crate::ids::ID_TEXT_LEN as nat && crate::ids::all_digits(args.id@)
        && crate::ids::decimal_value(args.id@) <= u64::MAX as nat) {
        r matches Err(e) && (e matches FunctionCallError::RespondToModel(m) && m@
            == "invalid agent id: "@ + args.id@)
    } else {
        let target = AgentId { value: crate::ids::decimal_value(args.id@) as u64 };
        match pre.registry() {
            None => r matches Err(e) && (e matches FunctionCallError::Fatal(m) && m@
                == dropped_fatal_text()),
            Some(reg) => {
                if !reg.is_child(caller_id, target) {
                    r matches Err(e) && (e matches FunctionCallError::RespondToModel(m) && m@
                        == not_found_text(target))
                } else {
                    let t: int = match args.timeout_ms {
                        Some(t) => t as int,
                        None => DEFAULT_WAIT_TIMEOUT_MS as int,
                    };
                    if t <= 0 {
                        r matches Err(e) && (e matches FunctionCallError::RespondToModel(m) && m@
                            == "timeout_ms must be greater than zero"@)
                    } else {
                        r matches Ok(step) && (step matches HandleStep::AwaitAgent {
                            agent_id,
                            timeout_ms,
                            forget_after,
                        } && agent_id == target && !forget_after && (
                        if t < MAX_WAIT_TIMEOUT_MS as int {
                            timeout_ms as int == t
                        } else {
                            timeout_ms == MAX_WAIT_TIMEOUT_MS as u64
                        }))
                    }
                }
            },
        }
    }
}

/// Validates a wait request: the waited-on agent must be the caller's own
/// child. The returned step tells the caller to run the wait protocol and
/// report the terminal status, or the timeout failure, as the call's result.
pub fn handle_wait(control: &AgentControl, caller_id: AgentId, args: WaitArgs) -> (r: Result<
    HandleStep,
    FunctionCallError,
>)
    requires
        control.wf(),
    ensures
        wait_prepared(*control, caller_id, args, r),
{
    let WaitArgs { id, timeout_ms } = args;
    let target = match agent_id(id.as_str()) {
        Ok(t) => t,
        Err(e) => {
            return Err(e);
        },
    };
    let is_child = match control.is_subagent_of(caller_id, target) {
        Ok(b) => b,
        Err(e) => {
            return Err(FunctionCallError::Fatal(e.message()));
        },
    };
    if !is_child {
        return Err(not_found_error(target));
    }
    let t = match resolve_timeout_ms(timeout_ms) {
        Ok(t) => t,
        Err(e) => {
            return Err(e);
        },
    };
    Ok(HandleStep::AwaitAgent { agent_id: target, timeout_ms: t, forget_after: false })
}

/// What beginning a close promises: only a registered child of the caller
/// can be closed; a shutdown request is queued on its thread, and the caller
/// is then told to wait for a terminal status and forget the agent.
/// An invalid timeout is caught only after the shutdown request went out.
pub open spec fn close_begun(
    pre: AgentControl,
    post: AgentControl,
    caller_id: AgentId,
    args: CloseAgentArgs,
    r: Result<HandleStep, FunctionCallError>,
) -> bool {
    if !(args.id@.len() == crate::ids::ID_TEXT_LEN as nat && crate::ids::all_digits(args.id@)
        && crate::ids::decimal_value(args.id@) <= u64::MAX as nat) {
        (r matches Err(e) && (e matches FunctionCallError::RespondToModel(m) && m@
            == "invalid agent id: "@ + args.id@)) && control_unchanged(pre, post)
    } else {
        let target = AgentId { value: crate::ids::decimal_value(args.id@) as u64 };
        match pre.registry() {
            None => (r matches Err(e) && (e matches FunctionCallError::Fatal(m) && m@
                == dropped_fatal_text())) && control_unchanged(pre, post),
            Some(reg) => post.registry() matches Some(reg2) && {
                if !reg.is_child(caller_id, target) {
                    (r matches Err(e) && (e matches FunctionCallError::RespondToModel(m) && m@
                        == not_found_text(target))) && crate::drain::registry_unchanged(reg, reg2)
                } else {
                    match reg.thread(target) {
                        None => (r matches Err(e) && (e matches FunctionCallError::Fatal(m) && m@
                            == crate::errors::control_err_text(ControlError::ThreadNotFound(target))))
                            && crate::drain::registry_unchanged(reg, reg2),
                        Some(pt) => {
                            &&& (reg2.thread(target) matches Some(t2) && t2.status == pt.status
                                && t2.inbox@.len() == pt.inbox@.len() + 1 && t2.inbox@.drop_last()
                                == pt.inbox@ && t2.inbox@.last() is Shutdown)
                            &&& forall|k: AgentId| k != target ==> reg2.thread(k) == reg.thread(k)
                            &&& forall|k: AgentId| reg2.subagent(k) == reg.subagent(k)
                            &&& forall|k: AgentId| reg2.output(k) == reg.output(k)
                            &&& ({
                                let t: int = match args.timeout_ms {
                                    Some(t) => t as int,
                                    None => DEFAULT_WAIT_TIMEOUT_MS as int,
                                };
                                if t <= 0 {
                                    r matches Err(e) && (
                                    e matches FunctionCallError::RespondToModel(m) && m@
                                        == "timeout_ms must be greater than zero"@)
                                } else {
                                    r matches Ok(step) && (step matches HandleStep::AwaitAgent {
                                        agent_id,
                                        timeout_ms,
                                        forget_after,
                                    } && agent_id == target && forget_after && (
                                    if t < MAX_WAIT_TIMEOUT_MS as int {
                                        timeout_ms as int == t
                                    } else {
                                        timeout_ms == MAX_WAIT_TIMEOUT_MS as u64
                                    }))
                                }
                            })
                        },
                    }
                }
            },
        }
    }
}

/// Begins closing a subagent: checks that it belongs to the caller, submits
/// a cooperative shutdown, and tells the caller to wait for a terminal
/// status; `finish_close_agent` then forgets the agent.
pub fn handle_close_agent(
    control: &mut AgentControl,
    caller_id: AgentId,
    args: CloseAgentArgs,
) -> (r: Result<HandleStep, FunctionCallError>)
    requires
        old(control).wf(),
    ensures
        final(control).wf(),
        close_begun(*old(control), *final(control), caller_id, args, r),
{
    let CloseAgentArgs { id, timeout_ms } = args;
    let target = match agent_id(id.as_str()) {
        Ok(t) => t,
        Err(e) => {
            return Err(e);
        },
    };
    let is_child = match control.is_subagent_of(caller_id, target) {
        Ok(b) => b,
        Err(e) => {
            return Err(FunctionCallError::Fatal(e.message()));
        },
    };
    if !is_child {
        return Err(not_found_error(target));
    }
    match control.shutdown_agent(target) {
        Ok(_) => {},
        Err(e) => {
            return Err(FunctionCallError::Fatal(e.message()));
        },
    }
    let t = match resolve_timeout_ms(timeout_ms) {
        Ok(t) => t,
        Err(e) => {
            return Err(e);
        },
    };
    Ok(HandleStep::AwaitAgent { agent_id: target, timeout_ms: t, forget_after: true })
}

/// What finishing a close promises: the agent is forgotten — thread,
/// subagent record, and output buffer all gone — and the terminal status the
/// wait observed is reported.
pub open spec fn close_finished(
    pre: AgentControl,
    post: AgentControl,
    agent_id: AgentId,
    status: AgentStatus,
    r: Result<HandleStep, FunctionCallError>,
) -> bool {
    match pre.registry() {
        None => (r matches Err(e) && (e matches FunctionCallError::Fatal(m) && m@
            == dropped_fatal_text())) && post.registry() is None,
        Some(reg) => post.registry() matches Some(reg2) && {
            &&& (r matches Ok(step) && (step matches HandleStep::Finished(out) && (
            out matches ToolOutput::Status(s) && s == status)))
            &&& reg2.thread(agent_id) is None
            &&& reg2.subagent(agent_id) is None
            &&& reg2.output(agent_id) is None
            &&& forall|k: AgentId| k != agent_id ==> reg2.thread(k) == reg.thread(k)
            &&& forall|k: AgentId| k != agent_id ==> reg2.subagent(k) == reg.subagent(k)
            &&& forall|k: AgentId| k != agent_id ==> reg2.output(k) == reg.output(k)
        },
    }
}

/// Finishes a close after the wait protocol delivered a terminal status:
/// forgets the agent and reports that status.
pub fn finish_close_agent(
    control: &mut AgentControl,
    agent_id: AgentId,
    status: AgentStatus,
) -> (r: Result<HandleStep, FunctionCallError>)
    requires
        old(control).wf(),
    ensures
        final(control).wf(),
        close_finished(*old(control), *final(control), agent_id, status, r),
{
    match control.forget_subagent(agent_id) {
        Ok(_) => Ok(HandleStep::Finished(ToolOutput::Status(status))),
        Err(e) => Err(FunctionCallError::Fatal(e.message())),
    }
}

/// What a listing promises: every registered child of the caller, with its
/// live status, in ascending id order.
pub open spec fn list_post(
    pre: AgentControl,
    caller_id: AgentId,
    r: Result<HandleStep, FunctionCallError>,
) -> bool {
    match pre.registry() {
        None => r matches Err(e) && (e matches FunctionCallError::Fatal(m) && m@
            == dropped_fatal_text()),
        Some(reg) => r matches Ok(step) && (step matches HandleStep::Finished(out) && (
        out matches ToolOutput::Agents(v) && crate::control::listing_ok(reg, caller_id, v@))),
    }
}

/// Lists the caller's subagents with their statuses.
pub fn handle_list_agents(control: &AgentControl, caller_id: AgentId) -> (r: Result<
    HandleStep,
    FunctionCallError,
>)
    requires
        control.wf(),
    ensures
        list_post(*control, caller_id, r),
{
    match control.list_subagents(caller_id) {
        Ok(v) => Ok(HandleStep::Finished(ToolOutput::Agents(v))),
        Err(e) => Err(FunctionCallError::Fatal(e.message())),
    }
}

/// What an output fetch promises: a malformed id and a zero limit are
/// rejected; an id that is not the caller's own child reads as "not found";
/// otherwise the reply carries the subagent's snapshot — cut to the limit —
/// and its live status.
pub open spec fn output_post(
    pre: AgentControl,
    caller_id: AgentId,
    args: AgentOutputArgs,
    r: Result<HandleStep, FunctionCallError>,
) -> bool {
    if !(args.id@.len() == crate::ids::ID_TEXT_LEN as nat && crate::ids::all_digits(args.id@)
        && crate::ids::decimal_value(args.id@) <= u64::MAX as nat) {
        r matches Err(e) && (e matches FunctionCallError::RespondToModel(m) && m@
            == "invalid agent id: "@ + args.id@)
    } else if args.max_chars == Some(0usize) {
        r matches Err(e) && (e matches FunctionCallError::RespondToModel(m) && m@
            == "max_chars must be greater than zero"@)
    } else {
        let target = AgentId { value: crate::ids::decimal_value(args.id@) as u64 };
        match pre.registry() {
            None => r matches Err(e) && (e matches FunctionCallError::Fatal(m) && m@
                == dropped_fatal_text()),
            Some(reg) => {
                if !(reg.is_child(caller_id, target) && reg.output(target) is Some) {
                    r matches Err(e) && (e matches FunctionCallError::RespondToModel(m) && m@
                        == not_found_text(target))
                } else {
                    let o = reg.output(target).unwrap();
                    r matches Ok(step) && (step matches HandleStep::Finished(tout) && (
                    tout matches ToolOutput::Output(resp) && {
                        &&& resp.id == target
                        &&& resp.status == (match reg.thread(target) {
                            Some(t) => t.status,
                            None => AgentStatus::NotFound,
                        })
                        &&& (resp.partial is Some) == (o.partial_text().len() > 0)
                        &&& (resp.partial matches Some(p) ==> p@ == (match args.max_chars {
                            Some(l) => crate::output::last_of(o.partial_text(), l as nat),
                            None => o.partial_text(),
                        }))
                        &&& (resp.reasoning is Some) == (o.reasoning_text().len() > 0)
                        &&& (resp.reasoning matches Some(t) ==> t@ == (match args.max_chars {
                            Some(l) => crate::output::last_of(o.reasoning_text(), l as nat),
                            None => o.reasoning_text(),
                        }))
                        &&& (resp.last_message is Some) == (o.message() is Some)
                        &&& (resp.last_message matches Some(m) ==> Some(m@) == o.message())
                        &&& (resp.tool_events is Some) == (o.events().len() > 0)
                        &&& (resp.tool_events matches Some(v) ==> v.deep_view() == o.events())
                    }))
                }
            },
        }
    }
}

/// Fetches one subagent's accumulated output and live status; only the
/// caller's own children can be read.
pub fn handle_agent_output(
    control: &AgentControl,
    caller_id: AgentId,
    args: AgentOutputArgs,
) -> (r: Result<HandleStep, FunctionCallError>)
    requires
        control.wf(),
    ensures
        output_post(*control, caller_id, args, r),
{
    let AgentOutputArgs { id, max_chars } = args;
    let target = match agent_id(id.as_str()) {
        Ok(t) => t,
        Err(e) => {
            return Err(e);
        },
    };
    match max_chars {
        Some(0) => {
            return Err(
                FunctionCallError::RespondToModel(
                    String::from_str("max_chars must be greater than zero"),
                ),
            );
        },
        _ => {},
    }
    let snap = match control.subagent_output(caller_id, target, max_chars) {
        Ok(s) => s,
        Err(e) => {
            return Err(
                match e {
                    ControlError::ThreadNotFound(_) => not_found_error(target),
                    other => FunctionCallError::Fatal(other.message()),
                },
            );
        },
    };
    let status = control.get_status(target);
    let tool_events = if snap.tool_events.len() == 0 {
        None
    } else {
        Some(snap.tool_events)
    };
    Ok(
        HandleStep::Finished(
            ToolOutput::Output(
                AgentOutputResponse {
                    id: target,
                    status,
                    partial: snap.partial,
                    last_message: snap.last_message,
                    reasoning: snap.reasoning,
                    tool_events,
                },
            ),
        ),
    )
}

/// The handler of the collaboration tools: translates an agent's tool calls
/// into control-plane operations.
pub struct CollabHandler;

impl CollabHandler {
    pub fn kind(&self) -> (r: ToolKind)
        ensures
            r == ToolKind::Function,
    {
        ToolKind::Function
    }

    /// Whether this handler serves the payload.
    pub fn matches_kind(&self, payload: &ToolPayload) -> (r: bool)
        ensures
            r == (*payload matches ToolPayload::Function(_)),
    {
        match payload {
            ToolPayload::Function(_) => true,
            _ => false,
        }
    }

    /// Dispatches one collaboration tool call to its handler. The caller
    /// performs any step the handler could not finish by itself.
    pub fn handle(
        &self,
        control: &mut AgentControl,
        session: &mut SessionState,
        turn: &TurnContext,
        caller_id: AgentId,
        caller_is_subagent: bool,
        call: CollabToolCall,
    ) -> (r: Result<HandleStep, FunctionCallError>)
        requires
            old(control).wf(),
            old(session).wf(),
        ensures
            final(control).wf(),
            final(session).wf(),
            (match call {
                CollabToolCall::SpawnAgent(args) => spawn_prepared(*turn, caller_id, args, r)
                    && control_unchanged(*old(control), *final(control)) && *final(session) == *old(
                    session,
                ),
                CollabToolCall::SendInput(args) => send_input_post(
                    *old(control),
                    *final(control),
                    *old(session),
                    *final(session),
                    caller_id,
                    caller_is_subagent,
                    args,
                    r,
                ),
                CollabToolCall::Wait(args) => wait_prepared(*old(control), caller_id, args, r)
                    && control_unchanged(
                    *old(control),
                    *final(control),
                ) && *final(session) == *old(session),
                CollabToolCall::CloseAgent(args) => close_begun(
                    *old(control),
                    *final(control),
                    caller_id,
                    args,
                    r,
                ) && *final(session) == *old(session),
                CollabToolCall::ListAgents => list_post(*old(control), caller_id, r)
                    && control_unchanged(*old(control), *final(control)) && *final(session) == *old(
                    session,
                ),
                CollabToolCall::AgentOutput(args) => output_post(*old(control), caller_id, args, r)
                    && control_unchanged(*old(control), *final(control)) && *final(session) == *old(
                    session,
                ),
            }),
    {
        match call {
            CollabToolCall::SpawnAgent(args) => handle_spawn_agent(turn, caller_id, args),
            CollabToolCall::SendInput(args) => handle_send_input(
                control,
                session,
                caller_id,
                caller_is_subagent,
                args,
            ),
            CollabToolCall::Wait(args) => handle_wait(control, caller_id, args),
            CollabToolCall::CloseAgent(args) => handle_close_agent(control, caller_id, args),
            CollabToolCall::ListAgents => handle_list_agents(control, caller_id),
            CollabToolCall::AgentOutput(args) => handle_agent_output(control, caller_id, args),
        }
    }
}

/// Decides one poll of the wait protocol from the observed status and the
/// clock. The caller loops: status, decision, sleep — until `Done` or
/// `TimedOut` comes back.
pub fn wait_decision(status: AgentStatus, now_ms: u64, deadline_ms: u64) -> (r: WaitStep)
    ensures
        !status.is_active() ==> (r matches WaitStep::Done(s) && s == status),
        status.is_active() && now_ms >= deadline_ms ==> (r matches WaitStep::TimedOut(e) && (
        e matches FunctionCallError::RespondToModel(m) && m@ == wait_timeout_text(status))),
        status.is_active() && now_ms < deadline_ms ==> r is Poll,
{
    let active = match &status {
        AgentStatus::PendingInit => true,
        AgentStatus::Running => true,
        _ => false,
    };
    if !active {
        return WaitStep::Done(status);
    }
    if now_ms >= deadline_ms {
        let mut s = String::from_str("wait timed out; last status was ");
        s.append(status_payload(&status).as_str());
        return WaitStep::TimedOut(FunctionCallError::RespondToModel(s));
    }
    WaitStep::Poll
}

} // verus!
