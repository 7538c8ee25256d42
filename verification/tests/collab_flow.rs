use agent_collab::chat::GroupChatMessageEvent;
use agent_collab::collab::{
    agent_id, handle_agent_output, handle_close_agent, handle_list_agents, handle_send_input,
    handle_spawn_agent, handle_wait, complete_spawn_agent, finish_close_agent, resolve_timeout_ms,
    status_payload, wait_decision, AgentOutputArgs, CloseAgentArgs, CollabHandler, CollabToolCall,
    HandleStep, SendInputArgs, SpawnAgentArgs, ToolKind, ToolOutput, ToolPayload, WaitArgs,
    WaitStep,
};
use agent_collab::control::AgentControl;
use agent_collab::drain::{handle_drain_event, normalize_subagent_message, subagent_message_from_item};
use agent_collab::errors::FunctionCallError;
use agent_collab::ids::{parse_agent_id, AgentId};
use agent_collab::protocol::{
    AgentMessageContent, AgentStatus, Event, EventMsg, GroupChatSender, Op, TurnItem,
};
use agent_collab::registry::ThreadRegistry;
use agent_collab::session::SessionState;
use agent_collab::spawn::{build_agent_spawn_config, Config, PolicySlot, ToolPolicy, TurnContext};

fn configured() -> Event {
    Event { id: "0".to_string(), msg: EventMsg::SessionConfigured }
}

fn base_config() -> Config {
    Config {
        model: None,
        model_provider: "provider".to_string(),
        model_reasoning_effort: None,
        model_reasoning_summary: None,
        developer_instructions: None,
        base_instructions: None,
        compact_prompt: None,
        user_instructions: None,
        shell_environment_policy: "inherit".to_string(),
        linux_sandbox_exe: None,
        cwd: "/work".to_string(),
        approval_policy: PolicySlot::open_slot("never".to_string()),
        sandbox_policy: PolicySlot::open_slot("workspace".to_string()),
        tool_policy: ToolPolicy {
            tool_allowlist: None,
            tool_denylist: None,
            shell_command_allowlist: None,
            shell_command_denylist: None,
        },
    }
}

fn turn_context() -> TurnContext {
    TurnContext {
        base_config: base_config(),
        model: "base-model".to_string(),
        model_provider: "provider".to_string(),
        model_reasoning_effort: None,
        model_reasoning_summary: None,
        developer_instructions: Some("follow the house rules".to_string()),
        base_instructions: None,
        compact_prompt: None,
        user_instructions: None,
        shell_environment_policy: "inherit".to_string(),
        linux_sandbox_exe: None,
        cwd: "/work".to_string(),
        approval_policy: "on-request".to_string(),
        sandbox_policy: "read-only".to_string(),
    }
}

/// Spawns an orchestrator and one headless subagent under it.
fn spawn_pair(persona: Option<&str>) -> (AgentControl, AgentId, AgentId) {
    let mut reg = ThreadRegistry::new();
    let orchestrator = reg.start_thread(configured()).expect("orchestrator spawn");
    let mut control = AgentControl::new(Some(reg));
    let child = control
        .spawn_agent(
            orchestrator,
            "build X".to_string(),
            true,
            persona.map(|p| p.to_string()),
            None,
            configured(),
        )
        .expect("subagent spawn");
    (control, orchestrator, child)
}

#[test]
fn headless_subagent_posts_final_message_to_parent_chat() {
    let (control, orchestrator, child) = spawn_pair(Some("Builder"));

    let before = control
        .subagent_output(orchestrator, child, None)
        .expect("output of own child");
    assert_eq!(before.partial, None);
    assert_eq!(before.last_message, None);

    let mut reg = control.into_registry().unwrap();
    let step = handle_drain_event(
        &mut reg,
        child,
        &EventMsg::AgentMessage { message: "done".to_string() },
        false,
    );
    assert!(!step.stop);

    let control = AgentControl::new(Some(reg));
    let after = control
        .subagent_output(orchestrator, child, None)
        .expect("output of own child");
    assert_eq!(after.last_message, Some("done".to_string()));
    assert_eq!(after.partial, None);

    let mut reg = control.into_registry().unwrap();
    let first = reg.take_op(orchestrator).expect("orchestrator got the post");
    match first {
        Op::GroupChatMessage { text, mentions, sender } => {
            assert_eq!(text, "done");
            assert!(mentions.is_empty());
            assert_eq!(
                sender,
                GroupChatSender::SubAgent { id: child, persona: Some("Builder".to_string()) }
            );
            let mut session = SessionState::new();
            session.group_chat.append(GroupChatMessageEvent { text, sender });
            let (_, unread) = session.group_chat.unread_messages(orchestrator);
            assert_eq!(unread.len(), 1);
            assert_eq!(unread[0].text, "done");
        },
        other => panic!("unexpected op: {other:?}"),
    }
}

#[test]
fn wait_times_out_reporting_running() {
    let (control, orchestrator, child) = spawn_pair(None);
    let step = handle_wait(
        &control,
        orchestrator,
        WaitArgs { id: child.text(), timeout_ms: Some(100) },
    )
    .expect("wait arguments are valid");
    let (agent, deadline) = match step {
        HandleStep::AwaitAgent { agent_id, timeout_ms, forget_after } => {
            assert!(!forget_after);
            (agent_id, timeout_ms)
        },
        _ => panic!("wait should await the agent"),
    };
    assert_eq!(agent, child);
    assert_eq!(deadline, 100);
    let stranger = AgentId { value: 424_242 };
    let err = handle_wait(
        &control,
        orchestrator,
        WaitArgs { id: stranger.text(), timeout_ms: Some(100) },
    )
    .expect_err("waiting on a stranger is rejected");
    assert!(matches!(err, FunctionCallError::RespondToModel(_)));

    assert!(matches!(
        wait_decision(AgentStatus::Running, 0, deadline),
        WaitStep::Poll
    ));
    match wait_decision(AgentStatus::Running, 200, deadline) {
        WaitStep::TimedOut(FunctionCallError::RespondToModel(m)) => {
            assert_eq!(m, "wait timed out; last status was running");
        },
        other => panic!("expected a timeout, got {other:?}"),
    }
    match wait_decision(AgentStatus::Shutdown, 200, deadline) {
        WaitStep::Done(status) => assert_eq!(status, AgentStatus::Shutdown),
        other => panic!("expected done, got {other:?}"),
    }
}

#[test]
fn agent_output_rejects_an_unrelated_id() {
    let (control, orchestrator, _child) = spawn_pair(None);
    let mut reg = control.into_registry().unwrap();
    let other_parent = reg.start_thread(configured()).unwrap();
    let mut control = AgentControl::new(Some(reg));
    let foreign = control
        .spawn_agent(other_parent, "quiet work".to_string(), true, None, None, configured())
        .unwrap();

    let err = handle_agent_output(
        &control,
        orchestrator,
        AgentOutputArgs { id: foreign.text(), max_chars: None },
    )
    .expect_err("a foreign subagent must read as not found");
    match err {
        FunctionCallError::RespondToModel(m) => {
            assert_eq!(m, format!("agent with id {} not found", foreign.text()));
        },
        other => panic!("expected a model-visible rejection, got {other:?}"),
    }

    let never = AgentId { value: 999_999 };
    let err2 = handle_agent_output(
        &control,
        orchestrator,
        AgentOutputArgs { id: never.text(), max_chars: None },
    )
    .expect_err("an unknown id must read as not found");
    assert!(matches!(err2, FunctionCallError::RespondToModel(_)));
}

#[test]
fn agent_output_returns_buffers_and_status() {
    let (control, orchestrator, child) = spawn_pair(None);
    let mut reg = control.into_registry().unwrap();
    reg.apply_event(child, &EventMsg::TurnStarted);
    handle_drain_event(
        &mut reg,
        child,
        &EventMsg::AgentMessageDelta { delta: "partial tex".to_string() },
        false,
    );
    let control = AgentControl::new(Some(reg));
    let step = handle_agent_output(
        &control,
        orchestrator,
        AgentOutputArgs { id: child.text(), max_chars: Some(3) },
    )
    .expect("own child output");
    match step {
        HandleStep::Finished(ToolOutput::Output(resp)) => {
            assert_eq!(resp.id, child);
            assert_eq!(resp.status, AgentStatus::Running);
            assert_eq!(resp.partial, Some("tex".to_string()));
            assert_eq!(resp.reasoning, None);
            assert_eq!(resp.tool_events, None);
        },
        other => panic!("expected an output reply, got {other:?}"),
    }
}

#[test]
fn agent_output_rejects_a_zero_limit() {
    let (control, orchestrator, child) = spawn_pair(None);
    let err = handle_agent_output(
        &control,
        orchestrator,
        AgentOutputArgs { id: child.text(), max_chars: Some(0) },
    )
    .expect_err("zero limit is rejected");
    match err {
        FunctionCallError::RespondToModel(m) => {
            assert_eq!(m, "max_chars must be greater than zero");
        },
        other => panic!("unexpected error {other:?}"),
    }
}

#[test]
fn drain_formats_tool_lifecycle_lines() {
    let (control, _orchestrator, child) = spawn_pair(None);
    let mut reg = control.into_registry().unwrap();
    let command = vec!["ls".to_string(), "-la".to_string()];
    handle_drain_event(&mut reg, child, &EventMsg::ExecCommandBegin { command: command.clone() }, false);
    handle_drain_event(
        &mut reg,
        child,
        &EventMsg::ExecCommandEnd { command, exit_code: -1 },
        false,
    );
    handle_drain_event(
        &mut reg,
        child,
        &EventMsg::McpToolCallBegin {
            server: "files".to_string(),
            tool: "read".to_string(),
            call_id: "c1".to_string(),
        },
        false,
    );
    handle_drain_event(
        &mut reg,
        child,
        &EventMsg::McpToolCallEnd {
            server: "files".to_string(),
            tool: "read".to_string(),
            call_id: "c1".to_string(),
            success: false,
        },
        false,
    );
    handle_drain_event(
        &mut reg,
        child,
        &EventMsg::WebSearchBegin { call_id: "w1".to_string() },
        false,
    );
    handle_drain_event(
        &mut reg,
        child,
        &EventMsg::WebSearchEnd { call_id: "w1".to_string(), query: "verus".to_string() },
        false,
    );
    let snap = reg.subagent_output_snapshot(child, None).unwrap();
    assert_eq!(
        snap.tool_events,
        vec![
            "exec begin: ls -la".to_string(),
            "exec end: ls -la (exit -1)".to_string(),
            "tool begin: files/read (c1)".to_string(),
            "tool end: files/read (c1) error".to_string(),
            "web search begin: w1".to_string(),
            "web search end: w1 (verus)".to_string(),
        ]
    );
}

#[test]
fn completed_item_takes_precedence_over_later_message_events() {
    let (control, orchestrator, child) = spawn_pair(None);
    let mut reg = control.into_registry().unwrap();
    let item = TurnItem::AgentMessage {
        content: vec![
            AgentMessageContent::Text { text: "first ".to_string() },
            AgentMessageContent::Text { text: "half".to_string() },
        ],
    };
    let step = handle_drain_event(&mut reg, child, &EventMsg::ItemCompleted { item }, false);
    assert!(step.saw_message_item_completed);
    // The later finalized-message event must not post again.
    let step2 = handle_drain_event(
        &mut reg,
        child,
        &EventMsg::AgentMessage { message: "duplicate".to_string() },
        step.saw_message_item_completed,
    );
    assert!(step2.saw_message_item_completed);
    let first = reg.take_op(orchestrator).expect("one post");
    match first {
        Op::GroupChatMessage { text, .. } => assert_eq!(text, "first half"),
        other => panic!("unexpected op {other:?}"),
    }
    assert!(reg.take_op(orchestrator).is_none());
    let snap = reg.subagent_output_snapshot(child, None).unwrap();
    assert_eq!(snap.last_message, Some("first half".to_string()));
}

#[test]
fn drain_shutdown_removes_the_agent() {
    let (control, _orchestrator, child) = spawn_pair(None);
    let mut reg = control.into_registry().unwrap();
    let step = handle_drain_event(&mut reg, child, &EventMsg::ShutdownComplete, false);
    assert!(step.stop);
    let control = AgentControl::new(Some(reg));
    assert_eq!(control.get_status(child), AgentStatus::NotFound);
}

#[test]
fn close_agent_shuts_down_waits_and_forgets() {
    let (mut control, orchestrator, child) = spawn_pair(None);
    let step = handle_close_agent(
        &mut control,
        orchestrator,
        CloseAgentArgs { id: child.text(), timeout_ms: Some(1000) },
    )
    .expect("closing an own child");
    let agent = match step {
        HandleStep::AwaitAgent { agent_id, timeout_ms, forget_after } => {
            assert!(forget_after);
            assert_eq!(timeout_ms, 1000);
            agent_id
        },
        _ => panic!("close should await the agent"),
    };
    // The shutdown request sits behind the prompt in the child's inbox.
    let mut reg = control.into_registry().unwrap();
    let prompt = reg.take_op(child).unwrap();
    assert!(matches!(prompt, Op::UserInput { .. }));
    let shutdown = reg.take_op(child).unwrap();
    assert!(matches!(shutdown, Op::Shutdown));
    // The thread acknowledges; the wait sees a terminal status.
    reg.apply_event(child, &EventMsg::ShutdownComplete);
    let mut control = AgentControl::new(Some(reg));
    let status = control.get_status(agent);
    let decided = match wait_decision(status, 0, 1000) {
        WaitStep::Done(s) => s,
        other => panic!("expected a terminal status, got {other:?}"),
    };
    let finished = finish_close_agent(&mut control, agent, decided).expect("forget succeeds");
    match finished {
        HandleStep::Finished(ToolOutput::Status(s)) => assert_eq!(s, AgentStatus::Shutdown),
        other => panic!("expected the terminal status, got {other:?}"),
    }
    assert_eq!(control.get_status(agent), AgentStatus::NotFound);
}

#[test]
fn close_agent_rejects_an_unrelated_id() {
    let (mut control, orchestrator, _child) = spawn_pair(None);
    let stranger = AgentId { value: 555 };
    let err = handle_close_agent(
        &mut control,
        orchestrator,
        CloseAgentArgs { id: stranger.text(), timeout_ms: None },
    )
    .expect_err("closing a stranger must fail");
    assert!(matches!(err, FunctionCallError::RespondToModel(_)));
}

#[test]
fn spawn_rejects_an_empty_message() {
    let err = handle_spawn_agent(
        &turn_context(),
        AgentId { value: 1 },
        SpawnAgentArgs {
            message: "   ".to_string(),
            persona: None,
            tool_allowlist: None,
            tool_denylist: None,
            shell_command_allowlist: None,
            shell_command_denylist: None,
        },
    )
    .expect_err("blank prompt is rejected");
    match err {
        FunctionCallError::RespondToModel(m) => {
            assert_eq!(m, "Empty message can't be send to an agent");
        },
        other => panic!("unexpected error {other:?}"),
    }
}

#[test]
fn spawn_builds_configuration_with_persona_and_overrides() {
    let caller = AgentId { value: 4 };
    let step = handle_spawn_agent(
        &turn_context(),
        caller,
        SpawnAgentArgs {
            message: "investigate".to_string(),
            persona: Some("Analyst".to_string()),
            tool_allowlist: Some(vec!["search".to_string()]),
            tool_denylist: None,
            shell_command_allowlist: None,
            shell_command_denylist: None,
        },
    )
    .expect("valid spawn request");
    match step {
        HandleStep::StartAgent { config, prompt, persona } => {
            assert_eq!(prompt, "investigate");
            assert_eq!(persona, Some("Analyst".to_string()));
            assert_eq!(config.model, Some("base-model".to_string()));
            let dev = config.developer_instructions.expect("instructions merged");
            assert!(dev.starts_with("follow the house rules\n\n"));
            assert!(dev.contains("Persona:\nAnalyst"));
            assert!(dev.contains(&format!("Orchestrator thread id: {}", caller.text())));
            assert_eq!(config.tool_policy.tool_allowlist, Some(vec!["search".to_string()]));
        },
        _ => panic!("spawn should hand back a start step"),
    }
}

#[test]
fn spawn_fails_when_a_policy_is_already_fixed() {
    let mut turn = turn_context();
    turn.base_config.approval_policy = PolicySlot::locked_slot("never".to_string());
    let err = build_agent_spawn_config(&turn).expect_err("locked slot must fail");
    assert_eq!(err, "approval_policy is invalid: already set");
}

#[test]
fn complete_spawn_reports_the_new_agent_id() {
    let mut reg = ThreadRegistry::new();
    let orchestrator = reg.start_thread(configured()).unwrap();
    let mut control = AgentControl::new(Some(reg));
    let step = complete_spawn_agent(
        &mut control,
        orchestrator,
        "go".to_string(),
        None,
        configured(),
    )
    .expect("spawn completes");
    match step {
        HandleStep::Finished(ToolOutput::Message { content, success }) => {
            assert!(success);
            assert!(content.starts_with("agent_id: "));
            let id = parse_agent_id(&content["agent_id: ".len()..]).expect("well-formed id");
            assert_eq!(control.is_subagent_of(orchestrator, id), Ok(true));
        },
        other => panic!("expected an id reply, got {other:?}"),
    }
}

#[test]
fn complete_spawn_fails_on_a_wrong_first_event() {
    let mut reg = ThreadRegistry::new();
    let orchestrator = reg.start_thread(configured()).unwrap();
    let mut control = AgentControl::new(Some(reg));
    let bad = Event { id: "0".to_string(), msg: EventMsg::TurnStarted };
    let err = complete_spawn_agent(&mut control, orchestrator, "go".to_string(), None, bad)
        .expect_err("protocol violation fails the spawn");
    match err {
        FunctionCallError::Fatal(m) => {
            assert_eq!(m, "expected SessionConfigured to be the first event");
        },
        other => panic!("expected a fatal error, got {other:?}"),
    }
}

#[test]
fn send_input_from_orchestrator_reaches_child_and_chat() {
    let (mut control, orchestrator, child) = spawn_pair(None);
    let mut session = SessionState::new();
    let step = handle_send_input(
        &mut control,
        &mut session,
        orchestrator,
        false,
        SendInputArgs { id: child.text(), message: "please hurry".to_string() },
    )
    .expect("own child accepts input");
    match step {
        HandleStep::Finished(ToolOutput::Message { content, success }) => {
            assert!(success);
            assert_eq!(content, "ok");
        },
        other => panic!("expected an acknowledgment, got {other:?}"),
    }
    let (_, unread) = session.group_chat.unread_messages(child);
    assert_eq!(unread.len(), 1);
    assert_eq!(unread[0].text, "please hurry");
    assert_eq!(unread[0].sender, GroupChatSender::TeamLead);
    let mut reg = control.into_registry().unwrap();
    let _prompt = reg.take_op(child).unwrap();
    let delivered = reg.take_op(child).unwrap();
    match delivered {
        Op::GroupChatMessage { text, mentions, sender } => {
            assert_eq!(text, "please hurry");
            assert_eq!(mentions, vec![child]);
            assert_eq!(sender, GroupChatSender::TeamLead);
        },
        other => panic!("unexpected op {other:?}"),
    }
}

#[test]
fn send_input_from_subagent_posts_to_parent_under_its_persona() {
    let (mut control, orchestrator, child) = spawn_pair(Some("Planner"));
    let mut session = SessionState::new();
    handle_send_input(
        &mut control,
        &mut session,
        child,
        true,
        SendInputArgs { id: orchestrator.text(), message: "plan ready".to_string() },
    )
    .expect("a subagent may write to its parent");
    let mut reg = control.into_registry().unwrap();
    let posted = reg.take_op(orchestrator).unwrap();
    match posted {
        Op::GroupChatMessage { text, mentions, sender } => {
            assert_eq!(text, "plan ready");
            assert!(mentions.is_empty());
            assert_eq!(
                sender,
                GroupChatSender::SubAgent { id: child, persona: Some("Planner".to_string()) }
            );
        },
        other => panic!("unexpected op {other:?}"),
    }
}

#[test]
fn send_input_rejects_strangers_and_blank_messages() {
    let (mut control, orchestrator, child) = spawn_pair(None);
    let mut session = SessionState::new();
    let err = handle_send_input(
        &mut control,
        &mut session,
        orchestrator,
        false,
        SendInputArgs { id: AgentId { value: 77 }.text(), message: "hi".to_string() },
    )
    .expect_err("a stranger reads as not found");
    assert!(matches!(err, FunctionCallError::RespondToModel(_)));
    let err2 = handle_send_input(
        &mut control,
        &mut session,
        orchestrator,
        false,
        SendInputArgs { id: child.text(), message: "  ".to_string() },
    )
    .expect_err("a blank message is rejected");
    match err2 {
        FunctionCallError::RespondToModel(m) => {
            assert_eq!(m, "Empty message can't be send to an agent");
        },
        other => panic!("unexpected error {other:?}"),
    }
    // A subagent may not write to an agent that is not its parent.
    let err3 = handle_send_input(
        &mut control,
        &mut session,
        child,
        true,
        SendInputArgs { id: child.text(), message: "hello me".to_string() },
    )
    .expect_err("only the parent can be addressed");
    assert!(matches!(err3, FunctionCallError::RespondToModel(_)));
}

#[test]
fn list_agents_orders_children_by_id_text() {
    let (control, orchestrator, first) = spawn_pair(Some("Planner"));
    let mut control = control;
    let second = control
        .spawn_agent(
            orchestrator,
            "task two".to_string(),
            true,
            Some("Builder".to_string()),
            None,
            configured(),
        )
        .unwrap();
    let mut reg = control.into_registry().unwrap();
    reg.apply_event(first, &EventMsg::TurnStarted);
    let control = AgentControl::new(Some(reg));
    let step = handle_list_agents(&control, orchestrator).expect("listing succeeds");
    match step {
        HandleStep::Finished(ToolOutput::Agents(rows)) => {
            assert_eq!(rows.len(), 2);
            assert_eq!(rows[0].id, first);
            assert_eq!(rows[1].id, second);
            assert!(rows[0].id.text() < rows[1].id.text());
            assert_eq!(rows[0].status, AgentStatus::Running);
            assert_eq!(rows[0].persona, Some("Planner".to_string()));
            assert_eq!(rows[1].status, AgentStatus::PendingInit);
            assert_eq!(rows[1].persona, Some("Builder".to_string()));
        },
        other => panic!("expected the listing, got {other:?}"),
    }
}

#[test]
fn collab_handler_dispatches_by_call() {
    let (mut control, orchestrator, child) = spawn_pair(None);
    let mut session = SessionState::new();
    let handler = CollabHandler;
    let turn = turn_context();
    let listed = handler
        .handle(
            &mut control,
            &mut session,
            &turn,
            orchestrator,
            false,
            CollabToolCall::ListAgents,
        )
        .expect("list dispatch");
    assert!(matches!(listed, HandleStep::Finished(ToolOutput::Agents(_))));
    let waited = handler
        .handle(
            &mut control,
            &mut session,
            &turn,
            orchestrator,
            false,
            CollabToolCall::Wait(WaitArgs { id: child.text(), timeout_ms: None }),
        )
        .expect("wait dispatch");
    match waited {
        HandleStep::AwaitAgent { agent_id, timeout_ms, forget_after } => {
            assert_eq!(agent_id, child);
            assert_eq!(timeout_ms, 30000);
            assert!(!forget_after);
        },
        other => panic!("expected an await step, got {other:?}"),
    }
}

#[test]
fn timeouts_are_validated_and_capped() {
    assert_eq!(resolve_timeout_ms(None), Ok(30000));
    assert_eq!(resolve_timeout_ms(Some(120)), Ok(120));
    assert_eq!(resolve_timeout_ms(Some(999_999)), Ok(300_000));
    let err = resolve_timeout_ms(Some(0)).expect_err("zero is rejected");
    match err {
        FunctionCallError::RespondToModel(m) => {
            assert_eq!(m, "timeout_ms must be greater than zero");
        },
        other => panic!("unexpected error {other:?}"),
    }
    assert!(resolve_timeout_ms(Some(-5)).is_err());
}

#[test]
fn agent_ids_render_and_parse_round_trip() {
    let id = AgentId { value: 3_141_592_653 };
    let text = id.text();
    assert_eq!(text.len(), 20);
    assert_eq!(text, "00000000003141592653");
    assert_eq!(parse_agent_id(&text), Some(id));
    assert_eq!(agent_id(&text).ok(), Some(id));
    assert!(parse_agent_id("314").is_none());
    assert!(parse_agent_id("99999999999999999999").is_none());
    let err = agent_id("not-an-id-at-all-no").expect_err("malformed id");
    assert!(matches!(err, FunctionCallError::RespondToModel(_)));
}

#[test]
fn acknowledgment_tokens_count_queued_operations() {
    let (mut control, _orchestrator, child) = spawn_pair(None);
    let ack = control
        .send_prompt(child, "second prompt".to_string())
        .expect("child accepts prompts");
    assert_eq!(ack, "1");
    let ack2 = control.send_prompt(child, "third".to_string()).unwrap();
    assert_eq!(ack2, "2");
}

#[test]
fn send_prompt_resets_the_output_buffer_first() {
    let (control, orchestrator, child) = spawn_pair(None);
    let mut reg = control.into_registry().unwrap();
    handle_drain_event(
        &mut reg,
        child,
        &EventMsg::AgentMessageDelta { delta: "stale".to_string() },
        false,
    );
    let mut control = AgentControl::new(Some(reg));
    control.send_prompt(child, "new turn".to_string()).unwrap();
    let snap = control.subagent_output(orchestrator, child, None).unwrap();
    assert_eq!(snap.partial, None);
}

#[test]
fn normalized_messages_drop_blank_text() {
    assert_eq!(normalize_subagent_message("  done \n"), Some("done".to_string()));
    assert_eq!(normalize_subagent_message(" \n\t "), None);
    let item = TurnItem::AgentMessage {
        content: vec![AgentMessageContent::Text { text: "   ".to_string() }],
    };
    assert_eq!(subagent_message_from_item(&item), None);
    assert_eq!(subagent_message_from_item(&TurnItem::Other), None);
}

#[test]
fn status_payload_names_each_state() {
    assert_eq!(status_payload(&AgentStatus::PendingInit), "pending_init");
    assert_eq!(status_payload(&AgentStatus::Running), "running");
    assert_eq!(status_payload(&AgentStatus::Completed(None)), "completed");
    assert_eq!(
        status_payload(&AgentStatus::Completed(Some("fin".to_string()))),
        "completed: fin"
    );
    assert_eq!(status_payload(&AgentStatus::Errored("boom".to_string())), "errored: boom");
    assert_eq!(status_payload(&AgentStatus::Shutdown), "shutdown");
    assert_eq!(status_payload(&AgentStatus::NotFound), "not_found");
}

#[test]
fn collab_handler_serves_function_payloads() {
    let handler = CollabHandler;
    assert_eq!(handler.kind(), ToolKind::Function);
    let call = CollabToolCall::ListAgents;
    assert!(handler.matches_kind(&ToolPayload::Function(call)));
    assert!(!handler.matches_kind(&ToolPayload::Other));
}

#[test]
fn drain_accumulates_reasoning_deltas() {
    let (control, orchestrator, child) = spawn_pair(None);
    let mut reg = control.into_registry().unwrap();
    handle_drain_event(
        &mut reg,
        child,
        &EventMsg::AgentReasoning { text: "first thought. ".to_string() },
        false,
    );
    handle_drain_event(
        &mut reg,
        child,
        &EventMsg::AgentReasoningDelta { delta: "second thought.".to_string() },
        false,
    );
    let control = AgentControl::new(Some(reg));
    let snap = control.subagent_output(orchestrator, child, None).unwrap();
    assert_eq!(snap.reasoning, Some("first thought. second thought.".to_string()));
}

#[test]
fn subagent_persona_is_looked_up_through_the_control() {
    let (control, _orchestrator, child) = spawn_pair(Some("Planner"));
    assert_eq!(control.subagent_persona(child), Ok(Some("Planner".to_string())));
    assert_eq!(control.subagent_persona(AgentId { value: 12345 }), Ok(None));
}

#[test]
fn collab_handler_prepares_a_spawn_end_to_end() {
    let mut reg = ThreadRegistry::new();
    let orchestrator = reg.start_thread(configured()).unwrap();
    let mut control = AgentControl::new(Some(reg));
    let mut session = SessionState::new();
    let handler = CollabHandler;
    let turn = turn_context();
    let step = handler
        .handle(
            &mut control,
            &mut session,
            &turn,
            orchestrator,
            false,
            CollabToolCall::SpawnAgent(SpawnAgentArgs {
                message: "dig in".to_string(),
                persona: None,
                tool_allowlist: None,
                tool_denylist: None,
                shell_command_allowlist: None,
                shell_command_denylist: None,
            }),
        )
        .expect("spawn preparation succeeds");
    let (prompt, persona) = match step {
        HandleStep::StartAgent { prompt, persona, .. } => (prompt, persona),
        other => panic!("expected a start step, got {other:?}"),
    };
    let finished =
        complete_spawn_agent(&mut control, orchestrator, prompt, persona, configured())
            .expect("spawn completes");
    assert!(matches!(
        finished,
        HandleStep::Finished(ToolOutput::Message { success: true, .. })
    ));
}
