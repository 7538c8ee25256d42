use agent_collab::control::AgentControl;
use agent_collab::ids::AgentId;
use agent_collab::protocol::{
    agent_status_from_event, AgentStatus, Event, EventMsg, TurnAbortReason,
};
use agent_collab::registry::ThreadRegistry;

fn configured() -> Event {
    Event { id: "0".to_string(), msg: EventMsg::SessionConfigured }
}

#[test]
fn send_prompt_errors_when_manager_dropped() {
    let mut control = AgentControl::default();
    let err = control
        .send_prompt(AgentId { value: 1 }, "hello".to_string())
        .expect_err("send_prompt should fail without a manager");
    assert_eq!(err.message(), "unsupported operation: thread manager dropped");
}

#[test]
fn get_status_returns_not_found_without_manager() {
    let control = AgentControl::default();
    let got = control.get_status(AgentId { value: 1 });
    assert_eq!(got, AgentStatus::NotFound);
}

#[test]
fn on_event_updates_status_from_task_started() {
    let status = agent_status_from_event(&EventMsg::TurnStarted);
    assert_eq!(status, Some(AgentStatus::Running));
}

#[test]
fn on_event_updates_status_from_task_complete() {
    let status = agent_status_from_event(&EventMsg::TurnComplete {
        last_agent_message: Some("done".to_string()),
    });
    let expected = AgentStatus::Completed(Some("done".to_string()));
    assert_eq!(status, Some(expected));
}

#[test]
fn on_event_updates_status_from_error() {
    let status = agent_status_from_event(&EventMsg::Error { message: "boom".to_string() });
    let expected = AgentStatus::Errored("boom".to_string());
    assert_eq!(status, Some(expected));
}

#[test]
fn on_event_updates_status_from_turn_aborted() {
    let status = agent_status_from_event(&EventMsg::TurnAborted {
        reason: TurnAbortReason::Interrupted,
    });
    let expected = AgentStatus::Errored("Interrupted".to_string());
    assert_eq!(status, Some(expected));
}

#[test]
fn on_event_updates_status_from_shutdown_complete() {
    let status = agent_status_from_event(&EventMsg::ShutdownComplete);
    assert_eq!(status, Some(AgentStatus::Shutdown));
}

#[test]
fn content_events_drive_no_status_change() {
    assert_eq!(agent_status_from_event(&EventMsg::AgentMessage { message: "hi".to_string() }), None);
    assert_eq!(agent_status_from_event(&EventMsg::Other), None);
}

#[test]
fn get_status_returns_not_found_for_unknown_id() {
    let reg = ThreadRegistry::new();
    let control = AgentControl::new(Some(reg));
    assert_eq!(control.get_status(AgentId { value: 42 }), AgentStatus::NotFound);
}

#[test]
fn status_follows_applied_lifecycle_events() {
    let mut reg = ThreadRegistry::new();
    let id = reg.start_thread(configured()).expect("spawn should succeed");
    reg.apply_event(id, &EventMsg::TurnStarted);
    let control = AgentControl::new(Some(reg));
    assert_eq!(control.get_status(id), AgentStatus::Running);
    let mut reg = control.into_registry().unwrap();
    reg.apply_event(
        id,
        &EventMsg::TurnComplete { last_agent_message: Some("all done".to_string()) },
    );
    let control = AgentControl::new(Some(reg));
    assert_eq!(
        control.get_status(id),
        AgentStatus::Completed(Some("all done".to_string()))
    );
}

#[test]
fn registration_makes_a_subagent_visible_to_its_parent_only() {
    let mut reg = ThreadRegistry::new();
    let parent = AgentId { value: 1 };
    let child = AgentId { value: 2 };
    let stranger = AgentId { value: 3 };
    reg.register_subagent(parent, child, Some("Builder".to_string()), None);
    assert!(reg.is_subagent_of(parent, child));
    assert!(!reg.is_subagent_of(parent, stranger));
    assert!(!reg.is_subagent_of(stranger, child));
    let control = AgentControl::new(Some(reg));
    assert_eq!(control.is_subagent_of(parent, child), Ok(true));
    assert_eq!(control.is_subagent_of(parent, stranger), Ok(false));
}

#[test]
fn spawn_requires_the_configuration_acknowledgment_first() {
    let mut reg = ThreadRegistry::new();
    let bad = Event { id: "0".to_string(), msg: EventMsg::TurnStarted };
    let err = reg.start_thread(bad).expect_err("wrong first event must fail");
    assert_eq!(
        err.message(),
        "expected SessionConfigured to be the first event"
    );
    let wrong_id = Event { id: "7".to_string(), msg: EventMsg::SessionConfigured };
    assert!(reg.start_thread(wrong_id).is_err());
    assert!(reg.start_thread(configured()).is_ok());
}

#[test]
fn forget_subagent_removes_everything_for_the_id() {
    let mut reg = ThreadRegistry::new();
    let parent = reg.start_thread(configured()).unwrap();
    let child = reg.start_thread(configured()).unwrap();
    reg.register_subagent(parent, child, None, None);
    let mut control = AgentControl::new(Some(reg));
    assert!(control.forget_subagent(child).is_ok());
    assert_eq!(control.get_status(child), AgentStatus::NotFound);
    assert_eq!(control.is_subagent_of(parent, child), Ok(false));
}
