use agent_collab::ids::AgentId;
use agent_collab::personas::{
    merge_instructions, with_orchestrator_instructions, with_subagent_instructions,
    ORCHESTRATOR_PROMPT,
};

#[test]
fn merge_instructions_appends_with_spacing() {
    let got = merge_instructions(Some("alpha"), "beta");
    assert_eq!(got, Some("alpha\n\nbeta".to_string()));
}

#[test]
fn merge_instructions_ignores_empty_addition() {
    let got = merge_instructions(Some("alpha"), "   ");
    assert_eq!(got, Some("alpha".to_string()));
}

#[test]
fn subagent_instructions_include_orchestrator_id() {
    let id = AgentId { value: 0 };
    let got = with_subagent_instructions(None, Some("researcher"), id)
        .expect("expected subagent instructions");
    assert!(got.contains("Persona:\nresearcher"));
    assert!(got.contains(&format!("Orchestrator thread id: {}", id.text())));
}

#[test]
fn merge_instructions_trims_existing_text() {
    let got = merge_instructions(Some("  alpha  "), " beta ");
    assert_eq!(got, Some("alpha\n\nbeta".to_string()));
}

#[test]
fn merge_instructions_without_existing_text() {
    assert_eq!(merge_instructions(None, "beta"), Some("beta".to_string()));
    assert_eq!(merge_instructions(None, " \n "), None);
    assert_eq!(merge_instructions(Some("   "), "beta"), Some("beta".to_string()));
}

#[test]
fn orchestrator_instructions_stand_alone_without_existing_text() {
    assert_eq!(
        with_orchestrator_instructions(None),
        Some(ORCHESTRATOR_PROMPT.to_string())
    );
    let merged = with_orchestrator_instructions(Some("keep this")).unwrap();
    assert!(merged.starts_with("keep this\n\n"));
    assert!(merged.ends_with(ORCHESTRATOR_PROMPT));
}

#[test]
fn blank_persona_is_left_out_of_subagent_instructions() {
    let got = with_subagent_instructions(None, Some("   "), AgentId { value: 5 }).unwrap();
    assert!(!got.contains("Persona:"));
    assert!(got.contains("Orchestrator thread id: 00000000000000000005"));
}
