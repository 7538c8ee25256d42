use agent_collab::output::{trim_snapshot, trim_to_max_chars, SubagentOutput};

#[test]
fn partial_buffer_keeps_the_true_trailing_suffix() {
    let mut output = SubagentOutput::new();
    output.push_delta(&"a".repeat(5000));
    output.push_delta(&"b".repeat(5000));
    let snap = output.snapshot(None);
    let partial = snap.partial.expect("partial should be present");
    assert_eq!(partial.len(), 8000);
    let expected = format!("{}{}", "a".repeat(3000), "b".repeat(5000));
    assert_eq!(partial, expected);
}

#[test]
fn reasoning_buffer_never_exceeds_its_budget() {
    let mut output = SubagentOutput::new();
    for _ in 0..10 {
        output.push_reasoning_delta(&"r".repeat(1000));
    }
    let snap = output.snapshot(None);
    let reasoning = snap.reasoning.expect("reasoning should be present");
    assert_eq!(reasoning.len(), 8000);
}

#[test]
fn tool_events_evict_oldest_first() {
    let mut output = SubagentOutput::new();
    for i in 0..205 {
        output.push_tool_event(format!("e{i}"));
    }
    let snap = output.snapshot(None);
    assert_eq!(snap.tool_events.len(), 200);
    assert_eq!(snap.tool_events[0], "e5");
    assert_eq!(snap.tool_events[199], "e204");
}

#[test]
fn snapshot_cuts_to_trailing_characters() {
    let mut output = SubagentOutput::new();
    output.push_delta("hello world");
    let cut = output.snapshot(Some(5));
    assert_eq!(cut.partial, Some("world".to_string()));
    let wide = output.snapshot(Some(50));
    assert_eq!(wide.partial, Some("hello world".to_string()));
}

#[test]
fn empty_buffers_snapshot_as_absent() {
    let output = SubagentOutput::new();
    let snap = output.snapshot(None);
    assert_eq!(snap.partial, None);
    assert_eq!(snap.reasoning, None);
    assert_eq!(snap.last_message, None);
    assert!(snap.tool_events.is_empty());
    let limited = output.snapshot(Some(10));
    assert_eq!(limited.partial, None);
    assert_eq!(limited.reasoning, None);
}

#[test]
fn finalized_message_clears_partial() {
    let mut output = SubagentOutput::new();
    output.push_delta("dra");
    output.push_delta("ft");
    output.set_message("done");
    let snap = output.snapshot(None);
    assert_eq!(snap.partial, None);
    assert_eq!(snap.last_message, Some("done".to_string()));
}

#[test]
fn reset_clears_streams_but_keeps_last_message() {
    let mut output = SubagentOutput::new();
    output.push_delta("text");
    output.push_reasoning_delta("thought");
    output.push_tool_event("exec begin: ls".to_string());
    output.set_message("answer");
    output.push_delta("next turn text");
    output.reset_for_prompt();
    let snap = output.snapshot(None);
    assert_eq!(snap.partial, None);
    assert_eq!(snap.reasoning, None);
    assert!(snap.tool_events.is_empty());
    assert_eq!(snap.last_message, Some("answer".to_string()));
}

#[test]
fn trim_snapshot_rejects_nothing_but_empty_text() {
    assert_eq!(trim_snapshot("", 5), None);
    assert_eq!(trim_snapshot("hello", 3), Some("llo".to_string()));
    assert_eq!(trim_snapshot("hi", 5), Some("hi".to_string()));
}

#[test]
fn trim_to_max_chars_keeps_the_tail() {
    let mut s = "abcdef".to_string();
    trim_to_max_chars(&mut s, 4);
    assert_eq!(s, "cdef");
    let mut short = "ab".to_string();
    trim_to_max_chars(&mut short, 4);
    assert_eq!(short, "ab");
}
