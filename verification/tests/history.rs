use agent_collab::session::{
    merge_rate_limit_fields, truncate_before_nth_user_message, ContentItem, InitialHistory,
    PlanType, RateLimitSnapshot, ResponseItem, RolloutItem, SessionState,
};

fn user_msg(text: &str) -> ResponseItem {
    ResponseItem::Message {
        id: None,
        role: "user".to_string(),
        content: vec![ContentItem::OutputText { text: text.to_string() }],
    }
}

fn assistant_msg(text: &str) -> ResponseItem {
    ResponseItem::Message {
        id: None,
        role: "assistant".to_string(),
        content: vec![ContentItem::OutputText { text: text.to_string() }],
    }
}

fn build_items() -> Vec<RolloutItem> {
    vec![
        RolloutItem::ResponseItem(user_msg("u1")),
        RolloutItem::ResponseItem(assistant_msg("a1")),
        RolloutItem::ResponseItem(assistant_msg("a2")),
        RolloutItem::ResponseItem(user_msg("u2")),
        RolloutItem::ResponseItem(assistant_msg("a3")),
        RolloutItem::ResponseItem(ResponseItem::Reasoning {
            id: "r1".to_string(),
            summary: vec!["s".to_string()],
            content: None,
            encrypted_content: None,
        }),
        RolloutItem::ResponseItem(ResponseItem::FunctionCall {
            id: None,
            call_id: "c1".to_string(),
            name: "tool".to_string(),
            arguments: "{}".to_string(),
        }),
        RolloutItem::ResponseItem(assistant_msg("a4")),
    ]
}

#[test]
fn drops_from_last_user_only() {
    let truncated = truncate_before_nth_user_message(InitialHistory::Forked(build_items()), 1);
    let got_items = truncated.get_rollout_items();
    let mut expected_items = build_items();
    expected_items.truncate(3);
    assert_eq!(got_items, expected_items);

    let truncated2 = truncate_before_nth_user_message(InitialHistory::Forked(build_items()), 2);
    assert!(matches!(truncated2, InitialHistory::New));
}

#[test]
fn fork_beyond_user_messages_yields_new_history() {
    let truncated = truncate_before_nth_user_message(InitialHistory::Forked(build_items()), 7);
    assert!(matches!(truncated, InitialHistory::New));
    let empty = truncate_before_nth_user_message(InitialHistory::New, 0);
    assert!(matches!(empty, InitialHistory::New));
}

#[test]
fn fork_before_first_user_message_yields_new_history() {
    let truncated = truncate_before_nth_user_message(InitialHistory::Forked(build_items()), 0);
    assert!(matches!(truncated, InitialHistory::New));
}

fn prefixed_items() -> Vec<RolloutItem> {
    vec![
        RolloutItem::ResponseItem(user_msg("<user_instructions>always be kind")),
        RolloutItem::ResponseItem(user_msg("<environment_context>cwd is /")),
        RolloutItem::ResponseItem(user_msg("feature request")),
        RolloutItem::ResponseItem(assistant_msg("ack")),
        RolloutItem::ResponseItem(user_msg("second question")),
        RolloutItem::ResponseItem(assistant_msg("answer")),
    ]
}

#[test]
fn session_prefix_messages_are_not_counted() {
    let truncated = truncate_before_nth_user_message(InitialHistory::Forked(prefixed_items()), 1);
    let got = truncated.get_rollout_items();
    let mut expected = prefixed_items();
    expected.truncate(4);
    assert_eq!(got, expected);
}

#[test]
fn rate_limit_merge_keeps_missing_fields_from_the_previous_snapshot() {
    let previous = RateLimitSnapshot {
        credits: Some("12.50".to_string()),
        plan_type: Some(PlanType::Pro),
    };
    let merged = merge_rate_limit_fields(
        Some(&previous),
        RateLimitSnapshot { credits: None, plan_type: None },
    );
    assert_eq!(merged.credits, Some("12.50".to_string()));
    assert_eq!(merged.plan_type, Some(PlanType::Pro));
    let replaced = merge_rate_limit_fields(
        Some(&previous),
        RateLimitSnapshot { credits: Some("3.00".to_string()), plan_type: Some(PlanType::Free) },
    );
    assert_eq!(replaced.credits, Some("3.00".to_string()));
    assert_eq!(replaced.plan_type, Some(PlanType::Free));
    let bare = merge_rate_limit_fields(None, RateLimitSnapshot { credits: None, plan_type: None });
    assert_eq!(bare.credits, None);
    assert_eq!(bare.plan_type, None);
}

#[test]
fn session_state_records_and_merges() {
    let mut session = SessionState::new();
    assert!(session.history.is_empty());
    session.record_items(vec![user_msg("hello")]);
    session.record_items(vec![assistant_msg("hi")]);
    assert_eq!(session.history.len(), 2);
    session.replace_history(vec![user_msg("fresh")]);
    assert_eq!(session.history.len(), 1);
    session.set_rate_limits(RateLimitSnapshot {
        credits: Some("1.00".to_string()),
        plan_type: None,
    });
    session.set_rate_limits(RateLimitSnapshot { credits: None, plan_type: Some(PlanType::Plus) });
    let limits = session.latest_rate_limits.as_ref().unwrap();
    assert_eq!(limits.credits, Some("1.00".to_string()));
    assert_eq!(limits.plan_type, Some(PlanType::Plus));
}

#[test]
fn resumed_history_is_truncated_like_a_forked_one() {
    let truncated = truncate_before_nth_user_message(InitialHistory::Resumed(build_items()), 1);
    let got = truncated.get_rollout_items();
    let mut expected = build_items();
    expected.truncate(3);
    assert_eq!(got, expected);
}
