use agent_collab::chat::{GroupChatMessageEvent, GroupChatState};
use agent_collab::ids::AgentId;
use agent_collab::protocol::GroupChatSender;

fn msg(text: &str) -> GroupChatMessageEvent {
    GroupChatMessageEvent { text: text.to_string(), sender: GroupChatSender::TeamLead }
}

#[test]
fn log_never_exceeds_capacity() {
    let mut chat = GroupChatState::new();
    for i in 0..600 {
        let len = chat.append(msg(&format!("m{i}")));
        assert!(len <= 500);
    }
    let (len, msgs) = chat.unread_messages(AgentId { value: 9 });
    assert_eq!(len, 500);
    assert_eq!(msgs.len(), 500);
    assert_eq!(msgs[0].text, "m100");
    assert_eq!(msgs[499].text, "m599");
}

#[test]
fn eviction_preserves_unread_window() {
    let mut chat = GroupChatState::new();
    let reader = AgentId { value: 1 };
    for i in 0..500 {
        chat.append(msg(&format!("m{i}")));
    }
    chat.mark_read(reader, 100);
    let (_, unread) = chat.unread_messages(reader);
    assert_eq!(unread.len(), 400);
    chat.append(msg("extra"));
    let (len, unread2) = chat.unread_messages(reader);
    assert_eq!(len, 500);
    assert_eq!(unread2.len(), 401);
    assert_eq!(unread2[0].text, "m100");
    assert_eq!(unread2[400].text, "extra");
}

#[test]
fn cursor_saturates_at_zero_on_eviction() {
    let mut chat = GroupChatState::new();
    let reader = AgentId { value: 2 };
    chat.mark_read(reader, 0);
    for i in 0..501 {
        chat.append(msg(&format!("m{i}")));
    }
    let (len, unread) = chat.unread_messages(reader);
    assert_eq!(len, 500);
    assert_eq!(unread.len(), 500);
}

#[test]
fn reading_does_not_advance_the_cursor() {
    let mut chat = GroupChatState::new();
    let reader = AgentId { value: 3 };
    chat.append(msg("one"));
    chat.append(msg("two"));
    let (_, first) = chat.unread_messages(reader);
    assert_eq!(first.len(), 2);
    let (_, second) = chat.unread_messages(reader);
    assert_eq!(second.len(), 2);
    chat.mark_read(reader, 2);
    let (_, third) = chat.unread_messages(reader);
    assert_eq!(third.len(), 0);
}

#[test]
fn cursor_beyond_end_reads_nothing() {
    let mut chat = GroupChatState::new();
    let reader = AgentId { value: 4 };
    chat.append(msg("only"));
    chat.mark_read(reader, 10);
    let (len, unread) = chat.unread_messages(reader);
    assert_eq!(len, 1);
    assert_eq!(unread.len(), 0);
}
