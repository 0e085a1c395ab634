use tabby_tui::chat::{
    chat_view_from_result, ChatRole, ChatSession, Message, TabbyChatViewData,
};
use tabby_tui::error::TabbyApiError;
use tabby_tui::reducer::UiState;

#[test]
fn session_appends_in_order() {
    let mut s = ChatSession::new("sess".to_string());
    s.append_user("hello".to_string());
    s.append_assistant_placeholder();
    assert_eq!(s.messages.len(), 2);
    assert_eq!(s.messages[0].role, ChatRole::User);
    assert_eq!(s.messages[0].content, "hello");
    assert_eq!(s.messages[1].role, ChatRole::Assistant);
    assert_eq!(s.messages[1].content, "");
    assert_eq!(s.id, "sess");
}

#[test]
fn apply_delta_grows_assistant_message() {
    let mut s = ChatSession::new("sess".to_string());
    s.append_user("hello".to_string());
    s.append_assistant_placeholder();
    assert!(s.apply_delta("Hi"));
    assert!(s.apply_delta(" there"));
    assert_eq!(s.messages[1].content, "Hi there");
    assert_eq!(s.messages[0].content, "hello");
}

#[test]
fn apply_delta_refused_without_placeholder() {
    let mut s = ChatSession::new("sess".to_string());
    assert!(!s.apply_delta("Hi"));
    assert_eq!(s.messages.len(), 0);

    s.append_user("hello".to_string());
    assert!(!s.apply_delta("Hi"));
    assert_eq!(s.messages[0].content, "hello");
}

#[test]
fn finalize_replaces_last_content() {
    let mut s = ChatSession::new("sess".to_string());
    s.append_user("hello".to_string());
    s.append_assistant_placeholder();
    assert!(s.apply_delta("partial"));
    s.finalize_last("final text".to_string());
    assert_eq!(s.messages[1].content, "final text");
    assert_eq!(s.messages[1].role, ChatRole::Assistant);
    assert_eq!(s.messages.len(), 2);
}

#[test]
fn finalize_on_empty_session_is_noop() {
    let mut s = ChatSession::new("sess".to_string());
    s.finalize_last("text".to_string());
    assert_eq!(s.messages.len(), 0);
}

#[test]
fn role_names() {
    assert_eq!(ChatRole::User.name(), "user");
    assert_eq!(ChatRole::Assistant.name(), "assistant");
}

#[test]
fn session_ids_are_uuid_shaped() {
    let a = UiState::new().session.id;
    let b = UiState::new().session.id;
    assert_eq!(a.chars().count(), 36);
    assert_eq!(b.chars().count(), 36);
    assert_ne!(a, b);
    assert_eq!(a.chars().filter(|c| *c == '-').count(), 4);
}

#[test]
fn chat_view_folds_success_and_failure() {
    let ok = chat_view_from_result(Ok("done".to_string()));
    assert_eq!(
        ok,
        TabbyChatViewData { role: ChatRole::Assistant, text: "done".to_string() }
    );
    let err = chat_view_from_result(Err(TabbyApiError::ConnectionError("refused".to_string())));
    assert_eq!(err.role, ChatRole::Assistant);
    assert_eq!(err.text, "request failed: refused");
}

#[test]
fn display_lines_show_roles_and_contents() {
    let mut s = ChatSession::new("sess".to_string());
    s.append_user("hello".to_string());
    s.append_assistant_placeholder();
    assert_eq!(
        s.display_lines(),
        vec!["user: hello".to_string(), "assistant:".to_string()]
    );
    assert!(s.apply_delta("Hi"));
    assert_eq!(
        s.display_lines(),
        vec!["user: hello".to_string(), "assistant: Hi".to_string()]
    );
}

#[test]
fn messages_clone_independently() {
    let m = Message { role: ChatRole::User, content: "x".to_string() };
    let m2 = m.clone();
    assert_eq!(m2.content, "x");
}
