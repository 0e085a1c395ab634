use tabby_tui::chat::ChatRole;
use tabby_tui::error::TabbyApiError;
use tabby_tui::reducer::{
    completion_finalize_action, Action, Command, Key, Mode, UiState,
};

fn type_text(st: &mut UiState, text: &str) {
    for c in text.chars() {
        let cmd = st.reduce(Action::KeyInput(Key::Char(c)));
        assert!(matches!(cmd, Command::Idle));
    }
}

#[test]
fn submit_flows_normal_insert_processing_and_back() {
    let mut st = UiState::with_id("sess".to_string());
    assert_eq!(st.mode, Mode::Normal);

    st.reduce(Action::KeyInput(Key::Char('/')));
    assert_eq!(st.mode, Mode::Insert);

    type_text(&mut st, "hello");
    assert_eq!(st.input_text(), "hello");

    let cmd = st.reduce(Action::KeyInput(Key::Enter));
    assert_eq!(st.mode, Mode::Processing);
    assert_eq!(st.input_text(), "");
    assert_eq!(st.session.messages.len(), 2);
    assert_eq!(st.session.messages[0].role, ChatRole::User);
    assert_eq!(st.session.messages[0].content, "hello");
    assert_eq!(st.session.messages[1].role, ChatRole::Assistant);
    assert_eq!(st.session.messages[1].content, "");
    match cmd {
        Command::StartCompletion { generation, body } => {
            assert_eq!(generation, 1);
            assert_eq!(
                body,
                "{\"id\":\"sess\",\"messages\":[{\"role\":\"user\",\"content\":\"hello\"}]}"
            );
        },
        other => panic!("expected a completion start, got {:?}", other),
    }

    st.reduce(Action::StreamDelta(1, "Hi".to_string()));
    st.reduce(Action::StreamDelta(1, " there".to_string()));
    assert_eq!(st.session.messages[1].content, "Hi there");

    st.reduce(Action::FinalizeAssistant(1, "Hi there".to_string()));
    assert_eq!(st.mode, Mode::Normal);
    assert_eq!(st.session.messages[1].content, "Hi there");
}

#[test]
fn stale_generation_actions_change_nothing() {
    let mut st = UiState::with_id("sess".to_string());
    st.reduce(Action::SubmitInput("first".to_string()));
    assert_eq!(st.generation, 1);
    st.reduce(Action::StreamDelta(1, "old ".to_string()));

    // the next submission supersedes generation 1
    st.reduce(Action::FinalizeAssistant(1, "old".to_string()));
    st.reduce(Action::SubmitInput("second".to_string()));
    assert_eq!(st.generation, 2);
    let before: Vec<String> =
        st.session.messages.iter().map(|m| m.content.clone()).collect();

    st.reduce(Action::StreamDelta(1, "zombie".to_string()));
    st.reduce(Action::FinalizeAssistant(1, "zombie".to_string()));
    let after: Vec<String> =
        st.session.messages.iter().map(|m| m.content.clone()).collect();
    assert_eq!(before, after);
    assert_eq!(st.mode, Mode::Processing);

    st.reduce(Action::StreamDelta(2, "fresh".to_string()));
    assert_eq!(st.session.messages.last().unwrap().content, "fresh");
}

#[test]
fn empty_submission_is_refused() {
    let mut st = UiState::with_id("sess".to_string());
    st.reduce(Action::KeyInput(Key::Char('/')));
    let cmd = st.reduce(Action::KeyInput(Key::Enter));
    assert!(matches!(cmd, Command::Idle));
    assert_eq!(st.mode, Mode::Insert);
    assert_eq!(st.session.messages.len(), 0);
}

#[test]
fn backspace_edits_the_buffer() {
    let mut st = UiState::with_id("sess".to_string());
    st.reduce(Action::KeyInput(Key::Char('/')));
    type_text(&mut st, "ab");
    st.reduce(Action::KeyInput(Key::Backspace));
    assert_eq!(st.input_text(), "a");
    st.reduce(Action::KeyInput(Key::Backspace));
    st.reduce(Action::KeyInput(Key::Backspace));
    assert_eq!(st.input_text(), "");
}

#[test]
fn escape_leaves_insert_mode() {
    let mut st = UiState::with_id("sess".to_string());
    st.reduce(Action::KeyInput(Key::Char('/')));
    type_text(&mut st, "draft");
    st.reduce(Action::KeyInput(Key::Esc));
    assert_eq!(st.mode, Mode::Normal);
}

#[test]
fn quit_and_help_keys_in_normal_mode() {
    let mut st = UiState::with_id("sess".to_string());
    let cmd = st.reduce(Action::KeyInput(Key::Char('q')));
    assert!(matches!(cmd, Command::Quit));
    assert!(!st.show_help);
    st.reduce(Action::KeyInput(Key::Char('?')));
    assert!(st.show_help);
    st.reduce(Action::KeyInput(Key::Char('?')));
    assert!(!st.show_help);
}

#[test]
fn keys_are_ignored_while_processing() {
    let mut st = UiState::with_id("sess".to_string());
    st.reduce(Action::SubmitInput("hello".to_string()));
    assert_eq!(st.mode, Mode::Processing);
    let cmd = st.reduce(Action::KeyInput(Key::Char('/')));
    assert!(matches!(cmd, Command::Idle));
    assert_eq!(st.mode, Mode::Processing);
    // a second submission while processing is refused
    let cmd2 = st.reduce(Action::SubmitInput("again".to_string()));
    assert!(matches!(cmd2, Command::Idle));
    assert_eq!(st.session.messages.len(), 2);
}

#[test]
fn transport_error_with_zero_deltas_becomes_error_text() {
    let mut st = UiState::with_id("sess".to_string());
    st.reduce(Action::SubmitInput("hello".to_string()));

    // the stream yielded nothing, then the transport failed
    let err = TabbyApiError::TransportInterrupted("connection reset".to_string());
    let finalize = completion_finalize_action(1, "", Some(&err));
    st.reduce(finalize);

    assert_eq!(st.mode, Mode::Normal);
    assert_eq!(
        st.session.messages[1].content,
        "stream interrupted: connection reset"
    );
    assert_ne!(st.session.messages[1].content, "");
}

#[test]
fn transport_error_after_deltas_keeps_them_as_prefix() {
    let mut st = UiState::with_id("sess".to_string());
    st.reduce(Action::SubmitInput("hello".to_string()));
    st.reduce(Action::StreamDelta(1, "part".to_string()));

    let err = TabbyApiError::TransportInterrupted("reset".to_string());
    let finalize = completion_finalize_action(1, "part", Some(&err));
    st.reduce(finalize);
    assert_eq!(
        st.session.messages[1].content,
        "partstream interrupted: reset"
    );
}

#[test]
fn successful_finalize_carries_accumulated_text() {
    let a = completion_finalize_action(7, "all of it", None);
    match a {
        Action::FinalizeAssistant(g, t) => {
            assert_eq!(g, 7);
            assert_eq!(t, "all of it");
        },
        other => panic!("expected a finalize action, got {:?}", other),
    }
}

#[test]
fn mode_change_action_sets_the_mode() {
    let mut st = UiState::with_id("sess".to_string());
    st.reduce(Action::ModeChange(Mode::Processing));
    assert_eq!(st.mode, Mode::Processing);
    st.reduce(Action::ModeChange(Mode::Normal));
    assert_eq!(st.mode, Mode::Normal);
}

#[test]
fn tick_counts_up() {
    let mut st = UiState::with_id("sess".to_string());
    st.reduce(Action::Tick);
    st.reduce(Action::Tick);
    assert_eq!(st.app_ticker, 2);
}

#[test]
fn fresh_state_draws_a_session_token() {
    let st = UiState::new();
    assert_eq!(st.session.id.chars().count(), 36);
    assert_eq!(st.mode, Mode::Normal);
    assert_eq!(st.generation, 0);
    assert!(st.session.messages.is_empty());
}
