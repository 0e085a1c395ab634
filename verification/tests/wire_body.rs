use tabby_tui::chat::{ChatRole, Message};
use tabby_tui::wire::serialize_request_body;

fn msg(role: ChatRole, content: &str) -> Message {
    Message { role, content: content.to_string() }
}

#[test]
fn body_holds_id_and_messages() {
    let messages = vec![msg(ChatRole::User, "hello")];
    let body = serialize_request_body("sess-1", &messages);
    assert_eq!(
        body,
        "{\"id\":\"sess-1\",\"messages\":[{\"role\":\"user\",\"content\":\"hello\"}]}"
    );
}

#[test]
fn body_joins_messages_with_commas() {
    let messages = vec![
        msg(ChatRole::User, "a"),
        msg(ChatRole::Assistant, "b"),
        msg(ChatRole::User, "c"),
    ];
    let body = serialize_request_body("s", &messages);
    assert_eq!(
        body,
        "{\"id\":\"s\",\"messages\":[{\"role\":\"user\",\"content\":\"a\"},{\"role\":\"assistant\",\"content\":\"b\"},{\"role\":\"user\",\"content\":\"c\"}]}"
    );
}

#[test]
fn empty_content_messages_are_never_serialized() {
    let messages = vec![
        msg(ChatRole::User, ""),
        msg(ChatRole::User, "hello"),
        msg(ChatRole::Assistant, ""),
    ];
    let body = serialize_request_body("s", &messages);
    assert_eq!(
        body,
        "{\"id\":\"s\",\"messages\":[{\"role\":\"user\",\"content\":\"hello\"}]}"
    );
    assert!(!body.contains("\"content\":\"\""));
}

#[test]
fn all_empty_messages_give_empty_array() {
    let messages = vec![msg(ChatRole::User, ""), msg(ChatRole::Assistant, "")];
    let body = serialize_request_body("s", &messages);
    assert_eq!(body, "{\"id\":\"s\",\"messages\":[]}");
}

#[test]
fn body_escapes_quotes_and_backslashes() {
    let messages = vec![msg(ChatRole::User, "a\"b\\c")];
    let body = serialize_request_body("s", &messages);
    assert_eq!(
        body,
        "{\"id\":\"s\",\"messages\":[{\"role\":\"user\",\"content\":\"a\\\"b\\\\c\"}]}"
    );
}

#[test]
fn body_escapes_control_characters() {
    let messages = vec![msg(ChatRole::User, "l1\nl2\tend\u{1}")];
    let body = serialize_request_body("s", &messages);
    assert_eq!(
        body,
        "{\"id\":\"s\",\"messages\":[{\"role\":\"user\",\"content\":\"l1\\nl2\\tend\\u0001\"}]}"
    );
}

#[test]
fn body_escapes_id_too() {
    let messages: Vec<Message> = vec![];
    let body = serialize_request_body("a\"b", &messages);
    assert_eq!(body, "{\"id\":\"a\\\"b\",\"messages\":[]}");
}

#[test]
fn body_is_valid_json_for_serde() {
    let messages = vec![msg(ChatRole::User, "he said \"hi\"\n\\done\u{8}\u{c}\r"), msg(ChatRole::Assistant, "ümlaut 😀")];
    let body = serialize_request_body("sess", &messages);
    let v: serde_json::Value = serde_json::from_str(&body).expect("body must parse as JSON");
    assert_eq!(v["id"], "sess");
    assert_eq!(v["messages"][0]["role"], "user");
    assert_eq!(v["messages"][0]["content"], "he said \"hi\"\n\\done\u{8}\u{c}\r");
    assert_eq!(v["messages"][1]["content"], "ümlaut 😀");
}
