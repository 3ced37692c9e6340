use llm_proxy_manager::json::JsonValue;
use llm_proxy_manager::mappers::{chat_to_codex_response, codex_response_to_chat};

fn s(v: &str) -> JsonValue {
    JsonValue::Str(v.to_string())
}

fn obj(members: Vec<(&str, JsonValue)>) -> JsonValue {
    JsonValue::Object(members.into_iter().map(|(k, v)| (k.to_string(), v)).collect())
}

fn arr(items: Vec<JsonValue>) -> JsonValue {
    JsonValue::Array(items)
}

#[test]
fn test_codex_response_to_chat_basic() {
    let input = obj(vec![
        ("model", s("GPT-5.1")),
        ("input", s("Hello world")),
        ("instructions", s("Be helpful")),
    ]);

    let result = codex_response_to_chat(&input).unwrap();
    assert_eq!(result.get("model").unwrap(), &s("GPT-5.1"));
    assert_eq!(result.get("system").unwrap(), &s("Be helpful"));
}

#[test]
fn test_codex_response_to_chat_without_instructions() {
    let input = obj(vec![("model", s("GPT-5.1")), ("input", s("Hello world"))]);

    let result = codex_response_to_chat(&input).unwrap();
    assert_eq!(result.get("model").unwrap(), &s("GPT-5.1"));
    assert!(result.get("system").is_none());
}

#[test]
fn test_codex_response_to_chat_with_array_input() {
    let input = obj(vec![
        ("model", s("GPT-5.1")),
        (
            "input",
            arr(vec![
                obj(vec![("role", s("user")), ("content", s("Hello"))]),
                obj(vec![("role", s("assistant")), ("content", s("Hi"))]),
            ]),
        ),
    ]);

    let result = codex_response_to_chat(&input).unwrap();
    let messages = result.get("messages").and_then(|v| v.as_array()).unwrap();
    assert_eq!(messages.len(), 2);
}

#[test]
fn text_input_becomes_one_user_message() {
    let input = obj(vec![("input", s("Hi"))]);
    let result = codex_response_to_chat(&input).unwrap();
    assert_eq!(
        result,
        obj(vec![
            ("model", s("")),
            (
                "messages",
                arr(vec![obj(vec![("role", s("user")), ("content", s("Hi"))])])
            ),
        ])
    );
}

#[test]
fn other_input_gives_null_messages_and_non_text_instructions_are_ignored() {
    let input = obj(vec![
        ("model", JsonValue::Number("5".into())),
        ("input", JsonValue::Bool(true)),
        ("instructions", JsonValue::Null),
    ]);
    let result = codex_response_to_chat(&input).unwrap();
    assert_eq!(
        result,
        obj(vec![("model", s("")), ("messages", JsonValue::Null)])
    );
    let result = codex_response_to_chat(&JsonValue::Null).unwrap();
    assert_eq!(result.get("messages"), Some(&JsonValue::Null));
}

#[test]
fn test_chat_to_codex_response_basic() {
    let input = obj(vec![
        ("id", s("chatcmpl-123")),
        ("model", s("GPT-5.1")),
        (
            "choices",
            arr(vec![obj(vec![(
                "message",
                obj(vec![("role", s("assistant")), ("content", s("Hello back"))]),
            )])]),
        ),
    ]);

    let result = chat_to_codex_response(&input).unwrap();
    assert_eq!(result.get("object").unwrap(), &s("response"));
    assert!(result.get("output").and_then(|v| v.as_array()).is_some());
}

#[test]
fn test_chat_to_codex_response_empty_choices() {
    let input = obj(vec![
        ("id", s("chatcmpl-123")),
        ("model", s("GPT-5.1")),
        ("choices", arr(vec![])),
    ]);

    let result = chat_to_codex_response(&input).unwrap();
    let output = result.get("output").and_then(|v| v.as_array()).unwrap();
    assert!(output.is_empty());
}

#[test]
fn test_chat_to_codex_response_multi_choice() {
    let msg = |t: &str| {
        obj(vec![(
            "message",
            obj(vec![("role", s("assistant")), ("content", s(t))]),
        )])
    };
    let input = obj(vec![
        ("id", s("chatcmpl-123")),
        ("model", s("GPT-5.1")),
        ("choices", arr(vec![msg("First response"), msg("Second response")])),
    ]);

    let result = chat_to_codex_response(&input).unwrap();
    let output = result.get("output").and_then(|v| v.as_array()).unwrap();
    assert_eq!(output.len(), 2);
}

#[test]
fn chat_response_maps_exactly() {
    let input = obj(vec![(
        "choices",
        arr(vec![
            obj(vec![("message", obj(vec![("content", s("x"))]))]),
            obj(vec![("delta", s("ignored"))]),
            obj(vec![("message", obj(vec![("role", s("tool"))]))]),
        ]),
    )]);
    let part = |t: &str| obj(vec![("type", s("text")), ("text", s(t))]);
    let item = |role: &str, t: &str| {
        obj(vec![
            ("id", s("msg_001")),
            ("role", s(role)),
            ("content", arr(vec![part(t)])),
        ])
    };
    assert_eq!(
        chat_to_codex_response(&input).unwrap(),
        obj(vec![
            ("id", s("resp_001")),
            ("object", s("response")),
            ("model", JsonValue::Null),
            ("output", arr(vec![item("assistant", "x"), item("tool", "")])),
        ])
    );
}
