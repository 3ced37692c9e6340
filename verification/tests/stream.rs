use llm_proxy_manager::providers::AiProvider;
use llm_proxy_manager::json::JsonValue;
use llm_proxy_manager::providers::{
    codex_provider_or_refusal, extract_codex_api_key, init_providers, passed_on_status,
    provider_request_for, proxy_error_message, stream_api_key_or_refusal, stream_chat_body,
    upstream_request_refusal, upstream_status_refusal, upstream_succeeded, OpenAIProvider,
    ProxyRefusal,
};
use llm_proxy_manager::stream::{
    classify_line, random_stream_id, sse_frame, ResponseEvent, StreamLine, StreamConverter,
};

fn s(v: &str) -> JsonValue {
    JsonValue::Str(v.to_string())
}

fn obj(members: Vec<(&str, JsonValue)>) -> JsonValue {
    JsonValue::Object(members.into_iter().map(|(k, v)| (k.to_string(), v)).collect())
}

fn delta_chunk(texts: &[&str]) -> JsonValue {
    obj(vec![(
        "choices",
        JsonValue::Array(
            texts
                .iter()
                .map(|t| obj(vec![("delta", obj(vec![("content", s(t))]))]))
                .collect(),
        ),
    )])
}

#[test]
fn lines_are_classified() {
    assert_eq!(classify_line(b"\n"), StreamLine::Skip);
    assert_eq!(classify_line(b": keep-alive\n"), StreamLine::Skip);
    assert_eq!(classify_line(b"data: [DONE]\n"), StreamLine::Done);
    assert_eq!(classify_line(b"  data: [DONE]  \r\n"), StreamLine::Done);
    assert_eq!(
        classify_line(b"data: {\"a\":1}\r\n"),
        StreamLine::Data("{\"a\":1}".to_string())
    );
    assert_eq!(
        classify_line(b"data: data:  x \n"),
        StreamLine::Data("x".to_string())
    );
    assert_eq!(
        classify_line(b"data: data:x\n"),
        StreamLine::Data("data:x".to_string())
    );
    assert_eq!(classify_line(b"data: data: x\n"), StreamLine::Data("x".to_string()));
    assert_eq!(classify_line(b"data:x\n"), StreamLine::Skip);
}

#[test]
fn converter_splits_lines_across_chunks() {
    let mut t = StreamConverter::new("abcdefghijklmnopqrstuvwx");
    t.push_bytes(b"data: {\"x\"");
    assert_eq!(t.next_line(), None);
    t.push_bytes(b":1}\n\ndata: [DO");
    assert_eq!(t.next_line(), Some(StreamLine::Data("{\"x\":1}".to_string())));
    assert_eq!(t.next_line(), Some(StreamLine::Skip));
    assert_eq!(t.next_line(), None);
    t.push_bytes(b"NE]\n");
    assert_eq!(t.next_line(), Some(StreamLine::Done));
    assert_eq!(t.next_line(), None);
}

#[test]
fn converter_event_sequence() {
    let mut t = StreamConverter::new("abcdefghijklmnopqrstuvwx");
    let first = t.on_chunk(&delta_chunk(&["Hel", ""]));
    assert_eq!(
        first,
        vec![
            ResponseEvent::Created,
            ResponseEvent::ItemAdded,
            ResponseEvent::PartAdded,
            ResponseEvent::TextDelta("Hel".into()),
        ]
    );
    let second = t.on_chunk(&delta_chunk(&["lo", "!"]));
    assert_eq!(
        second,
        vec![
            ResponseEvent::TextDelta("lo".into()),
            ResponseEvent::TextDelta("!".into())
        ]
    );
    assert_eq!(t.on_chunk(&JsonValue::Null), vec![]);
    assert_eq!(
        t.on_done(),
        vec![ResponseEvent::ItemDone, ResponseEvent::Completed { with_item: true }]
    );
    assert_eq!(t.on_done(), vec![]);
    assert_eq!(t.finish(), vec![]);
}

#[test]
fn stream_ending_without_done_completes_with_empty_output() {
    let mut t = StreamConverter::new("abcdefghijklmnopqrstuvwx");
    assert_eq!(
        t.on_stream_error("reset"),
        ResponseEvent::Error("Stream error: reset".into())
    );
    assert_eq!(
        t.finish(),
        vec![ResponseEvent::ItemDone, ResponseEvent::Completed { with_item: false }]
    );
    assert_eq!(t.finish(), vec![]);
}

#[test]
fn event_bodies_carry_the_ids() {
    let t = StreamConverter::new("abcdefghijklmnopqrstuvwx");
    let created = t.event_json(&ResponseEvent::Created);
    let resp = created.get("response").unwrap();
    assert_eq!(created.get("type").unwrap(), &s("response.created"));
    assert_eq!(resp.get("id").unwrap(), &s("resp-abcdefghijklmnopqrstuvwx"));
    assert_eq!(resp.get("status").unwrap(), &s("in_progress"));
    let delta = t.event_json(&ResponseEvent::TextDelta("hi".into()));
    assert_eq!(delta.get("item_id").unwrap(), &s("item-abcdefghijklmnop"));
    assert_eq!(delta.get("delta").unwrap(), &s("hi"));
    assert_eq!(delta.get("output_index").unwrap(), &JsonValue::Number("0".into()));
    let done = t.event_json(&ResponseEvent::Completed { with_item: true });
    let output = done.get("response").unwrap().get("output").unwrap();
    assert_eq!(output.as_array().unwrap().len(), 1);
    let err = t.event_json(&ResponseEvent::Error("Stream error: x".into()));
    assert_eq!(
        err,
        obj(vec![
            ("type", s("error")),
            ("error", obj(vec![("message", s("Stream error: x"))]))
        ])
    );
}

#[test]
fn random_ids_are_alphanumeric() {
    let a = random_stream_id();
    let b = random_stream_id();
    assert_eq!(a.chars().count(), 24);
    assert!(a.chars().all(|c| c.is_ascii_alphanumeric()));
    assert_ne!(a, b);
    let t = StreamConverter::new_random();
    let created = t.event_json(&ResponseEvent::Created);
    let id = created.get("response").unwrap().get("id").unwrap().as_str().unwrap().clone();
    assert!(id.starts_with("resp-"));
    assert_eq!(id.len(), 29);
    let r = &id[5..];
    assert!(r.chars().all(|c| c.is_ascii_alphanumeric()));
    let delta = t.event_json(&ResponseEvent::TextDelta("x".into()));
    let item_id = delta.get("item_id").unwrap().as_str().unwrap().clone();
    assert_eq!(item_id, format!("item-{}", &r[..16]));
}

#[test]
fn stream_deltas_follow_the_upstream_contents_in_order() {
    let chunks = vec![
        delta_chunk(&["Hel", ""]),
        delta_chunk(&[]),
        delta_chunk(&["lo", ", ", "world"]),
    ];
    let mut t = StreamConverter::new("abcdefghijklmnopqrstuvwx");
    let mut texts: Vec<String> = Vec::new();
    for c in &chunks {
        for ev in t.on_chunk(c) {
            if let ResponseEvent::TextDelta(d) = ev {
                texts.push(d);
            }
        }
    }
    for ev in t.on_done() {
        assert!(!matches!(ev, ResponseEvent::TextDelta(_)));
    }
    assert_eq!(texts, vec!["Hel", "lo", ", ", "world"]);
    assert_eq!(texts.concat(), "Hello, world");
}

#[test]
fn proxy_refusals() {
    let registry = init_providers();
    assert!(codex_provider_or_refusal(Some(&registry)).is_ok());
    assert_eq!(
        codex_provider_or_refusal(None).unwrap_err(),
        ProxyRefusal { status: 503, message: "Codex provider not configured".into() }
    );
    assert_eq!(
        stream_api_key_or_refusal(None, &obj(vec![])).unwrap_err(),
        ProxyRefusal { status: 401, message: "Missing API key".into() }
    );
    assert_eq!(
        stream_api_key_or_refusal(Some("Bearer sk-1"), &obj(vec![])),
        Ok("sk-1".to_string())
    );
    assert!(upstream_succeeded(200));
    assert!(upstream_succeeded(299));
    assert!(!upstream_succeeded(300));
    assert!(!upstream_succeeded(199));
    assert_eq!(
        upstream_request_refusal("timed out"),
        ProxyRefusal { status: 502, message: "Upstream request failed: timed out".into() }
    );
    assert_eq!(
        upstream_status_refusal("429 Too Many Requests", "slow down"),
        ProxyRefusal { status: 502, message: "Upstream error (429 Too Many Requests): slow down".into() }
    );
}

#[test]
fn sse_frames() {
    assert_eq!(sse_frame("{}"), "data: {}\n\n");
}

#[test]
fn api_key_comes_from_bearer_header_then_body() {
    let body = obj(vec![("api_key", s("sk-body"))]);
    assert_eq!(
        extract_codex_api_key(Some("Bearer sk-head"), &body),
        Some("sk-head".to_string())
    );
    assert_eq!(
        extract_codex_api_key(Some("Basic abc"), &body),
        Some("sk-body".to_string())
    );
    assert_eq!(extract_codex_api_key(None, &JsonValue::Null), None);
    assert_eq!(extract_codex_api_key(Some("Bearer "), &JsonValue::Null), Some(String::new()));
}

#[test]
fn stream_body_asks_for_streaming_and_usage() {
    let body = obj(vec![("model", s("m")), ("input", s("hi"))]);
    let out = stream_chat_body(&body);
    assert_eq!(out.get("stream"), Some(&JsonValue::Bool(true)));
    assert_eq!(
        out.get("stream_options"),
        Some(&obj(vec![("include_usage", JsonValue::Bool(true))]))
    );
    assert_eq!(out.get("model"), Some(&s("m")));
}

#[test]
fn provider_registry_and_requests() {
    let registry = init_providers();
    assert!(registry.get_provider("codex").is_some());
    assert!(registry.get_provider("gemini").is_none());
    let p = OpenAIProvider;
    assert_eq!(p.provider_name(), "codex");
    assert_eq!(p.provider_base_url(), "https://api.openai.com/v1");
    let models = p.provider_default_models();
    assert_eq!(models.len(), 14);
    assert_eq!(models[0], "PasGPT-5-Codex");
    assert_eq!(models[13], "GPT-5.5 Pro");
    let body = obj(vec![("model", s("GPT-5.1"))]);
    let req = provider_request_for(&body);
    assert_eq!(req.model, "GPT-5.1");
    assert_eq!(req.body, body);
    assert_eq!(req.account_id, "");
    assert_eq!(provider_request_for(&JsonValue::Null).model, "");
    assert_eq!(passed_on_status(404), 404);
    assert_eq!(passed_on_status(42), 200);
    assert_eq!(passed_on_status(1000), 200);
    assert_eq!(proxy_error_message("boom"), "Codex proxy error: boom");
}

#[test]
fn invalid_utf8_is_replaced_before_classifying() {
    assert_eq!(
        classify_line(b"data: a\xffb\n"),
        StreamLine::Data("a\u{FFFD}b".to_string())
    );
    assert_eq!(
        llm_proxy_manager::stream::classify_text("\u{3000}data: [DONE]\u{a0}"),
        StreamLine::Done
    );
}

#[test]
fn provider_trait_describes_codex() {
    let p = OpenAIProvider;
    assert_eq!(p.name(), "codex");
    assert_eq!(p.base_url(), "https://api.openai.com/v1");
    assert_eq!(p.default_models(), p.provider_default_models());
}

#[test]
fn lines_become_events_and_unparsed_data_is_skipped() {
    let mut t = StreamConverter::new("abcdefghijklmnopqrstuvwx");
    assert_eq!(t.on_line(&StreamLine::Skip, None), vec![]);
    assert_eq!(t.on_line(&StreamLine::Data("{oops".into()), None), vec![]);
    let chunk = delta_chunk(&["hi"]);
    assert_eq!(
        t.on_line(&StreamLine::Data("x".into()), Some(&chunk)),
        vec![
            ResponseEvent::Created,
            ResponseEvent::ItemAdded,
            ResponseEvent::PartAdded,
            ResponseEvent::TextDelta("hi".into()),
        ]
    );
    assert_eq!(
        t.on_line(&StreamLine::Done, None),
        vec![ResponseEvent::ItemDone, ResponseEvent::Completed { with_item: true }]
    );
    assert_eq!(t.close(None), vec![]);
}

#[test]
fn closing_after_a_transport_error_reports_it_then_completes() {
    let mut t = StreamConverter::new("abcdefghijklmnopqrstuvwx");
    assert_eq!(
        t.close(Some("reset")),
        vec![
            ResponseEvent::Error("Stream error: reset".into()),
            ResponseEvent::ItemDone,
            ResponseEvent::Completed { with_item: false },
        ]
    );
    let mut u = StreamConverter::new("abcdefghijklmnopqrstuvwx");
    assert_eq!(
        u.close(None),
        vec![ResponseEvent::ItemDone, ResponseEvent::Completed { with_item: false }]
    );
    let mut done = StreamConverter::new("abcdefghijklmnopqrstuvwx");
    done.on_done();
    assert_eq!(done.close(Some("x")), vec![ResponseEvent::Error("Stream error: x".into())]);
}
