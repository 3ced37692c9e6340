use llm_proxy_manager::oauth_flow::{callback_params_from_pairs, submitted_code_from_pairs};
use llm_proxy_manager::oauth_codex::{pkce_challenge_for, CodexTokenResponse, PkcePair, CODEX_CLIENT_ID};
use llm_proxy_manager::oauth_flow::{callback_query_from_bytes, codex_exchange_form, complete_prepare_with, prepare_oauth_flow_manually_with};
use llm_proxy_manager::oauth_flow::{
    begin_prepare, callback_outcome, callback_query, callback_redirect_uri, callback_state_valid,
    cancel_oauth_flow, check_manual_submission, complete_prepare, codex_flow_token, existing_flow_matches_request,
    extract_submitted_code, finish_oauth_flow, install_prepared_flow, new_flow_endpoint,
    oauth_fail_html, oauth_success_html, oauth_url_generated_payload, prepare_oauth_flow_manually,
    provider_is_codex, received_code, resolve_auth_target, take_code_receiver, OAuthFlowRecord,
    PrepareStep,
};

fn fake_flow(provider: Option<&str>, client_key: &str) -> OAuthFlowRecord {
    OAuthFlowRecord {
        auth_url: "https://example.test/auth".to_string(),
        redirect_uri: "http://localhost/oauth-callback".to_string(),
        state: "state".to_string(),
        client_key: client_key.to_string(),
        provider: provider.map(|value| value.to_string()),
        pkce_verifier: None,
        receiver_waiting: true,
    }
}

#[test]
fn existing_gemini_flow_does_not_match_codex_request() {
    let flow = fake_flow(None, "gemini-client");

    assert!(!existing_flow_matches_request(&flow, None, Some("codex")));
}

#[test]
fn existing_codex_flow_does_not_match_gemini_request() {
    let requested_key = "gemini-client".to_string();
    let flow = fake_flow(Some("codex"), "codex");

    assert!(!existing_flow_matches_request(
        &flow,
        Some(&requested_key),
        None
    ));
}

#[test]
fn existing_flow_matches_same_provider_and_client_key() {
    let requested_key = "gemini-client".to_string();
    let flow = fake_flow(None, "gemini-client");

    assert!(existing_flow_matches_request(
        &flow,
        Some(&requested_key),
        None
    ));
}

#[test]
fn requested_client_key_is_compared_in_lower_case() {
    let requested_key = "Gemini-CLIENT".to_string();
    let flow = fake_flow(None, "gemini-client");
    assert!(existing_flow_matches_request(&flow, Some(&requested_key), None));
    let flow = fake_flow(None, "Gemini-Client");
    assert!(!existing_flow_matches_request(&flow, Some(&requested_key), None));
}

#[test]
fn oauth_url_generated_payload_defaults_to_gemini_provider() {
    let payload = oauth_url_generated_payload("https://example.test/gemini".to_string(), None);

    assert_eq!(payload.url, "https://example.test/gemini");
    assert_eq!(payload.provider, "gemini");
}

#[test]
fn oauth_url_generated_payload_preserves_codex_provider() {
    let payload =
        oauth_url_generated_payload("https://example.test/codex".to_string(), Some("codex"));

    assert_eq!(payload.url, "https://example.test/codex");
    assert_eq!(payload.provider, "codex");
}

fn gemini_target(state: &str) -> Result<(String, String), String> {
    Ok((
        format!("https://accounts.example.test/o/oauth2/auth?state={}", state),
        "test".to_string(),
    ))
}

/// Prepares a flow the way the loopback preparation does, with listeners.
fn prepare(
    slot: &mut Option<OAuthFlowRecord>,
    key: Option<String>,
    provider: Option<&str>,
) -> Result<String, String> {
    match begin_prepare(slot, key.as_ref(), provider) {
        PrepareStep::Reuse(url) => Ok(url),
        PrepareStep::Fresh { .. } => {
            let endpoint = new_flow_endpoint(43210, true, true);
            let gemini = gemini_target(&endpoint.state);
            complete_prepare(slot, endpoint, provider, gemini)
        }
    }
}

#[test]
fn ensure_oauth_flow_prepared_replaces_existing_provider_flow() {
    let mut slot: Option<OAuthFlowRecord> = None;
    cancel_oauth_flow(&mut slot);

    let gemini_url = prepare(&mut slot, None, None).expect("Gemini flow should be prepared");
    assert!(gemini_url.contains("state="));

    let codex_url =
        prepare(&mut slot, None, Some("codex")).expect("Codex flow should replace Gemini flow");
    assert_ne!(gemini_url, codex_url);

    let state = slot.as_ref().expect("OAuth flow state should exist");
    assert_eq!(state.provider.as_deref(), Some("codex"));
    assert!(state.receiver_waiting);

    cancel_oauth_flow(&mut slot);
}

#[test]
fn codex_flow_keeps_verifier_whose_challenge_is_in_the_url() {
    let mut slot: Option<OAuthFlowRecord> = None;
    let url = prepare(&mut slot, None, Some("codex")).unwrap();
    let f = slot.as_ref().unwrap();
    assert_eq!(f.client_key, "codex");
    let verifier = f.pkce_verifier.clone().expect("a Codex flow keeps its PKCE verifier");
    assert_eq!(verifier.len(), 43);
    let parsed = url::Url::parse(&url).unwrap();
    let q: std::collections::HashMap<_, _> = parsed.query_pairs().into_owned().collect();
    assert_eq!(q.get("code_challenge"), Some(&pkce_challenge_for(&verifier)));
    assert_eq!(q.get("code_challenge_method").map(|s| s.as_str()), Some("S256"));
    assert_eq!(q.get("state"), Some(&f.state));

    let ticket = take_code_receiver(&mut slot).unwrap();
    assert_eq!(ticket.pkce_verifier.as_deref(), Some(verifier.as_str()));
    let form = codex_exchange_form("the-code", &ticket);
    assert_eq!(
        form,
        vec![
            ("client_id".to_string(), CODEX_CLIENT_ID.to_string()),
            ("code".to_string(), "the-code".to_string()),
            ("redirect_uri".to_string(), "http://localhost:43210/oauth-callback".to_string()),
            ("grant_type".to_string(), "authorization_code".to_string()),
            ("code_verifier".to_string(), verifier.clone()),
        ]
    );
}

#[test]
fn gemini_flow_has_no_verifier() {
    let mut slot: Option<OAuthFlowRecord> = None;
    prepare(&mut slot, None, None).unwrap();
    assert!(slot.as_ref().unwrap().pkce_verifier.is_none());
    let ticket = take_code_receiver(&mut slot).unwrap();
    let form = codex_exchange_form("c", &ticket);
    assert_eq!(form[4], ("code_verifier".to_string(), String::new()));
}

#[test]
fn prepare_with_a_given_pair_uses_its_challenge_and_verifier() {
    let mut slot: Option<OAuthFlowRecord> = None;
    let endpoint = new_flow_endpoint(5, true, false);
    let pair = PkcePair { verifier: "v-1".into(), challenge: "c-1".into() };
    let url = complete_prepare_with(&mut slot, endpoint, Some("codex"), Some(pair), Err("x".into()))
        .unwrap();
    assert!(url.contains("code_challenge=c-1"));
    assert_eq!(slot.as_ref().unwrap().pkce_verifier.as_deref(), Some("v-1"));
    let mut other: Option<OAuthFlowRecord> = None;
    let pair = PkcePair { verifier: "v-2".into(), challenge: "c-2".into() };
    let r = prepare_oauth_flow_manually_with(
        &mut other,
        "r".into(),
        "s".into(),
        None,
        Some(pair),
        gemini_target("s"),
    )
    .unwrap();
    assert!(!r.0.contains("code_challenge"));
    assert!(other.as_ref().unwrap().pkce_verifier.is_none());
}

#[test]
fn same_request_reuses_the_waiting_flow() {
    let mut slot: Option<OAuthFlowRecord> = None;
    let first = prepare(&mut slot, None, Some("codex")).unwrap();
    let second = prepare(&mut slot, None, Some("codex")).unwrap();
    assert_eq!(first, second);
    assert_eq!(
        begin_prepare(&mut slot, None, Some("codex")),
        PrepareStep::Reuse(first)
    );
}

#[test]
fn taken_flow_is_replaced_and_cannot_be_taken_twice() {
    let mut slot: Option<OAuthFlowRecord> = None;
    let url = prepare(&mut slot, None, None).unwrap();
    let ticket = take_code_receiver(&mut slot).unwrap();
    assert_eq!(ticket.client_key, "test");
    assert_eq!(ticket.redirect_uri, "http://localhost:43210/oauth-callback");
    assert_eq!(
        take_code_receiver(&mut slot).unwrap_err(),
        "OAuth authorization already in progress"
    );
    assert_eq!(
        begin_prepare(&mut slot, None, None),
        PrepareStep::Fresh { cancelled: true }
    );
    assert!(slot.is_none());
    assert_eq!(take_code_receiver(&mut slot).unwrap_err(), "OAuth state does not exist");
    let again = prepare(&mut slot, None, None).unwrap();
    assert_ne!(url, again);
}

#[test]
fn cancel_reports_whether_a_flow_was_active() {
    let mut slot = Some(fake_flow(None, "k"));
    assert!(cancel_oauth_flow(&mut slot));
    assert!(slot.is_none());
    assert!(!cancel_oauth_flow(&mut slot));
}

#[test]
fn redirect_uri_names_the_listening_stacks() {
    assert_eq!(
        callback_redirect_uri(8080, true, true),
        "http://localhost:8080/oauth-callback"
    );
    assert_eq!(
        callback_redirect_uri(0, true, false),
        "http://127.0.0.1:0/oauth-callback"
    );
    assert_eq!(
        callback_redirect_uri(65535, false, true),
        "http://[::1]:65535/oauth-callback"
    );
}

#[test]
fn new_flow_state_is_a_hyphenated_uuid() {
    let a = new_flow_endpoint(1, true, true);
    let b = new_flow_endpoint(1, true, true);
    assert_eq!(a.state.len(), 36);
    assert!(uuid::Uuid::parse_str(&a.state).is_ok());
    assert_ne!(a.state, b.state);
}

#[test]
fn codex_target_uses_codex_url_and_key() {
    assert!(provider_is_codex(Some("codex")));
    assert!(!provider_is_codex(Some("gemini")));
    assert!(!provider_is_codex(None));
    let (url, key) = resolve_auth_target(
        Some("codex"),
        "http://localhost:1/oauth-callback",
        "st",
        "chal",
        Err("gemini not used".into()),
    )
    .unwrap();
    assert!(url.starts_with("https://auth.openai.com/authorize?"));
    assert!(url.contains("state=st"));
    assert!(url.contains("code_challenge=chal"));
    assert!(url.contains("code_challenge_method=S256"));
    assert_eq!(key, "codex");
    assert_eq!(
        resolve_auth_target(None, "r", "s", "chal", Err("no client".into())),
        Err("no client".to_string())
    );
}

#[test]
fn failed_target_installs_nothing() {
    let mut slot = Some(fake_flow(None, "k"));
    let r = install_prepared_flow(
        &mut slot,
        Err("bad".into()),
        "r".into(),
        "s".into(),
        None,
        None,
        true,
    );
    assert_eq!(r, Err("bad".to_string()));
    assert_eq!(slot.as_ref().unwrap().client_key, "k");
}

#[test]
fn callback_query_reads_code_and_state_of_request_line() {
    let req = "GET /oauth-callback?code=abc%2F1&state=xyz HTTP/1.1\r\nHost: localhost\r\n\r\n";
    assert_eq!(
        callback_query(req),
        (Some("abc/1".to_string()), Some("xyz".to_string()))
    );
    let req = "GET /oauth-callback?code=first&code=second HTTP/1.1\r\n";
    assert_eq!(callback_query(req), (Some("second".to_string()), None));
    assert_eq!(callback_query(""), (None, None));
    assert_eq!(callback_query("GET\r\n"), (None, None));
    assert_eq!(callback_query("GET /nothing HTTP/1.1"), (None, None));
}

#[test]
fn callback_state_must_match_the_active_flow() {
    let slot = Some(fake_flow(None, "k"));
    assert!(callback_state_valid(&slot, &Some("state".into())));
    assert!(!callback_state_valid(&slot, &Some("other".into())));
    assert!(!callback_state_valid(&slot, &None));
    assert!(!callback_state_valid(&None, &Some("state".into())));
}

#[test]
fn callback_outcome_accepts_code_only_with_valid_state() {
    let (r, html) = callback_outcome(Some("c".into()), true);
    assert_eq!(r, Ok("c".to_string()));
    assert_eq!(html, oauth_success_html());
    assert!(html.starts_with("HTTP/1.1 200 OK\r\n"));
    let (r, html) = callback_outcome(Some("c".into()), false);
    assert_eq!(r, Err("OAuth state mismatch".to_string()));
    assert_eq!(html, oauth_fail_html());
    assert!(html.starts_with("HTTP/1.1 400 Bad Request\r\n"));
    let (r, _) = callback_outcome(None, true);
    assert_eq!(
        r,
        Err("Failed to get Authorization Code in callback".to_string())
    );
}

#[test]
fn manual_submission_checks() {
    assert_eq!(
        check_manual_submission(&None, &None),
        Err("No active OAuth flow found".to_string())
    );
    let slot = Some(fake_flow(None, "k"));
    assert_eq!(check_manual_submission(&slot, &None), Ok(()));
    assert_eq!(check_manual_submission(&slot, &Some("state".into())), Ok(()));
    assert_eq!(
        check_manual_submission(&slot, &Some("forged".into())),
        Err("OAuth state mismatch (CSRF protection)".to_string())
    );
}

#[test]
fn submitted_code_is_taken_from_a_url() {
    assert_eq!(
        extract_submitted_code("http://localhost/cb?state=s&code=one&code=two".into()),
        "one"
    );
    assert_eq!(extract_submitted_code("plain-code".into()), "plain-code");
    assert_eq!(
        extract_submitted_code("http://localhost/cb?state=s".into()),
        "http://localhost/cb?state=s"
    );
    assert_eq!(extract_submitted_code("http not a url".into()), "http not a url");
}

#[test]
fn manual_preparation_replaces_flow_without_waiting_receiver() {
    let mut slot = Some(fake_flow(None, "k"));
    let (url, cancelled) = prepare_oauth_flow_manually(
        &mut slot,
        "https://remote.test/oauth-callback".into(),
        "st".into(),
        Some("codex"),
        Err("unused".into()),
    )
    .unwrap();
    assert!(cancelled);
    assert!(url.contains("state=st"));
    let f = slot.as_ref().unwrap();
    assert!(!f.receiver_waiting);
    assert_eq!(f.client_key, "codex");
    let verifier = f.pkce_verifier.clone().expect("a Codex flow keeps its PKCE verifier");
    let challenge = pkce_challenge_for(&verifier);
    assert!(url.contains(&format!("code_challenge={}", challenge)));
    assert_eq!(
        take_code_receiver(&mut slot).unwrap_err(),
        "OAuth authorization already in progress"
    );
    let mut empty = None;
    let r = prepare_oauth_flow_manually(&mut empty, "r".into(), "s".into(), None, Err("e".into()));
    assert_eq!(r, Err("e".to_string()));
    assert!(empty.is_none());
}

#[test]
fn received_code_and_finish() {
    assert_eq!(received_code(Some(Ok("c".into()))), Ok("c".to_string()));
    assert_eq!(received_code(Some(Err("e".into()))), Err("e".to_string()));
    assert_eq!(
        received_code(None),
        Err("OAuth flow channel closed unexpectedly".to_string())
    );
    let mut slot = Some(fake_flow(None, "k"));
    finish_oauth_flow(&mut slot);
    assert!(slot.is_none());
}

#[test]
fn codex_flow_token_is_marked_codex() {
    let t = codex_flow_token(CodexTokenResponse {
        access_token: "a".into(),
        expires_in: 10,
        token_type: "bearer".into(),
        refresh_token: None,
    });
    assert_eq!(t.oauth_client_key.as_deref(), Some("codex"));
    assert_eq!(t.access_token, "a");
    assert_eq!(t.expires_in, 10);
}

#[test]
fn query_pair_selection() {
    let pairs = vec![
        ("code".to_string(), "1".to_string()),
        ("state".to_string(), "s1".to_string()),
        ("code".to_string(), "2".to_string()),
    ];
    assert_eq!(
        callback_params_from_pairs(Some(pairs.clone())),
        (Some("2".to_string()), Some("s1".to_string()))
    );
    assert_eq!(callback_params_from_pairs(None), (None, None));
    assert_eq!(submitted_code_from_pairs("in".into(), Some(pairs)), "1");
    assert_eq!(submitted_code_from_pairs("in".into(), Some(vec![])), "in");
    assert_eq!(submitted_code_from_pairs("in".into(), None), "in");
}

#[test]
fn callback_request_bytes_are_decoded_then_read() {
    let req = b"GET /oauth-callback?code=c%2F1&state=s HTTP/1.1\r\nHost: x\xff\r\n\r\n";
    assert_eq!(
        callback_query_from_bytes(req),
        (Some("c/1".to_string()), Some("s".to_string()))
    );
    assert_eq!(callback_query_from_bytes(b""), (None, None));
}

#[test]
fn codex_preparation_always_succeeds() {
    let mut slot: Option<OAuthFlowRecord> = None;
    let endpoint = new_flow_endpoint(7, true, true);
    assert!(complete_prepare(&mut slot, endpoint, Some("codex"), Err("unused".into())).is_ok());
    let mut manual: Option<OAuthFlowRecord> = None;
    assert!(prepare_oauth_flow_manually(
        &mut manual,
        "http://x.test/cb".into(),
        "st".into(),
        Some("codex"),
        Err("unused".into())
    )
    .is_ok());
}
