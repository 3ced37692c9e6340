use llm_proxy_manager::oauth_codex::codex_token_step_now;
use llm_proxy_manager::oauth_codex::{
    apply_codex_refresh, auth_url_from_serialized, codex_auth_query, codex_token_step,
    exchange_code_form, generate_pkce_pair, get_codex_auth_url, pkce_challenge_for,
    pkce_pair_from_bytes, refresh_token_form, request_failed_message, status_failed,
    token_reply_outcome, user_info_reply_outcome, CodexCall, CodexTokenResponse, CodexTokenStep,
    CodexUserInfo, TokenData, AUTH_URL, CODEX_CLIENT_ID, TOKEN_URL,
};

#[test]
fn test_get_codex_auth_url_contains_params() {
    let redirect_uri = "http://localhost:8080/callback";
    let state = "test-state-123456";
    let url = get_codex_auth_url(redirect_uri, state, "test-challenge").unwrap();

    assert!(url.contains("state=test-state-123456"));
    assert!(url.contains("redirect_uri=http%3A%2F%2Flocalhost%3A8080%2Fcallback"));
    assert!(url.contains("response_type=code"));
    assert!(url.contains("client_id="));
    assert!(url.contains("scope=read%3Auser+user%3Aemail"));
}

#[test]
fn test_get_codex_auth_url_parseable() {
    let redirect_uri = "http://localhost:8080/callback";
    let state = "test-state";
    let url = get_codex_auth_url(redirect_uri, state, "test-challenge").unwrap();

    let parsed = url::Url::parse(&url).expect("Should be valid URL");
    let query_params: std::collections::HashMap<_, _> = parsed.query_pairs().collect();

    assert_eq!(
        query_params.get("client_id").map(|s| s.as_ref()),
        Some(CODEX_CLIENT_ID)
    );
    assert_eq!(
        query_params.get("response_type").map(|s| s.as_ref()),
        Some("code")
    );
    assert_eq!(
        query_params.get("redirect_uri").map(|s| s.as_ref()),
        Some(redirect_uri)
    );
    assert_eq!(query_params.get("state").map(|s| s.as_ref()), Some(state));
    assert_eq!(
        query_params.get("scope").map(|s| s.as_ref()),
        Some("read:user user:email")
    );
}

#[test]
fn auth_url_is_exactly_the_serialized_authorize_url() {
    let url = get_codex_auth_url("http://127.0.0.1:1234/oauth-callback", "abc", "xyz").unwrap();
    assert_eq!(
        url,
        "https://auth.openai.com/authorize?client_id=Iv23liYYMXqioBpr4S8N&redirect_uri=http%3A%2F%2F127.0.0.1%3A1234%2Foauth-callback&response_type=code&scope=read%3Auser+user%3Aemail&state=abc&code_challenge=xyz&code_challenge_method=S256"
    );
}

#[test]
fn auth_url_carries_the_pkce_challenge_on_the_openai_host() {
    let url = get_codex_auth_url("http://localhost:1/cb", "s", "the-challenge").unwrap();
    let parsed = url::Url::parse(&url).unwrap();
    assert_eq!(parsed.host_str(), Some("auth.openai.com"));
    assert_eq!(parsed.path(), "/authorize");
    let q: std::collections::HashMap<_, _> = parsed.query_pairs().into_owned().collect();
    assert_eq!(q.get("code_challenge").map(|s| s.as_str()), Some("the-challenge"));
    assert_eq!(q.get("code_challenge_method").map(|s| s.as_str()), Some("S256"));
    assert!(!q.contains_key("client_secret"));
    assert!(!url.contains("github.com"));
    assert!(url.starts_with(AUTH_URL));
}

#[test]
fn auth_query_lists_parameters_in_order() {
    let q = codex_auth_query("r", "s", "c");
    let keys: Vec<&str> = q.iter().map(|(k, _)| k.as_str()).collect();
    assert_eq!(
        keys,
        vec![
            "client_id",
            "redirect_uri",
            "response_type",
            "scope",
            "state",
            "code_challenge",
            "code_challenge_method"
        ]
    );
}

#[test]
fn auth_url_parse_error_is_prefixed() {
    assert_eq!(
        auth_url_from_serialized(Err("relative URL without a base".to_string())),
        Err("Invalid Auth URL: relative URL without a base".to_string())
    );
    assert_eq!(
        auth_url_from_serialized(Ok("https://x.test/".to_string())),
        Ok("https://x.test/".to_string())
    );
}

#[test]
fn exchange_form_lists_fields_in_order() {
    let form = exchange_code_form("the-code", "http://localhost/cb", "the-verifier");
    let expected: Vec<(String, String)> = vec![
        ("client_id".into(), "Iv23liYYMXqioBpr4S8N".into()),
        ("code".into(), "the-code".into()),
        ("redirect_uri".into(), "http://localhost/cb".into()),
        ("grant_type".into(), "authorization_code".into()),
        ("code_verifier".into(), "the-verifier".into()),
    ];
    assert_eq!(form, expected);
    assert!(form.iter().all(|(k, _)| k != "client_secret"));
}

#[test]
fn refresh_form_lists_fields_in_order() {
    let form = refresh_token_form("r-1");
    let expected: Vec<(String, String)> = vec![
        ("client_id".into(), "Iv23liYYMXqioBpr4S8N".into()),
        ("refresh_token".into(), "r-1".into()),
        ("grant_type".into(), "refresh_token".into()),
    ];
    assert_eq!(form, expected);
    assert!(form.iter().all(|(k, _)| k != "client_secret"));
}

#[test]
fn token_endpoint_is_the_openai_auth0_endpoint() {
    assert_eq!(TOKEN_URL, "https://auth0.openai.com/oauth/token");
}

#[test]
fn pkce_challenge_is_base64url_of_sha256() {
    assert_eq!(pkce_challenge_for("abc"), "ungWv48Bz-pBQUDeXa4iI7ADYaOWF3qctBD_YfIAFa0");
    assert_eq!(
        pkce_challenge_for("dBjftJeZ4CVP-mJ92K9aXcgXZGfWHzH0kTiEnm5MHmG4vS6Bfl3QX5NqDVYSGA3TQl"),
        "QDye5Thpgiv-I778GHGk_q2iwJ4J_4tNjXt1z-VYdoc"
    );
}

#[test]
fn pkce_pair_from_bytes_encodes_the_bytes() {
    let bytes: Vec<u8> = (0u8..32).collect();
    let pair = pkce_pair_from_bytes(&bytes);
    assert_eq!(pair.verifier, "AAECAwQFBgcICQoLDA0ODxAREhMUFRYXGBkaGxwdHh8");
    assert_eq!(pair.challenge, pkce_challenge_for(&pair.verifier));
}

#[test]
fn generated_pkce_pair_is_well_formed() {
    let pair = generate_pkce_pair();
    assert_eq!(pair.verifier.len(), 43);
    assert!(pair
        .verifier
        .chars()
        .all(|c| c.is_ascii_alphanumeric() || c == '-' || c == '_'));
    assert_eq!(pair.challenge.len(), 43);
    assert_eq!(pair.challenge, pkce_challenge_for(&pair.verifier));
    let other = generate_pkce_pair();
    assert_ne!(pair.verifier, other.verifier);
}

fn token(access: &str, refresh: Option<&str>) -> CodexTokenResponse {
    CodexTokenResponse {
        access_token: access.to_string(),
        expires_in: 3600,
        token_type: "bearer".to_string(),
        refresh_token: refresh.map(|s| s.to_string()),
    }
}

#[test]
fn token_reply_success_returns_parsed_token() {
    let r = token_reply_outcome(CodexCall::Exchange, true, "200 OK", Ok(token("a", None)), "");
    assert_eq!(r, Ok(token("a", None)));
}

#[test]
fn token_reply_parse_errors_are_prefixed_per_call() {
    let r = token_reply_outcome(CodexCall::Exchange, true, "200 OK", Err("eof".into()), "");
    assert_eq!(r, Err("Token parsing failed: eof".to_string()));
    let r = token_reply_outcome(CodexCall::Refresh, true, "200 OK", Err("eof".into()), "");
    assert_eq!(r, Err("Refresh data parsing failed: eof".to_string()));
}

#[test]
fn token_reply_failure_names_status_and_body() {
    let r = token_reply_outcome(
        CodexCall::Exchange,
        false,
        "400 Bad Request",
        Err("unused".into()),
        "bad code",
    );
    assert_eq!(
        r,
        Err("Token exchange failed (400 Bad Request): bad code".to_string())
    );
    let r = token_reply_outcome(
        CodexCall::Refresh,
        false,
        "401 Unauthorized",
        Ok(token("a", None)),
        "expired",
    );
    assert_eq!(r, Err("Refresh failed (401 Unauthorized): expired".to_string()));
}

#[test]
fn user_info_reply_outcomes() {
    let info = CodexUserInfo {
        login: "octo".into(),
        email: None,
        name: Some("Octo".into()),
        avatar_url: None,
    };
    let same = CodexUserInfo {
        login: "octo".into(),
        email: None,
        name: Some("Octo".into()),
        avatar_url: None,
    };
    assert_eq!(user_info_reply_outcome(true, Ok(info), ""), Ok(same));
    assert_eq!(
        user_info_reply_outcome(true, Err("bad json".into()), ""),
        Err("User info parsing failed: bad json".to_string())
    );
    assert_eq!(
        user_info_reply_outcome(false, Err("x".into()), "forbidden"),
        Err("Failed to get user info: forbidden".to_string())
    );
}

#[test]
fn request_failures_are_prefixed_per_call() {
    assert_eq!(
        request_failed_message(CodexCall::Exchange, "timeout"),
        "Token exchange request failed: timeout"
    );
    assert_eq!(
        request_failed_message(CodexCall::Refresh, "timeout"),
        "Refresh request failed: timeout"
    );
    assert_eq!(
        request_failed_message(CodexCall::UserInfo, "timeout"),
        "User info request failed: timeout"
    );
    assert_eq!(status_failed(CodexCall::UserInfo, "500", "x"), "Failed to get user info: x");
}

fn stored(expiry: i64) -> TokenData {
    TokenData {
        access_token: "old-access".into(),
        refresh_token: "old-refresh".into(),
        expires_in: 3600,
        expiry_timestamp: expiry,
        email: Some("a@b.test".into()),
    }
}

#[test]
fn fresh_token_is_used_and_expiring_token_is_refreshed() {
    let now = 1_000_000;
    assert_eq!(codex_token_step(&stored(now + 901), now), CodexTokenStep::UseCurrent);
    assert_eq!(
        codex_token_step(&stored(now + 900), now),
        CodexTokenStep::Refresh("old-refresh".into())
    );
    assert_eq!(
        codex_token_step(&stored(now - 5), now),
        CodexTokenStep::Refresh("old-refresh".into())
    );
}

#[test]
fn refresh_keeps_old_refresh_token_when_none_is_sent() {
    let t = apply_codex_refresh(&stored(0), token("new-access", None), 100);
    assert_eq!(t.access_token, "new-access");
    assert_eq!(t.refresh_token, "old-refresh");
    assert_eq!(t.expires_in, 3600);
    assert_eq!(t.expiry_timestamp, 3700);
    assert_eq!(t.email.as_deref(), Some("a@b.test"));
    let t = apply_codex_refresh(&stored(0), token("n", Some("new-refresh")), i64::MAX - 1);
    assert_eq!(t.refresh_token, "new-refresh");
    assert_eq!(t.expiry_timestamp, i64::MAX);
}

#[test]
fn token_step_reads_the_clock() {
    let (step, now) = codex_token_step_now(&stored(i64::MAX));
    assert_eq!(step, CodexTokenStep::UseCurrent);
    assert!(now > 1_600_000_000);
    let (step, _) = codex_token_step_now(&stored(0));
    assert_eq!(step, CodexTokenStep::Refresh("old-refresh".into()));
}
