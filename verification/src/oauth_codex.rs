//! Codex OAuth: the authorization URL, the token endpoint forms, how an
//! endpoint's reply becomes a result, and when a stored token is refreshed.
use vstd::prelude::*;
use base64::Engine;
use rand::RngCore;
use sha2::Digest;
use vstd::utf8::encode_utf8;
use crate::text::{concat_str, result_view, to_owned_string};

verus! {

/// The public OAuth client's id (a public client: it has no secret).
pub const CODEX_CLIENT_ID: &'static str = "Iv23liYYMXqioBpr4S8N";

/// The OpenAI authorization endpoint.
pub const AUTH_URL: &'static str = "https://auth.openai.com/authorize";

/// The OpenAI Auth0 token endpoint.
pub const TOKEN_URL: &'static str = "https://auth0.openai.com/oauth/token";

/// The user information endpoint.
pub const USER_API_URL: &'static str = "https://api.github.com/user";

/// A token that expires within this many seconds is refreshed.
pub const TOKEN_REFRESH_SKEW_SECONDS: i64 = 900;

/// What the token endpoint returns.
#[derive(Debug, PartialEq, Eq)]
pub struct CodexTokenResponse {
    pub access_token: String,
    pub expires_in: i64,
    pub token_type: String,
    pub refresh_token: Option<String>,
}

/// What the user information endpoint returns.
#[derive(Debug, PartialEq, Eq)]
pub struct CodexUserInfo {
    pub login: String,
    pub email: Option<String>,
    pub name: Option<String>,
    pub avatar_url: Option<String>,
}

/// A stored account token.
#[derive(Debug, PartialEq, Eq)]
pub struct TokenData {
    pub access_token: String,
    pub refresh_token: String,
    pub expires_in: i64,
    /// Unix time (seconds) at which the access token expires.
    pub expiry_timestamp: i64,
    pub email: Option<String>,
}

/// A list of key/value pairs seen through the character views.
pub open spec fn pairs_view(pairs: Seq<(String, String)>) -> Seq<(Seq<char>, Seq<char>)> {
    Seq::new(pairs.len(), |i: int| (pairs[i].0@, pairs[i].1@))
}

/// The URL that `url::Url::parse_with_params(base, pairs)` serializes to, or
/// the text of its parse error.
pub uninterp spec fn url_with_query_pairs(
    base: Seq<char>,
    pairs: Seq<(Seq<char>, Seq<char>)>,
) -> Result<Seq<char>, Seq<char>>;

/// Calls `url::Url::parse_with_params` and serializes the URL with
/// `to_string`; on a parse error, returns the error's text. The contract
/// names the outcome as a function of the base text and the pairs, and
/// states that the authorization endpoint (a valid absolute URL) parses; the
/// url crate decides the percent-encoding, and nothing more of it is stated.
#[verifier::external_body]
fn serialize_url_with_params(base: &str, pairs: &Vec<(String, String)>) -> (r: Result<
    String,
    String,
>)
    ensures
        result_view(r) == url_with_query_pairs(base@, pairs_view(pairs@)),
        base@ == AUTH_URL@ ==> r is Ok,
{
    url::Url::parse_with_params(base, pairs).map(|u| u.to_string()).map_err(|e| e.to_string())
}

/// The query parameters of the Codex authorization URL, in order: the public
/// client, the redirect URI, the code response type, the scope, the CSRF
/// state, and the PKCE challenge with the `S256` method.
pub open spec fn codex_auth_params(
    redirect_uri: Seq<char>,
    state: Seq<char>,
    code_challenge: Seq<char>,
) -> Seq<(Seq<char>, Seq<char>)> {
    seq![
        ("client_id"@, CODEX_CLIENT_ID@),
        ("redirect_uri"@, redirect_uri),
        ("response_type"@, "code"@),
        ("scope"@, "read:user user:email"@),
        ("state"@, state),
        ("code_challenge"@, code_challenge),
        ("code_challenge_method"@, "S256"@),
    ]
}

/// How the serialized authorization URL becomes the function's result: the
/// URL itself, or the parse error prefixed with `Invalid Auth URL: `.
pub open spec fn auth_url_outcome(serialized: Result<Seq<char>, Seq<char>>) -> Result<
    Seq<char>,
    Seq<char>,
> {
    match serialized {
        Ok(u) => Ok(u),
        Err(e) => Err("Invalid Auth URL: "@ + e),
    }
}

/// A key/value pair of owned strings.
fn pair(k: &str, v: &str) -> (p: (String, String))
    ensures
        p.0@ == k@,
        p.1@ == v@,
{
    (to_owned_string(k), to_owned_string(v))
}

/// The authorization URL's query parameters.
pub fn codex_auth_query(redirect_uri: &str, state: &str, code_challenge: &str) -> (params: Vec<
    (String, String),
>)
    ensures
        pairs_view(params@) == codex_auth_params(redirect_uri@, state@, code_challenge@),
{
    let mut params: Vec<(String, String)> = Vec::new();
    params.push(pair("client_id", CODEX_CLIENT_ID));
    params.push(pair("redirect_uri", redirect_uri));
    params.push(pair("response_type", "code"));
    params.push(pair("scope", "read:user user:email"));
    params.push(pair("state", state));
    params.push(pair("code_challenge", code_challenge));
    params.push(pair("code_challenge_method", "S256"));
    assert(pairs_view(params@) =~= codex_auth_params(redirect_uri@, state@, code_challenge@));
    params
}

/// The result of the authorization URL builder for a given serialization
/// outcome.
pub fn auth_url_from_serialized(serialized: Result<String, String>) -> (r: Result<
    String,
    String,
>)
    ensures
        result_view(r) == auth_url_outcome(result_view(serialized)),
{
    match serialized {
        Ok(u) => Ok(u),
        Err(e) => Err(concat_str("Invalid Auth URL: ", e.as_str())),
    }
}

/// The Codex authorization URL for a redirect URI, a CSRF state value and a
/// PKCE code challenge. It is always built.
pub fn get_codex_auth_url(redirect_uri: &str, state: &str, code_challenge: &str) -> (r: Result<
    String,
    String,
>)
    ensures
        r is Ok,
        result_view(r) == auth_url_outcome(
            url_with_query_pairs(AUTH_URL@, codex_auth_params(redirect_uri@, state@, code_challenge@)),
        ),
{
    let params = codex_auth_query(redirect_uri, state, code_challenge);
    let serialized = serialize_url_with_params(AUTH_URL, &params);
    auth_url_from_serialized(serialized)
}

/// The form fields sent to exchange an authorization code: the public
/// client, the code, the redirect URI, the grant type and the PKCE code
/// verifier; no client secret.
pub open spec fn exchange_form_spec(
    code: Seq<char>,
    redirect_uri: Seq<char>,
    code_verifier: Seq<char>,
) -> Seq<(Seq<char>, Seq<char>)> {
    seq![
        ("client_id"@, CODEX_CLIENT_ID@),
        ("code"@, code),
        ("redirect_uri"@, redirect_uri),
        ("grant_type"@, "authorization_code"@),
        ("code_verifier"@, code_verifier),
    ]
}

/// The form fields sent to refresh a token; no client secret.
pub open spec fn refresh_form_spec(refresh_token: Seq<char>) -> Seq<(Seq<char>, Seq<char>)> {
    seq![
        ("client_id"@, CODEX_CLIENT_ID@),
        ("refresh_token"@, refresh_token),
        ("grant_type"@, "refresh_token"@),
    ]
}

/// No field of a form is named `client_secret`.
pub open spec fn has_no_client_secret(form: Seq<(Seq<char>, Seq<char>)>) -> bool {
    forall|i: int| 0 <= i < form.len() ==> #[trigger] form[i].0 != "client_secret"@
}

/// The form for exchanging an authorization code at the token endpoint.
pub fn exchange_code_form(code: &str, redirect_uri: &str, code_verifier: &str) -> (form: Vec<
    (String, String),
>)
    ensures
        pairs_view(form@) == exchange_form_spec(code@, redirect_uri@, code_verifier@),
{
    let mut form: Vec<(String, String)> = Vec::new();
    form.push(pair("client_id", CODEX_CLIENT_ID));
    form.push(pair("code", code));
    form.push(pair("redirect_uri", redirect_uri));
    form.push(pair("grant_type", "authorization_code"));
    form.push(pair("code_verifier", code_verifier));
    assert(pairs_view(form@) =~= exchange_form_spec(code@, redirect_uri@, code_verifier@));
    form
}

/// The form for refreshing a token at the token endpoint.
pub fn refresh_token_form(refresh_token: &str) -> (form: Vec<(String, String)>)
    ensures
        pairs_view(form@) == refresh_form_spec(refresh_token@),
{
    let mut form: Vec<(String, String)> = Vec::new();
    form.push(pair("client_id", CODEX_CLIENT_ID));
    form.push(pair("refresh_token", refresh_token));
    form.push(pair("grant_type", "refresh_token"));
    assert(pairs_view(form@) =~= refresh_form_spec(refresh_token@));
    form
}

/// The token endpoint forms of the public client never carry a client
/// secret.
pub proof fn lemma_forms_have_no_client_secret(
    code: Seq<char>,
    redirect_uri: Seq<char>,
    code_verifier: Seq<char>,
    refresh_token: Seq<char>,
)
    ensures
        has_no_client_secret(exchange_form_spec(code, redirect_uri, code_verifier)),
        has_no_client_secret(refresh_form_spec(refresh_token)),
{
    reveal_strlit("client_secret");
    reveal_strlit("client_id");
    reveal_strlit("code");
    reveal_strlit("redirect_uri");
    reveal_strlit("grant_type");
    reveal_strlit("code_verifier");
    reveal_strlit("refresh_token");
    let e = exchange_form_spec(code, redirect_uri, code_verifier);
    let r = refresh_form_spec(refresh_token);
    // Every key differs from `client_secret` in its length or second letter.
    assert forall|i: int| 0 <= i < e.len() implies #[trigger] e[i].0 != "client_secret"@ by {
        assert(e[i].0.len() != 13 || e[i].0[1] != 'l');
    }
    assert forall|i: int| 0 <= i < r.len() implies #[trigger] r[i].0 != "client_secret"@ by {
        assert(r[i].0.len() != 13 || r[i].0[1] != 'l');
    }
}

// ---------------------------------------------------------------------------
// PKCE (S256)
// ---------------------------------------------------------------------------

/// The URL-safe base64 alphabet: letters, digits, `-` and `_`.
pub open spec fn base64url_alphabet() -> Seq<char> {
    "ABCDEFGHIJKLMNOPQRSTUVWXYZabcdefghijklmnopqrstuvwxyz0123456789-_"@
}

/// The alphabet's character for a 6-bit value.
pub open spec fn b64_char(v: int) -> char {
    base64url_alphabet()[v]
}

/// URL-safe base64 without padding: each group of three bytes becomes four
/// characters of six bits each, most significant first; a final group of one
/// byte becomes two characters and one of two bytes three, the missing low
/// bits read as zero.
pub open spec fn base64url_text(bytes: Seq<u8>) -> Seq<char>
    decreases bytes.len(),
{
    let b0 = bytes[0] as int;
    let b1 = bytes[1] as int;
    let b2 = bytes[2] as int;
    if bytes.len() == 0 {
        Seq::<char>::empty()
    } else if bytes.len() == 1 {
        seq![b64_char(b0 / 4), b64_char((b0 % 4) * 16)]
    } else if bytes.len() == 2 {
        seq![b64_char(b0 / 4), b64_char((b0 % 4) * 16 + b1 / 16), b64_char((b1 % 16) * 4)]
    } else {
        seq![
            b64_char(b0 / 4),
            b64_char((b0 % 4) * 16 + b1 / 16),
            b64_char((b1 % 16) * 4 + b2 / 64),
            b64_char(b2 % 64),
        ] + base64url_text(bytes.subrange(3, bytes.len() as int))
    }
}

/// The unpadded encoding has four characters per three bytes, rounded up.
pub proof fn lemma_base64url_len(bytes: Seq<u8>)
    ensures
        base64url_text(bytes).len() == (4 * bytes.len() + 2) / 3,
    decreases bytes.len(),
{
    if bytes.len() >= 3 {
        lemma_base64url_len(bytes.subrange(3, bytes.len() as int));
    }
}

/// The SHA-256 digest `sha2::Sha256::digest` computes of a byte sequence.
pub uninterp spec fn sha256_digest(bytes: Seq<u8>) -> Seq<u8>;

/// The S256 code challenge of a code verifier: the URL-safe base64 (without
/// padding) of the SHA-256 digest of the verifier's bytes.
pub open spec fn pkce_challenge(verifier: Seq<char>) -> Seq<char> {
    base64url_text(sha256_digest(encode_utf8(verifier)))
}

/// Encodes bytes with `base64::engine::general_purpose::URL_SAFE_NO_PAD`
/// (URL-safe alphabet, no padding). The contract claims the text is the
/// standard unpadded URL-safe base64 of the bytes, as `base64url_text`
/// writes it out.
#[verifier::external_body]
fn base64url_no_pad(bytes: &[u8]) -> (s: String)
    requires
        bytes@.len() <= 1024,
    ensures
        s@ == base64url_text(bytes@),
{
    base64::engine::general_purpose::URL_SAFE_NO_PAD.encode(bytes)
}

/// The SHA-256 digest of bytes from `sha2::Sha256::digest`: 32 bytes, named
/// as a function of the input.
#[verifier::external_body]
fn sha256_of(bytes: &[u8]) -> (d: Vec<u8>)
    ensures
        d@ == sha256_digest(bytes@),
        d@.len() == 32,
{
    sha2::Sha256::digest(bytes).to_vec()
}

/// Thirty-two bytes from the thread-local random generator
/// (`rand::RngCore::fill_bytes`).
#[verifier::external_body]
fn random_32_bytes() -> (b: Vec<u8>)
    ensures
        b@.len() == 32,
{
    let mut b = vec![0u8; 32];
    rand::thread_rng().fill_bytes(&mut b);
    b
}

/// A PKCE verifier and its S256 challenge.
#[derive(Debug, PartialEq, Eq)]
pub struct PkcePair {
    pub verifier: String,
    pub challenge: String,
}

/// The S256 challenge of a code verifier.
pub fn pkce_challenge_for(verifier: &str) -> (challenge: String)
    ensures
        challenge@ == pkce_challenge(verifier@),
{
    let digest = sha256_of(verifier.as_bytes());
    base64url_no_pad(digest.as_slice())
}

/// A PKCE pair whose verifier is the URL-safe base64 of the given random
/// bytes, with its S256 challenge.
pub fn pkce_pair_from_bytes(random: &Vec<u8>) -> (pair: PkcePair)
    requires
        random@.len() == 32,
    ensures
        pair.verifier@ == base64url_text(random@),
        pair.challenge@ == pkce_challenge(pair.verifier@),
{
    let verifier = base64url_no_pad(random.as_slice());
    let challenge = pkce_challenge_for(verifier.as_str());
    PkcePair { verifier, challenge }
}

/// A fresh PKCE pair: a verifier from 32 random bytes and its S256 challenge.
pub fn generate_pkce_pair() -> (pair: PkcePair)
    ensures
        exists|bytes: Seq<u8>| bytes.len() == 32 && #[trigger] base64url_text(bytes) == pair.verifier@,
        pair.challenge@ == pkce_challenge(pair.verifier@),
{
    let random = random_32_bytes();
    let pair = pkce_pair_from_bytes(&random);
    assert(base64url_text(random@) == pair.verifier@);
    pair
}

/// The three calls made to the OAuth provider.
#[derive(Debug, Clone, Copy, PartialEq, Eq)]
pub enum CodexCall {
    Exchange,
    Refresh,
    UserInfo,
}

/// The message prefix when a call's request could not be sent.
pub open spec fn request_failed_prefix(call: CodexCall) -> Seq<char> {
    match call {
        CodexCall::Exchange => "Token exchange request failed: "@,
        CodexCall::Refresh => "Refresh request failed: "@,
        CodexCall::UserInfo => "User info request failed: "@,
    }
}

/// The message prefix when a call's successful reply could not be parsed.
pub open spec fn parse_failed_prefix(call: CodexCall) -> Seq<char> {
    match call {
        CodexCall::Exchange => "Token parsing failed: "@,
        CodexCall::Refresh => "Refresh data parsing failed: "@,
        CodexCall::UserInfo => "User info parsing failed: "@,
    }
}

/// The message when a call's reply has a non-success status: the status
/// (as the HTTP library displays it) and the reply's body text.
pub open spec fn status_failed_message(call: CodexCall, status: Seq<char>, body: Seq<char>) -> Seq<
    char,
> {
    match call {
        CodexCall::Exchange => "Token exchange failed ("@ + status + "): "@ + body,
        CodexCall::Refresh => "Refresh failed ("@ + status + "): "@ + body,
        CodexCall::UserInfo => "Failed to get user info: "@ + body,
    }
}

/// The error returned when the request of `call` could not be sent.
pub fn request_failed_message(call: CodexCall, err: &str) -> (m: String)
    ensures
        m@ == request_failed_prefix(call) + err@,
{
    match call {
        CodexCall::Exchange => concat_str("Token exchange request failed: ", err),
        CodexCall::Refresh => concat_str("Refresh request failed: ", err),
        CodexCall::UserInfo => concat_str("User info request failed: ", err),
    }
}

/// The error returned when the reply of `call` has a non-success status.
pub fn status_failed(call: CodexCall, status: &str, body: &str) -> (m: String)
    ensures
        m@ == status_failed_message(call, status@, body@),
{
    match call {
        CodexCall::Exchange => {
            let a = concat_str("Token exchange failed (", status);
            let b = concat_str(a.as_str(), "): ");
            concat_str(b.as_str(), body)
        },
        CodexCall::Refresh => {
            let a = concat_str("Refresh failed (", status);
            let b = concat_str(a.as_str(), "): ");
            concat_str(b.as_str(), body)
        },
        CodexCall::UserInfo => concat_str("Failed to get user info: ", body),
    }
}

/// How a reply of the token endpoint becomes the call's result: on a success
/// status, the parsed body (a parse error is prefixed); otherwise an error
/// naming the status and the body text.
pub fn token_reply_outcome(
    call: CodexCall,
    success: bool,
    status: &str,
    parsed: Result<CodexTokenResponse, String>,
    body_text: &str,
) -> (r: Result<CodexTokenResponse, String>)
    ensures
        success ==> match (r, parsed) {
            (Ok(t), Ok(p)) => t == p,
            (Err(m), Err(e)) => m@ == parse_failed_prefix(call) + e@,
            _ => false,
        },
        !success ==> (r matches Err(m) && m@ == status_failed_message(call, status@, body_text@)),
{
    if success {
        match parsed {
            Ok(t) => Ok(t),
            Err(e) => Err(parse_failed(call, e.as_str())),
        }
    } else {
        Err(status_failed(call, status, body_text))
    }
}

/// How a reply of the user information endpoint becomes the call's result.
pub fn user_info_reply_outcome(
    success: bool,
    parsed: Result<CodexUserInfo, String>,
    body_text: &str,
) -> (r: Result<CodexUserInfo, String>)
    ensures
        success ==> match (r, parsed) {
            (Ok(t), Ok(p)) => t == p,
            (Err(m), Err(e)) => m@ == parse_failed_prefix(CodexCall::UserInfo) + e@,
            _ => false,
        },
        !success ==> (r matches Err(m) && m@ == status_failed_message(
            CodexCall::UserInfo,
            Seq::<char>::empty(),
            body_text@,
        )),
{
    if success {
        match parsed {
            Ok(t) => Ok(t),
            Err(e) => Err(parse_failed(CodexCall::UserInfo, e.as_str())),
        }
    } else {
        Err(status_failed(CodexCall::UserInfo, "", body_text))
    }
}

/// The error returned when a successful reply could not be parsed.
fn parse_failed(call: CodexCall, err: &str) -> (m: String)
    ensures
        m@ == parse_failed_prefix(call) + err@,
{
    match call {
        CodexCall::Exchange => concat_str("Token parsing failed: ", err),
        CodexCall::Refresh => concat_str("Refresh data parsing failed: ", err),
        CodexCall::UserInfo => concat_str("User info parsing failed: ", err),
    }
}

/// A stored token is still fresh at time `now` when it expires more than the
/// refresh skew after `now`.
pub open spec fn token_is_fresh(expiry_timestamp: i64, now: i64) -> bool {
    expiry_timestamp > now + TOKEN_REFRESH_SKEW_SECONDS
}

/// What to do with a stored Codex token.
#[derive(Debug, PartialEq, Eq)]
pub enum CodexTokenStep {
    /// The token is fresh and is used as it is.
    UseCurrent,
    /// The token must be refreshed with this refresh token.
    Refresh(String),
}

/// Decides whether the stored token must be refreshed at time `now`.
pub fn codex_token_step(current: &TokenData, now: i64) -> (step: CodexTokenStep)
    requires
        now <= i64::MAX - TOKEN_REFRESH_SKEW_SECONDS,
    ensures
        token_is_fresh(current.expiry_timestamp, now) <==> step == CodexTokenStep::UseCurrent,
        step matches CodexTokenStep::Refresh(t) ==> t@ == current.refresh_token@,
{
    if current.expiry_timestamp > now + TOKEN_REFRESH_SKEW_SECONDS {
        CodexTokenStep::UseCurrent
    } else {
        CodexTokenStep::Refresh(current.refresh_token.clone())
    }
}

/// The current Unix time in seconds, from the system clock.
#[verifier::external_body]
fn unix_now() -> (now: i64) {
    chrono::Utc::now().timestamp()
}

/// Reads the clock and decides whether the stored token must be refreshed;
/// returns the decision and the time it was made at.
pub fn codex_token_step_now(current: &TokenData) -> (r: (CodexTokenStep, i64))
    ensures
        r.1 <= i64::MAX - TOKEN_REFRESH_SKEW_SECONDS ==> (token_is_fresh(
            current.expiry_timestamp,
            r.1,
        ) <==> r.0 == CodexTokenStep::UseCurrent),
        r.1 > i64::MAX - TOKEN_REFRESH_SKEW_SECONDS ==> r.0 matches CodexTokenStep::Refresh(_),
        r.0 matches CodexTokenStep::Refresh(t) ==> t@ == current.refresh_token@,
{
    let now = unix_now();
    if now > i64::MAX - TOKEN_REFRESH_SKEW_SECONDS {
        return (CodexTokenStep::Refresh(current.refresh_token.clone()), now);
    }
    (codex_token_step(current, now), now)
}

/// A copy of a stored token.
pub fn copy_token(t: &TokenData) -> (c: TokenData)
    ensures
        c == *t,
{
    TokenData {
        access_token: t.access_token.clone(),
        refresh_token: t.refresh_token.clone(),
        expires_in: t.expires_in,
        expiry_timestamp: t.expiry_timestamp,
        email: match &t.email {
            Some(e) => Some(e.clone()),
            None => None,
        },
    }
}

/// The expiry time of a token issued at `issued_at` that lives `expires_in`
/// seconds (saturating at the bounds of `i64`).
pub open spec fn expiry_after(issued_at: i64, expires_in: i64) -> i64 {
    if issued_at + expires_in > i64::MAX {
        i64::MAX
    } else if issued_at + expires_in < i64::MIN {
        i64::MIN
    } else {
        (issued_at + expires_in) as i64
    }
}

/// The token stored after a refresh at time `now`: the new access token and
/// lifetime, the new refresh token if the endpoint sent one (else the old
/// one), and the account's e-mail kept.
pub fn apply_codex_refresh(current: &TokenData, response: CodexTokenResponse, now: i64) -> (t:
    TokenData)
    ensures
        t.access_token == response.access_token,
        t.refresh_token@ == match response.refresh_token {
            Some(r) => r@,
            None => current.refresh_token@,
        },
        t.expires_in == response.expires_in,
        t.expiry_timestamp == expiry_after(now, response.expires_in),
        t.email == current.email,
{
    let refresh_token = match response.refresh_token {
        Some(r) => r,
        None => current.refresh_token.clone(),
    };
    let expiry = match now.checked_add(response.expires_in) {
        Some(e) => e,
        None => if response.expires_in > 0 {
            i64::MAX
        } else {
            i64::MIN
        },
    };
    TokenData {
        access_token: response.access_token,
        refresh_token,
        expires_in: response.expires_in,
        expiry_timestamp: expiry,
        email: match &current.email {
            Some(e) => Some(e.clone()),
            None => None,
        },
    }
}

} // verus!
