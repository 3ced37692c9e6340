//! The OAuth flow: the one active authorization flow, how a request to prepare
//! a flow reuses or replaces it, the loopback callback's redirect URI, how a
//! callback request is read, and the manual code submission.
//!
//! The flow's channels and listeners live with the caller; this module holds
//! what the decisions read: the flow's URL, redirect URI, CSRF state, client
//! key, provider, and whether the code receiver is still waiting.
use vstd::prelude::*;
use crate::oauth_codex::{
    auth_url_outcome, codex_auth_params, exchange_code_form, exchange_form_spec,
    generate_pkce_pair, get_codex_auth_url, pairs_view, pkce_challenge, url_with_query_pairs,
    CodexTokenResponse, PkcePair, AUTH_URL,
};
use crate::stream::{utf8_lossy, utf8_lossy_text};
use crate::text::{
    ascii_lower, chars_of, concat_str, decimal, decimal_string, seq_starts_with,
    starts_with_str, str_eq, to_ascii_lowercase, to_owned_string, ws_tokens,
    whitespace_tokens,
};

verus! {

/// The active OAuth flow, as far as the flow decisions read it.
#[derive(Debug)]
pub struct OAuthFlowRecord {
    pub auth_url: String,
    pub redirect_uri: String,
    /// The CSRF state value sent with the authorization request.
    pub state: String,
    pub client_key: String,
    pub provider: Option<String>,
    pub pkce_verifier: Option<String>,
    /// The code receiver has not been taken yet: nobody waits for the code.
    pub receiver_waiting: bool,
}

/// The payload of the event that announces a generated authorization URL.
#[derive(Debug, PartialEq, Eq)]
pub struct OAuthUrlGeneratedPayload {
    pub url: String,
    pub provider: String,
}

/// An optional text seen through its characters.
pub open spec fn opt_view(o: Option<&str>) -> Option<Seq<char>> {
    match o {
        Some(s) => Some(s@),
        None => None,
    }
}

/// An optional owned text seen through its characters.
pub open spec fn opt_string_view(o: Option<String>) -> Option<Seq<char>> {
    match o {
        Some(s) => Some(s@),
        None => None,
    }
}

/// The active flow serves a request for `provider` with an optional client
/// key: same provider, and, when a key is requested, the flow's key equals
/// the requested key in ASCII lower case.
pub open spec fn flow_matches(
    flow: OAuthFlowRecord,
    requested_client_key: Option<Seq<char>>,
    provider: Option<Seq<char>>,
) -> bool {
    &&& opt_string_view(flow.provider) == provider
    &&& match requested_client_key {
        Some(k) => flow.client_key@ == ascii_lower(k),
        None => true,
    }
}

/// A request to prepare a flow reuses the active flow: it matches the request
/// and its code receiver is still waiting.
pub open spec fn flow_reusable(
    slot: Option<OAuthFlowRecord>,
    requested_client_key: Option<Seq<char>>,
    provider: Option<Seq<char>>,
) -> bool {
    match slot {
        Some(f) => flow_matches(f, requested_client_key, provider) && f.receiver_waiting,
        None => false,
    }
}

/// Whether two optional texts are equal.
fn opt_str_eq(a: Option<&str>, b: Option<&str>) -> (r: bool)
    ensures
        r == (opt_view(a) == opt_view(b)),
{
    match (a, b) {
        (Some(x), Some(y)) => str_eq(x, y),
        (None, None) => true,
        _ => false,
    }
}

/// An optional owned text borrowed as an optional text slice.
fn opt_as_str(o: &Option<String>) -> (r: Option<&str>)
    ensures
        opt_view(r) == opt_string_view(*o),
{
    match o {
        Some(s) => Some(s.as_str()),
        None => None,
    }
}

/// Whether the active flow serves a request for `provider` with the given
/// client key.
pub fn existing_flow_matches_request(
    flow: &OAuthFlowRecord,
    requested_client_key: Option<&String>,
    provider: Option<&str>,
) -> (r: bool)
    ensures
        r == flow_matches(
            *flow,
            match requested_client_key {
                Some(k) => Some(k@),
                None => None,
            },
            opt_view(provider),
        ),
{
    if !opt_str_eq(opt_as_str(&flow.provider), provider) {
        return false;
    }
    match requested_client_key {
        Some(k) => {
            let lowered = to_ascii_lowercase(k.as_str());
            str_eq(flow.client_key.as_str(), lowered.as_str())
        },
        None => true,
    }
}

/// The payload announcing a generated authorization URL; the provider
/// defaults to `gemini`.
pub fn oauth_url_generated_payload(auth_url: String, provider: Option<&str>) -> (p:
    OAuthUrlGeneratedPayload)
    ensures
        p.url == auth_url,
        p.provider@ == match provider {
            Some(s) => s@,
            None => "gemini"@,
        },
{
    OAuthUrlGeneratedPayload {
        url: auth_url,
        provider: match provider {
            Some(s) => to_owned_string(s),
            None => to_owned_string("gemini"),
        },
    }
}

/// What preparing a flow does with the active flow.
#[derive(Debug, PartialEq, Eq)]
pub enum PrepareStep {
    /// The active flow is reused; its authorization URL is returned.
    Reuse(String),
    /// A new flow is needed; when `cancelled`, the previous flow was removed
    /// and its listeners must be told to stop.
    Fresh { cancelled: bool },
}

/// The first step of preparing a flow: reuse the active flow when it serves
/// the request and still waits for its code, else remove it.
pub fn begin_prepare(
    slot: &mut Option<OAuthFlowRecord>,
    requested_client_key: Option<&String>,
    provider: Option<&str>,
) -> (step: PrepareStep)
    ensures
        ({
            let key = match requested_client_key {
                Some(k) => Some(k@),
                None => None,
            };
            &&& (step is Reuse) <==> flow_reusable(*old(slot), key, opt_view(provider))
            &&& step matches PrepareStep::Reuse(u) ==> *final(slot) == *old(slot) && u@
                == old(slot)->0.auth_url@
            &&& step matches PrepareStep::Fresh { cancelled } ==> final(slot).is_none()
                && cancelled == old(slot).is_some()
        }),
{
    let reuse_url = match slot {
        Some(f) => {
            if existing_flow_matches_request(f, requested_client_key, provider)
                && f.receiver_waiting {
                Some(f.auth_url.clone())
            } else {
                None
            }
        },
        None => None,
    };
    match reuse_url {
        Some(u) => PrepareStep::Reuse(u),
        None => {
            let cancelled = slot.is_some();
            *slot = None;
            PrepareStep::Fresh { cancelled }
        },
    }
}

/// The loopback redirect URI for the callback port: `localhost` when both
/// IPv4 and IPv6 listen, else the explicit address of the one that listens.
pub open spec fn redirect_uri_spec(port: u16, has_ipv4: bool, has_ipv6: bool) -> Seq<char> {
    let host = if has_ipv4 && has_ipv6 {
        "http://localhost:"@
    } else if has_ipv4 {
        "http://127.0.0.1:"@
    } else {
        "http://[::1]:"@
    };
    host + decimal(port as nat) + "/oauth-callback"@
}

/// The redirect URI that the authorization server sends the browser back to.
pub fn callback_redirect_uri(port: u16, has_ipv4: bool, has_ipv6: bool) -> (uri: String)
    ensures
        uri@ == redirect_uri_spec(port, has_ipv4, has_ipv6),
{
    let host = if has_ipv4 && has_ipv6 {
        "http://localhost:"
    } else if has_ipv4 {
        "http://127.0.0.1:"
    } else {
        "http://[::1]:"
    };
    let digits = decimal_string(port as u64);
    let a = concat_str(host, digits.as_str());
    concat_str(a.as_str(), "/oauth-callback")
}

/// A hyphenated lower-case UUID text: 36 characters, hyphens at 8, 13, 18
/// and 23, lower-case hexadecimal digits elsewhere.
pub open spec fn is_hyphenated_uuid(s: Seq<char>) -> bool {
    &&& s.len() == 36
    &&& forall|i: int|
        0 <= i < 36 ==> if i == 8 || i == 13 || i == 18 || i == 23 {
            #[trigger] s[i] == '-'
        } else {
            ('0' <= s[i] && s[i] <= '9') || ('a' <= s[i] && s[i] <= 'f')
        }
}

/// A random version-4 UUID from `uuid::Uuid::new_v4`, written as text with
/// `to_string` (the hyphenated lower-case form).
#[verifier::external_body]
fn random_uuid_text() -> (s: String)
    ensures
        is_hyphenated_uuid(s@),
{
    uuid::Uuid::new_v4().to_string()
}

/// Where a new flow's callback arrives and the CSRF state it expects.
#[derive(Debug)]
pub struct FlowEndpoint {
    pub redirect_uri: String,
    pub state: String,
}

/// The endpoint of a new flow whose listeners use `port`: the loopback
/// redirect URI and a fresh random CSRF state.
pub fn new_flow_endpoint(port: u16, has_ipv4: bool, has_ipv6: bool) -> (e: FlowEndpoint)
    ensures
        e.redirect_uri@ == redirect_uri_spec(port, has_ipv4, has_ipv6),
        is_hyphenated_uuid(e.state@),
{
    FlowEndpoint {
        redirect_uri: callback_redirect_uri(port, has_ipv4, has_ipv6),
        state: random_uuid_text(),
    }
}

/// `provider` names the Codex provider.
pub open spec fn is_codex(provider: Option<Seq<char>>) -> bool {
    provider == Some("codex"@)
}

/// Whether the optional provider is `codex`.
pub fn provider_is_codex(provider: Option<&str>) -> (r: bool)
    ensures
        r == is_codex(opt_view(provider)),
{
    match provider {
        Some(p) => str_eq(p, "codex"),
        None => false,
    }
}

/// The authorization URL and client key of a new flow: for Codex, the Codex
/// authorization URL with the given PKCE challenge and the key `codex`; for
/// any other provider, the Gemini target computed by the caller.
pub open spec fn auth_target_spec(
    provider: Option<Seq<char>>,
    redirect_uri: Seq<char>,
    state: Seq<char>,
    code_challenge: Seq<char>,
    gemini_target: Result<(Seq<char>, Seq<char>), Seq<char>>,
) -> Result<(Seq<char>, Seq<char>), Seq<char>> {
    if is_codex(provider) {
        match auth_url_outcome(
            url_with_query_pairs(AUTH_URL@, codex_auth_params(redirect_uri, state, code_challenge)),
        ) {
            Ok(u) => Ok((u, "codex"@)),
            Err(e) => Err(e),
        }
    } else {
        gemini_target
    }
}

/// A target result seen through the character views.
pub open spec fn target_view(r: Result<(String, String), String>) -> Result<
    (Seq<char>, Seq<char>),
    Seq<char>,
> {
    match r {
        Ok((u, k)) => Ok((u@, k@)),
        Err(e) => Err(e@),
    }
}

/// Resolves the authorization URL and client key of a new flow.
pub fn resolve_auth_target(
    provider: Option<&str>,
    redirect_uri: &str,
    state: &str,
    code_challenge: &str,
    gemini_target: Result<(String, String), String>,
) -> (r: Result<(String, String), String>)
    ensures
        target_view(r) == auth_target_spec(
            opt_view(provider),
            redirect_uri@,
            state@,
            code_challenge@,
            target_view(gemini_target),
        ),
        is_codex(opt_view(provider)) ==> r is Ok,
{
    if provider_is_codex(provider) {
        match get_codex_auth_url(redirect_uri, state, code_challenge) {
            Ok(u) => Ok((u, to_owned_string("codex"))),
            Err(e) => Err(e),
        }
    } else {
        gemini_target
    }
}

/// An optional text as an optional owned text.
fn opt_to_string(o: Option<&str>) -> (r: Option<String>)
    ensures
        opt_string_view(r) == opt_view(o),
{
    match o {
        Some(s) => Some(to_owned_string(s)),
        None => None,
    }
}

/// Completes preparing a new flow once its target is resolved: on success the
/// new flow, with the given PKCE verifier, becomes the active one (its
/// receiver waiting when listeners were started) and its URL is returned; on
/// failure nothing is installed.
pub fn install_prepared_flow(
    slot: &mut Option<OAuthFlowRecord>,
    target: Result<(String, String), String>,
    redirect_uri: String,
    state: String,
    provider: Option<&str>,
    pkce_verifier: Option<String>,
    receiver_waiting: bool,
) -> (r: Result<String, String>)
    ensures
        match target {
            Ok((u, k)) => {
                &&& r matches Ok(url) && url == u
                &&& *final(slot) matches Some(f) && f.auth_url == u && f.client_key == k
                    && f.redirect_uri == redirect_uri && f.state == state && opt_string_view(
                    f.provider,
                ) == opt_view(provider) && f.pkce_verifier == pkce_verifier && f.receiver_waiting
                    == receiver_waiting
            },
            Err(e) => r == Err::<String, String>(e) && *final(slot) == *old(slot),
        },
{
    match target {
        Ok((auth_url, client_key)) => {
            let returned = auth_url.clone();
            *slot = Some(
                OAuthFlowRecord {
                    auth_url,
                    redirect_uri,
                    state,
                    client_key,
                    provider: opt_to_string(provider),
                    pkce_verifier,
                    receiver_waiting,
                },
            );
            Ok(returned)
        },
        Err(e) => Err(e),
    }
}

/// The PKCE challenge a new flow's URL carries: the pair's challenge for a
/// Codex flow that has a pair, else empty.
pub open spec fn used_challenge(provider: Option<Seq<char>>, pkce: Option<PkcePair>) -> Seq<char> {
    match pkce {
        Some(p) => if is_codex(provider) {
            p.challenge@
        } else {
            Seq::<char>::empty()
        },
        None => Seq::<char>::empty(),
    }
}

/// The PKCE verifier a new flow keeps: the pair's verifier for a Codex flow,
/// none otherwise.
pub open spec fn kept_verifier(provider: Option<Seq<char>>, pkce: Option<PkcePair>) -> Option<
    String,
> {
    match pkce {
        Some(p) => if is_codex(provider) {
            Some(p.verifier)
        } else {
            None
        },
        None => None,
    }
}

/// What a new flow's installation satisfies: on a resolved target, the flow
/// is active with the target's URL and key, the endpoint, the provider and
/// the kept verifier; on failure nothing changed.
pub open spec fn prepared_as(
    r: Result<String, String>,
    before: Option<OAuthFlowRecord>,
    after: Option<OAuthFlowRecord>,
    target: Result<(Seq<char>, Seq<char>), Seq<char>>,
    redirect_uri: String,
    state: String,
    provider: Option<Seq<char>>,
    verifier: Option<String>,
    receiver_waiting: bool,
) -> bool {
    match target {
        Ok((u, k)) => {
            &&& r matches Ok(url) && url@ == u
            &&& after matches Some(f) && f.auth_url@ == u && f.client_key@ == k && f.redirect_uri
                == redirect_uri && f.state == state && opt_string_view(f.provider) == provider
                && f.pkce_verifier == verifier && f.receiver_waiting == receiver_waiting
        },
        Err(e) => r matches Err(m) && m@ == e && after == before,
    }
}

/// Completes preparing a flow whose listeners are running, with the given
/// PKCE pair: resolves the target for the endpoint (a Codex URL carries the
/// pair's challenge) and installs the new flow with a waiting receiver; a
/// Codex flow keeps the pair's verifier.
pub fn complete_prepare_with(
    slot: &mut Option<OAuthFlowRecord>,
    endpoint: FlowEndpoint,
    provider: Option<&str>,
    pkce: Option<PkcePair>,
    gemini_target: Result<(String, String), String>,
) -> (r: Result<String, String>)
    ensures
        prepared_as(
            r,
            *old(slot),
            *final(slot),
            auth_target_spec(
                opt_view(provider),
                endpoint.redirect_uri@,
                endpoint.state@,
                used_challenge(opt_view(provider), pkce),
                target_view(gemini_target),
            ),
            endpoint.redirect_uri,
            endpoint.state,
            opt_view(provider),
            kept_verifier(opt_view(provider), pkce),
            true,
        ),
        is_codex(opt_view(provider)) ==> r is Ok,
{
    let codex = provider_is_codex(provider);
    let (challenge, verifier) = match pkce {
        Some(p) => if codex {
            (p.challenge, Some(p.verifier))
        } else {
            (String::new(), None)
        },
        None => (String::new(), None),
    };
    let target = resolve_auth_target(
        provider,
        endpoint.redirect_uri.as_str(),
        endpoint.state.as_str(),
        challenge.as_str(),
        gemini_target,
    );
    install_prepared_flow(slot, target, endpoint.redirect_uri, endpoint.state, provider, verifier, true)
}

/// Completes preparing a flow whose listeners are running: a Codex flow gets
/// a fresh PKCE pair, whose S256 challenge its URL carries and whose verifier
/// it keeps; any other flow has no verifier. On success the new flow serves
/// later requests for the same provider.
pub fn complete_prepare(
    slot: &mut Option<OAuthFlowRecord>,
    endpoint: FlowEndpoint,
    provider: Option<&str>,
    gemini_target: Result<(String, String), String>,
) -> (r: Result<String, String>)
    ensures
        is_codex(opt_view(provider)) ==> exists|v: String|
            #[trigger] prepared_as(
                r,
                *old(slot),
                *final(slot),
                auth_target_spec(
                    opt_view(provider),
                    endpoint.redirect_uri@,
                    endpoint.state@,
                    pkce_challenge(v@),
                    target_view(gemini_target),
                ),
                endpoint.redirect_uri,
                endpoint.state,
                opt_view(provider),
                Some(v),
                true,
            ),
        !is_codex(opt_view(provider)) ==> prepared_as(
            r,
            *old(slot),
            *final(slot),
            target_view(gemini_target),
            endpoint.redirect_uri,
            endpoint.state,
            opt_view(provider),
            None,
            true,
        ),
        is_codex(opt_view(provider)) ==> r is Ok,
        r is Ok ==> flow_reusable(*final(slot), None, opt_view(provider)),
{
    if provider_is_codex(provider) {
        let pair = generate_pkce_pair();
        let ghost v = pair.verifier;
        let ghost c = pair.challenge@;
        let ghost redirect = endpoint.redirect_uri;
        let ghost st = endpoint.state;
        let ghost before = *slot;
        let ghost gt = target_view(gemini_target);
        let r = complete_prepare_with(slot, endpoint, provider, Some(pair), gemini_target);
        assert(c == pkce_challenge(v@));
        assert(prepared_as(
            r,
            before,
            *slot,
            auth_target_spec(opt_view(provider), redirect@, st@, pkce_challenge(v@), gt),
            redirect,
            st,
            opt_view(provider),
            Some(v),
            true,
        ));
        r
    } else {
        complete_prepare_with(slot, endpoint, provider, None, gemini_target)
    }
}

/// Cancels the active flow: afterwards no flow is active. Returns whether a
/// flow was active (its listeners must then be told to stop).
pub fn cancel_oauth_flow(slot: &mut Option<OAuthFlowRecord>) -> (cancelled: bool)
    ensures
        final(slot).is_none(),
        cancelled == old(slot).is_some(),
{
    let cancelled = slot.is_some();
    *slot = None;
    cancelled
}

/// What a caller waiting for the authorization code keeps of the flow.
#[derive(Debug)]
pub struct FlowTicket {
    pub redirect_uri: String,
    pub client_key: String,
    pub provider: Option<String>,
    pub pkce_verifier: Option<String>,
}

/// The error when no flow is active.
pub open spec fn no_flow_message() -> Seq<char> {
    "OAuth state does not exist"@
}

/// The error when the flow's code is already awaited by someone else.
pub open spec fn in_progress_message() -> Seq<char> {
    "OAuth authorization already in progress"@
}

/// An optional owned text copied.
fn copy_opt_string(o: &Option<String>) -> (r: Option<String>)
    ensures
        r == *o,
{
    match o {
        Some(s) => Some(s.clone()),
        None => None,
    }
}

/// Takes the active flow's code receiver to wait for the code: fails when no
/// flow is active or when its receiver was already taken; on success the flow
/// stays active and its receiver is no longer waiting.
pub fn take_code_receiver(slot: &mut Option<OAuthFlowRecord>) -> (r: Result<FlowTicket, String>)
    ensures
        match *old(slot) {
            None => r matches Err(m) && m@ == no_flow_message() && final(slot).is_none(),
            Some(f) => if !f.receiver_waiting {
                r matches Err(m) && m@ == in_progress_message() && *final(slot) == *old(slot)
            } else {
                &&& r matches Ok(t) && t.redirect_uri == f.redirect_uri && t.client_key
                    == f.client_key && t.provider == f.provider && t.pkce_verifier
                    == f.pkce_verifier
                &&& *final(slot) matches Some(g) && g.auth_url == f.auth_url && g.redirect_uri
                    == f.redirect_uri && g.state == f.state && g.client_key == f.client_key
                    && g.provider == f.provider && g.pkce_verifier == f.pkce_verifier
                    && !g.receiver_waiting
            },
        },
{
    match slot {
        None => Err(to_owned_string("OAuth state does not exist")),
        Some(f) => {
            if !f.receiver_waiting {
                Err(to_owned_string("OAuth authorization already in progress"))
            } else {
                f.receiver_waiting = false;
                Ok(
                    FlowTicket {
                        redirect_uri: f.redirect_uri.clone(),
                        client_key: f.client_key.clone(),
                        provider: copy_opt_string(&f.provider),
                        pkce_verifier: copy_opt_string(&f.pkce_verifier),
                    },
                )
            }
        },
    }
}

/// What the code channel delivered: the code, the callback's error, or, when
/// the channel closed, an error saying so.
pub fn received_code(message: Option<Result<String, String>>) -> (r: Result<String, String>)
    ensures
        match message {
            Some(m) => r == m,
            None => r matches Err(e) && e@ == "OAuth flow channel closed unexpectedly"@,
        },
{
    match message {
        Some(m) => m,
        None => Err(to_owned_string("OAuth flow channel closed unexpectedly")),
    }
}

/// Ends the flow once its code arrived: no flow is active afterwards.
pub fn finish_oauth_flow(slot: &mut Option<OAuthFlowRecord>)
    ensures
        final(slot).is_none(),
{
    *slot = None;
}

/// The token of a finished OAuth flow.
#[derive(Debug, PartialEq, Eq)]
pub struct TokenResponse {
    pub access_token: String,
    pub expires_in: i64,
    pub token_type: String,
    pub refresh_token: Option<String>,
    pub oauth_client_key: Option<String>,
}

/// The flow's token from a Codex token reply, marked with the client key
/// `codex`.
pub fn codex_flow_token(res: CodexTokenResponse) -> (t: TokenResponse)
    ensures
        t.access_token == res.access_token,
        t.expires_in == res.expires_in,
        t.token_type == res.token_type,
        t.refresh_token == res.refresh_token,
        t.oauth_client_key matches Some(k) && k@ == "codex"@,
{
    TokenResponse {
        access_token: res.access_token,
        expires_in: res.expires_in,
        token_type: res.token_type,
        refresh_token: res.refresh_token,
        oauth_client_key: Some(to_owned_string("codex")),
    }
}

// ---------------------------------------------------------------------------
// The loopback callback
// ---------------------------------------------------------------------------

/// The reply sent to the browser when the code was captured.
pub open spec fn success_html_spec() -> Seq<char> {
    "HTTP/1.1 200 OK\r\nContent-Type: text/html; charset=utf-8\r\n\r\n<html><body style='font-family: sans-serif; text-align: center; padding: 50px;'><h1 style='color: green;'>✅ Authorization Successful!</h1><p>You can close this window and return to the application.</p><script>setTimeout(function() { window.close(); }, 2000);</script></body></html>"@
}

/// The reply sent to the browser when no valid code was captured.
pub open spec fn fail_html_spec() -> Seq<char> {
    "HTTP/1.1 400 Bad Request\r\nContent-Type: text/html; charset=utf-8\r\n\r\n<html><body style='font-family: sans-serif; text-align: center; padding: 50px;'><h1 style='color: red;'>❌ Authorization Failed</h1><p>Failed to obtain Authorization Code. Please return to the app and try again.</p></body></html>"@
}

/// The HTTP reply for a captured code.
pub fn oauth_success_html() -> (html: &'static str)
    ensures
        html@ == success_html_spec(),
{
    "HTTP/1.1 200 OK\r\nContent-Type: text/html; charset=utf-8\r\n\r\n<html><body style='font-family: sans-serif; text-align: center; padding: 50px;'><h1 style='color: green;'>✅ Authorization Successful!</h1><p>You can close this window and return to the application.</p><script>setTimeout(function() { window.close(); }, 2000);</script></body></html>"
}

/// The HTTP reply when no valid code was captured.
pub fn oauth_fail_html() -> (html: &'static str)
    ensures
        html@ == fail_html_spec(),
{
    "HTTP/1.1 400 Bad Request\r\nContent-Type: text/html; charset=utf-8\r\n\r\n<html><body style='font-family: sans-serif; text-align: center; padding: 50px;'><h1 style='color: red;'>❌ Authorization Failed</h1><p>Failed to obtain Authorization Code. Please return to the app and try again.</p></body></html>"
}

/// The key/value pairs of the query of the URL that `url::Url::parse` reads
/// from a text, decoded by `query_pairs`, or `None` when the text is not a
/// valid URL.
pub uninterp spec fn url_query_pairs(text: Seq<char>) -> Option<Seq<(Seq<char>, Seq<char>)>>;

/// A list of key/value pairs seen through the character views.
pub open spec fn string_pairs_view(pairs: Seq<(String, String)>) -> Seq<(Seq<char>, Seq<char>)> {
    Seq::new(pairs.len(), |i: int| (pairs[i].0@, pairs[i].1@))
}

/// Calls `url::Url::parse` on a text and collects the decoded query pairs
/// of the URL (`query_pairs`) as owned strings; `None` when parsing fails.
/// The contract names the outcome as a function of the text; how the url
/// crate parses and decodes is not stated.
#[verifier::external_body]
fn parse_url_query_pairs(text: &str) -> (r: Option<Vec<(String, String)>>)
    ensures
        match r {
            Some(v) => url_query_pairs(text@) == Some(string_pairs_view(v@)),
            None => url_query_pairs(text@).is_none(),
        },
{
    url::Url::parse(text).ok().map(
        |u| u.query_pairs().map(|(k, v)| (k.into_owned(), v.into_owned())).collect(),
    )
}

/// The value of the last pair with key `key`.
pub open spec fn last_value(pairs: Seq<(Seq<char>, Seq<char>)>, key: Seq<char>) -> Option<
    Seq<char>,
>
    decreases pairs.len(),
{
    if pairs.len() == 0 {
        None
    } else if pairs.last().0 == key {
        Some(pairs.last().1)
    } else {
        last_value(pairs.drop_last(), key)
    }
}

/// The value of the first pair with key `key`.
pub open spec fn first_value(pairs: Seq<(Seq<char>, Seq<char>)>, key: Seq<char>) -> Option<
    Seq<char>,
>
    decreases pairs.len(),
{
    if pairs.len() == 0 {
        None
    } else if pairs[0].0 == key {
        Some(pairs[0].1)
    } else {
        first_value(pairs.drop_first(), key)
    }
}

/// The value of the last pair whose key is `key`.
fn find_last_value(pairs: &Vec<(String, String)>, key: &str) -> (r: Option<String>)
    ensures
        opt_string_view(r) == last_value(string_pairs_view(pairs@), key@),
{
    let mut found: Option<String> = None;
    let mut i: usize = 0;
    let ghost all = string_pairs_view(pairs@);
    while i < pairs.len()
        invariant
            all == string_pairs_view(pairs@),
            i <= pairs.len(),
            opt_string_view(found) == last_value(all.subrange(0, i as int), key@),
        decreases pairs.len() - i,
    {
        let ghost pre = all.subrange(0, i as int);
        let ghost post = all.subrange(0, i + 1);
        assert(post.drop_last() =~= pre);
        if str_eq(pairs[i].0.as_str(), key) {
            found = Some(pairs[i].1.clone());
        }
        i = i + 1;
    }
    assert(all.subrange(0, pairs.len() as int) =~= all);
    found
}

/// The value of the first pair whose key is `key`.
fn find_first_value(pairs: &Vec<(String, String)>, key: &str) -> (r: Option<String>)
    ensures
        opt_string_view(r) == first_value(string_pairs_view(pairs@), key@),
{
    let ghost all = string_pairs_view(pairs@);
    let mut i: usize = 0;
    assert(all.subrange(0, all.len() as int) =~= all);
    while i < pairs.len()
        invariant
            all == string_pairs_view(pairs@),
            i <= pairs.len(),
            first_value(all, key@) == first_value(all.subrange(i as int, all.len() as int), key@),
        decreases pairs.len() - i,
    {
        let ghost rest = all.subrange(i as int, all.len() as int);
        assert(rest.drop_first() =~= all.subrange(i + 1, all.len() as int));
        if str_eq(pairs[i].0.as_str(), key) {
            return Some(pairs[i].1.clone());
        }
        i = i + 1;
    }
    None
}

/// `str::lines().next()`: the text up to the first line feed, without a
/// carriage return that precedes that line feed; `None` for the empty text.
pub open spec fn first_line(s: Seq<char>) -> Option<Seq<char>> {
    if s.len() == 0 {
        None
    } else if exists|i: int| 0 <= i < s.len() && s[i] == '\n' {
        let i = choose|i: int| 0 <= i < s.len() && s[i] == '\n' && forall|j: int| 0 <= j < i ==> s[j] != '\n';
        let line = s.subrange(0, i);
        if line.len() > 0 && line.last() == '\r' {
            Some(line.drop_last())
        } else {
            Some(line)
        }
    } else {
        Some(s)
    }
}

/// The request path of a callback request: the second white-space separated
/// word of its first line.
pub open spec fn request_path(request: Seq<char>) -> Option<Seq<char>> {
    match first_line(request) {
        Some(line) => if ws_tokens(line).len() >= 2 {
            Some(ws_tokens(line)[1])
        } else {
            None
        },
        None => None,
    }
}

/// The `code` and `state` a callback request carries: the request path is
/// read as a URL on `http://localhost`, and the last `code` and last `state`
/// of its query are taken.
pub open spec fn callback_query_spec(request: Seq<char>) -> (Option<Seq<char>>, Option<Seq<char>>) {
    match request_path(request) {
        Some(path) => match url_query_pairs("http://localhost"@ + path) {
            Some(pairs) => (last_value(pairs, "code"@), last_value(pairs, "state"@)),
            None => (None, None),
        },
        None => (None, None),
    }
}

/// The position of the first line feed in `v`, if any.
fn first_line_feed(v: &Vec<char>) -> (r: Option<usize>)
    ensures
        match r {
            Some(i) => i < v.len() && v@[i as int] == '\n' && forall|j: int|
                0 <= j < i ==> v@[j] != '\n',
            None => forall|j: int| 0 <= j < v.len() ==> v@[j] != '\n',
        },
{
    let mut i: usize = 0;
    while i < v.len()
        invariant
            i <= v.len(),
            forall|j: int| 0 <= j < i ==> v@[j] != '\n',
        decreases v.len() - i,
    {
        if v[i] == '\n' {
            return Some(i);
        }
        i = i + 1;
    }
    None
}

/// The `code` and `state` of a callback URL's query pairs: the last of
/// each; none when the URL did not parse.
pub fn callback_params_from_pairs(pairs: Option<Vec<(String, String)>>) -> (r: (
    Option<String>,
    Option<String>,
))
    ensures
        (opt_string_view(r.0), opt_string_view(r.1)) == match pairs {
            Some(p) => (
                last_value(string_pairs_view(p@), "code"@),
                last_value(string_pairs_view(p@), "state"@),
            ),
            None => (None, None),
        },
{
    match pairs {
        Some(p) => (find_last_value(&p, "code"), find_last_value(&p, "state")),
        None => (None, None),
    }
}

/// Reads the `code` and `state` of a callback request.
pub fn callback_query(request: &str) -> (r: (Option<String>, Option<String>))
    ensures
        (opt_string_view(r.0), opt_string_view(r.1)) == callback_query_spec(request@),
{
    let v = chars_of(request);
    if v.len() == 0 {
        return (None, None);
    }
    let end = match first_line_feed(&v) {
        Some(i) => {
            let ghost s = v@;
            proof {
                let k = choose|k: int|
                    0 <= k < s.len() && s[k] == '\n' && forall|j: int| 0 <= j < k ==> s[j] != '\n';
                assert(k == i as int) by {
                    if k < i {
                        assert(s[k] != '\n');
                    }
                    if k > i {
                        assert(s[i as int] != '\n');
                    }
                }
            }
            if i > 0 && v[i - 1] == '\r' {
                proof {
                    assert(s.subrange(0, i as int).drop_last() =~= s.subrange(0, i - 1));
                }
                i - 1
            } else {
                i
            }
        },
        None => v.len(),
    };
    proof {
        assert(first_line(request@) == Some(v@.subrange(0, end as int))) by {
            if forall|j: int| 0 <= j < v.len() ==> v@[j] != '\n' {
                assert(v@.subrange(0, end as int) =~= v@);
            }
        }
    }
    let tokens = whitespace_tokens(&v, 0, end);
    if tokens.len() < 2 {
        return (None, None);
    }
    let url_text = concat_str("http://localhost", tokens[1].as_str());
    assert(tokens.deep_view()[1] == tokens[1]@);
    callback_params_from_pairs(parse_url_query_pairs(url_text.as_str()))
}

/// Reads the `code` and `state` of a callback request received as bytes,
/// decoded as `String::from_utf8_lossy` does.
pub fn callback_query_from_bytes(request: &[u8]) -> (r: (Option<String>, Option<String>))
    ensures
        (opt_string_view(r.0), opt_string_view(r.1)) == callback_query_spec(
            utf8_lossy_text(request@),
        ),
{
    let text = utf8_lossy(request);
    callback_query(text.as_str())
}

/// The callback's state equals the active flow's CSRF state.
pub open spec fn callback_state_matches(
    slot: Option<OAuthFlowRecord>,
    received_state: Option<Seq<char>>,
) -> bool {
    match (slot, received_state) {
        (Some(f), Some(s)) => s == f.state@,
        _ => false,
    }
}

/// Whether the state received by the callback is the active flow's state.
pub fn callback_state_valid(slot: &Option<OAuthFlowRecord>, received_state: &Option<String>) -> (r:
    bool)
    ensures
        r == callback_state_matches(*slot, opt_string_view(*received_state)),
{
    match (slot, received_state) {
        (Some(f), Some(s)) => str_eq(s.as_str(), f.state.as_str()),
        _ => false,
    }
}

/// What the callback sends on the code channel and replies to the browser: the
/// code when the state is valid; an error otherwise. A code is only ever
/// accepted with a valid state.
pub fn callback_outcome(code: Option<String>, state_valid: bool) -> (r: (
    Result<String, String>,
    &'static str,
))
    ensures
        match code {
            Some(c) => if state_valid {
                r.0 == Ok::<String, String>(c) && r.1@ == success_html_spec()
            } else {
                r.0 matches Err(e) && e@ == "OAuth state mismatch"@ && r.1@ == fail_html_spec()
            },
            None => r.0 matches Err(e) && e@ == "Failed to get Authorization Code in callback"@
                && r.1@ == fail_html_spec(),
        },
{
    match code {
        Some(c) => if state_valid {
            (Ok(c), oauth_success_html())
        } else {
            (Err(to_owned_string("OAuth state mismatch")), oauth_fail_html())
        },
        None => (
            Err(to_owned_string("Failed to get Authorization Code in callback")),
            oauth_fail_html(),
        ),
    }
}

// ---------------------------------------------------------------------------
// Manual code submission
// ---------------------------------------------------------------------------

/// Checks a manually submitted code against the active flow: a flow must be
/// active, and a provided state must equal the flow's state.
pub fn check_manual_submission(
    slot: &Option<OAuthFlowRecord>,
    state_input: &Option<String>,
) -> (r: Result<(), String>)
    ensures
        match *slot {
            None => r matches Err(e) && e@ == "No active OAuth flow found"@,
            Some(f) => match *state_input {
                Some(s) => if s@ == f.state@ {
                    r is Ok
                } else {
                    r matches Err(e) && e@ == "OAuth state mismatch (CSRF protection)"@
                },
                None => r is Ok,
            },
        },
{
    match slot {
        None => Err(to_owned_string("No active OAuth flow found")),
        Some(f) => match state_input {
            Some(s) => if str_eq(s.as_str(), f.state.as_str()) {
                Ok(())
            } else {
                Err(to_owned_string("OAuth state mismatch (CSRF protection)"))
            },
            None => Ok(()),
        },
    }
}

/// The code of a manual submission: when the input starts with `http` and
/// reads as a URL whose query has a `code`, the first such value; otherwise
/// the input itself.
pub open spec fn submitted_code_spec(input: Seq<char>) -> Seq<char> {
    if seq_starts_with(input, "http"@) {
        match url_query_pairs(input) {
            Some(pairs) => match first_value(pairs, "code"@) {
                Some(c) => c,
                None => input,
            },
            None => input,
        }
    } else {
        input
    }
}

/// The code of a manual submission that starts with `http`, given the query
/// pairs its text parsed to: the first `code` value, else the input itself.
pub fn submitted_code_from_pairs(code_input: String, pairs: Option<Vec<(String, String)>>) -> (code:
    String)
    ensures
        code@ == match pairs {
            Some(p) => match first_value(string_pairs_view(p@), "code"@) {
                Some(c) => c,
                None => code_input@,
            },
            None => code_input@,
        },
{
    match pairs {
        Some(p) => match find_first_value(&p, "code") {
            Some(c) => c,
            None => code_input,
        },
        None => code_input,
    }
}

/// Extracts the authorization code from a manual submission.
pub fn extract_submitted_code(code_input: String) -> (code: String)
    ensures
        code@ == submitted_code_spec(code_input@),
{
    if starts_with_str(code_input.as_str(), "http") {
        let pairs = parse_url_query_pairs(code_input.as_str());
        submitted_code_from_pairs(code_input, pairs)
    } else {
        code_input
    }
}

/// What preparing a flow for manual submission satisfies: on a resolved
/// target, the previous flow is reported removed and the new flow is active
/// with the target's URL and key, the endpoint, the provider and the kept
/// verifier, and no waiting receiver; on failure nothing changed.
pub open spec fn prepared_manually(
    r: Result<(String, bool), String>,
    before: Option<OAuthFlowRecord>,
    after: Option<OAuthFlowRecord>,
    target: Result<(Seq<char>, Seq<char>), Seq<char>>,
    redirect_uri: String,
    state: String,
    provider: Option<Seq<char>>,
    verifier: Option<String>,
) -> bool {
    match target {
        Ok((u, k)) => {
            &&& r matches Ok((url, cancelled)) && url@ == u && cancelled == before.is_some()
            &&& after matches Some(f) && f.auth_url@ == u && f.client_key@ == k && f.redirect_uri
                == redirect_uri && f.state == state && opt_string_view(f.provider) == provider
                && f.pkce_verifier == verifier && !f.receiver_waiting
        },
        Err(e) => r matches Err(m) && m@ == e && after == before,
    }
}

/// Prepares a flow for manual code submission only, with the given PKCE
/// pair: once the target is resolved (a Codex URL carries the pair's
/// challenge), the previous flow is removed and the new one installed
/// without a waiting receiver; a Codex flow keeps the pair's verifier.
/// Returns the URL and whether a previous flow was removed; when the target
/// fails, nothing changes.
pub fn prepare_oauth_flow_manually_with(
    slot: &mut Option<OAuthFlowRecord>,
    redirect_uri: String,
    state_str: String,
    provider: Option<&str>,
    pkce: Option<PkcePair>,
    gemini_target: Result<(String, String), String>,
) -> (r: Result<(String, bool), String>)
    ensures
        prepared_manually(
            r,
            *old(slot),
            *final(slot),
            auth_target_spec(
                opt_view(provider),
                redirect_uri@,
                state_str@,
                used_challenge(opt_view(provider), pkce),
                target_view(gemini_target),
            ),
            redirect_uri,
            state_str,
            opt_view(provider),
            kept_verifier(opt_view(provider), pkce),
        ),
        is_codex(opt_view(provider)) ==> r is Ok,
{
    let codex = provider_is_codex(provider);
    let (challenge, verifier) = match pkce {
        Some(p) => if codex {
            (p.challenge, Some(p.verifier))
        } else {
            (String::new(), None)
        },
        None => (String::new(), None),
    };
    let target = resolve_auth_target(
        provider,
        redirect_uri.as_str(),
        state_str.as_str(),
        challenge.as_str(),
        gemini_target,
    );
    match target {
        Ok(t) => {
            let cancelled = cancel_oauth_flow(slot);
            match install_prepared_flow(slot, Ok(t), redirect_uri, state_str, provider, verifier, false) {
                Ok(url) => Ok((url, cancelled)),
                Err(e) => Err(e),
            }
        },
        Err(e) => Err(e),
    }
}

/// Prepares a flow for manual code submission only: a Codex flow gets a
/// fresh PKCE pair, whose S256 challenge its URL carries and whose verifier
/// it keeps; any other flow has no verifier. Once the target is resolved the
/// previous flow is removed and the new one installed without a waiting
/// receiver; when the target fails, nothing changes.
pub fn prepare_oauth_flow_manually(
    slot: &mut Option<OAuthFlowRecord>,
    redirect_uri: String,
    state_str: String,
    provider: Option<&str>,
    gemini_target: Result<(String, String), String>,
) -> (r: Result<(String, bool), String>)
    ensures
        is_codex(opt_view(provider)) ==> exists|v: String|
            #[trigger] prepared_manually(
                r,
                *old(slot),
                *final(slot),
                auth_target_spec(
                    opt_view(provider),
                    redirect_uri@,
                    state_str@,
                    pkce_challenge(v@),
                    target_view(gemini_target),
                ),
                redirect_uri,
                state_str,
                opt_view(provider),
                Some(v),
            ),
        !is_codex(opt_view(provider)) ==> prepared_manually(
            r,
            *old(slot),
            *final(slot),
            target_view(gemini_target),
            redirect_uri,
            state_str,
            opt_view(provider),
            None,
        ),
        is_codex(opt_view(provider)) ==> r is Ok,
{
    if provider_is_codex(provider) {
        let pair = generate_pkce_pair();
        let ghost v = pair.verifier;
        let ghost c = pair.challenge@;
        let ghost redirect = redirect_uri;
        let ghost st = state_str;
        let ghost before = *slot;
        let ghost gt = target_view(gemini_target);
        let r = prepare_oauth_flow_manually_with(
            slot,
            redirect_uri,
            state_str,
            provider,
            Some(pair),
            gemini_target,
        );
        assert(c == pkce_challenge(v@));
        assert(prepared_manually(
            r,
            before,
            *slot,
            auth_target_spec(opt_view(provider), redirect@, st@, pkce_challenge(v@), gt),
            redirect,
            st,
            opt_view(provider),
            Some(v),
        ));
        r
    } else {
        prepare_oauth_flow_manually_with(slot, redirect_uri, state_str, provider, None, gemini_target)
    }
}

/// The PKCE verifier a ticket sends with the code exchange: the flow's
/// verifier, or empty when it has none.
pub open spec fn ticket_verifier(ticket: FlowTicket) -> Seq<char> {
    match ticket.pkce_verifier {
        Some(v) => v@,
        None => Seq::<char>::empty(),
    }
}

/// The token endpoint form that exchanges a Codex flow's code: the code, the
/// flow's redirect URI and the flow's PKCE verifier.
pub fn codex_exchange_form(code: &str, ticket: &FlowTicket) -> (form: Vec<(String, String)>)
    ensures
        pairs_view(form@) == exchange_form_spec(code@, ticket.redirect_uri@, ticket_verifier(*ticket)),
{
    let verifier: &str = match &ticket.pkce_verifier {
        Some(v) => v.as_str(),
        None => "",
    };
    proof {
        reveal_strlit("");
        assert(verifier@ =~= ticket_verifier(*ticket));
    }
    exchange_code_form(code, ticket.redirect_uri.as_str(), verifier)
}

/// A manually submitted text that starts with `http` (an `http` or `https`
/// URL) and parses as a URL whose query has a `code` gives the value of the
/// first `code` pair of that query, in query order.
pub proof fn lemma_submitted_url_gives_first_code(input: Seq<char>, k: int)
    requires
        input.len() >= 4,
        input.subrange(0, 4) == "http"@,
        url_query_pairs(input) matches Some(p) && 0 <= k < p.len() && p[k].0 == "code"@
            && forall|j: int| 0 <= j < k ==> #[trigger] p[j].0 != "code"@,
    ensures
        submitted_code_spec(input) == url_query_pairs(input)->0[k].1,
{
    reveal_strlit("http");
    let p = url_query_pairs(input)->0;
    lemma_first_value_is_first(p, "code"@, k);
}

/// The first pair with a key decides `first_value`.
proof fn lemma_first_value_is_first(p: Seq<(Seq<char>, Seq<char>)>, key: Seq<char>, k: int)
    requires
        0 <= k < p.len(),
        p[k].0 == key,
        forall|j: int| 0 <= j < k ==> #[trigger] p[j].0 != key,
    ensures
        first_value(p, key) == Some(p[k].1),
    decreases k,
{
    if k > 0 {
        assert(p[0].0 != key);
        assert forall|j: int| 0 <= j < k - 1 implies #[trigger] p.drop_first()[j].0 != key by {
            assert(p.drop_first()[j] == p[j + 1]);
        }
        lemma_first_value_is_first(p.drop_first(), key, k - 1);
    }
}

/// A manually submitted text that does not start with `http`, or whose text
/// does not parse as a URL with a `code` in its query, is the code itself.
pub proof fn lemma_submitted_plain_code_is_kept(input: Seq<char>)
    requires
        !(input.len() >= 4 && input.subrange(0, 4) == "http"@) || url_query_pairs(input) is None
            || (url_query_pairs(input) matches Some(p) && forall|j: int|
            0 <= j < p.len() ==> #[trigger] p[j].0 != "code"@),
    ensures
        submitted_code_spec(input) == input,
{
    reveal_strlit("http");
    match url_query_pairs(input) {
        Some(p) => {
            if forall|j: int| 0 <= j < p.len() ==> #[trigger] p[j].0 != "code"@ {
                lemma_first_value_none(p, "code"@);
            }
        },
        None => {},
    }
}

/// Without a pair with the key, `first_value` finds nothing.
proof fn lemma_first_value_none(p: Seq<(Seq<char>, Seq<char>)>, key: Seq<char>)
    requires
        forall|j: int| 0 <= j < p.len() ==> #[trigger] p[j].0 != key,
    ensures
        first_value(p, key) is None,
    decreases p.len(),
{
    if p.len() > 0 {
        assert(p[0].0 != key);
        assert forall|j: int| 0 <= j < p.len() - 1 implies #[trigger] p.drop_first()[j].0 != key by {
            assert(p.drop_first()[j] == p[j + 1]);
        }
        lemma_first_value_none(p.drop_first(), key);
    }
}

// ---------------------------------------------------------------------------
// Laws of the flow
// ---------------------------------------------------------------------------

/// A flow prepared for one provider is never reused for a request of another
/// provider: Gemini and Codex never share the active flow.
pub proof fn lemma_flow_isolated_by_provider(
    flow: OAuthFlowRecord,
    requested_client_key: Option<Seq<char>>,
    provider: Option<Seq<char>>,
)
    requires
        opt_string_view(flow.provider) != provider,
    ensures
        !flow_reusable(Some(flow), requested_client_key, provider),
{
}

/// A flow just installed with a waiting receiver is reused by the next
/// request for the same provider without a client key, and that request gets
/// the same authorization URL.
pub proof fn lemma_installed_flow_is_reused(flow: OAuthFlowRecord, provider: Option<Seq<char>>)
    requires
        flow.receiver_waiting,
        opt_string_view(flow.provider) == provider,
    ensures
        flow_reusable(Some(flow), None, provider),
{
}

/// Once its receiver is taken, a flow is no longer reused: a new request
/// replaces it.
pub proof fn lemma_taken_flow_not_reused(
    flow: OAuthFlowRecord,
    requested_client_key: Option<Seq<char>>,
    provider: Option<Seq<char>>,
)
    requires
        !flow.receiver_waiting,
    ensures
        !flow_reusable(Some(flow), requested_client_key, provider),
{
}

} // verus!
