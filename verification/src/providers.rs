//! Upstream AI providers: the Codex provider, the provider registry, and what
//! the Codex proxy handlers decide around a provider call.
use vstd::prelude::*;
use crate::json::{as_text, json_clone, member, opt_as_str, Json, JsonValue};
use crate::mappers::{chat_body_spec, codex_response_to_chat, text_or};
use crate::text::{chars_of, concat_str, seq_starts_with, starts_with_str, str_eq, string_from_chars, to_owned_string};

verus! {

/// A request to an upstream provider.
#[derive(Debug, PartialEq, Eq)]
pub struct ProviderRequest {
    pub model: String,
    pub body: JsonValue,
    pub account_id: String,
}

/// An upstream provider's reply.
#[derive(Debug, PartialEq, Eq)]
pub struct ProviderResponse {
    pub status: u16,
    pub body: JsonValue,
}

/// What every upstream provider describes of itself.
pub trait AiProvider {
    /// The provider's registry name.
    fn name(&self) -> &'static str;

    /// The upstream API's base URL.
    fn base_url(&self) -> &'static str;

    /// The models the provider offers by default.
    fn default_models(&self) -> Vec<&'static str>;
}

/// The Codex provider, backed by the OpenAI API.
#[derive(Debug, Clone, Copy, PartialEq, Eq)]
pub struct OpenAIProvider;

/// The Codex provider's default models, in order.
pub open spec fn openai_default_models() -> Seq<Seq<char>> {
    seq![
        "PasGPT-5-Codex"@,
        "GPT-5.1"@,
        "Codex GPT-5.1"@,
        "Codex Max GPT-5.1"@,
        "Codex mini"@,
        "GPT-5.2"@,
        "GPT-5.2 Codex"@,
        "GPT-5.3 Codex"@,
        "GPT-5.4"@,
        "GPT-5.4 Fast"@,
        "GPT-5.4 mini"@,
        "GPT-5.4 mini Fast"@,
        "GPT-5.5 Fast"@,
        "GPT-5.5 Pro"@,
    ]
}

impl OpenAIProvider {
    /// The provider's registry name: `codex`.
    pub fn provider_name(&self) -> (n: &'static str)
        ensures
            n@ == "codex"@,
    {
        "codex"
    }

    /// The OpenAI API base URL.
    pub fn provider_base_url(&self) -> (u: &'static str)
        ensures
            u@ == "https://api.openai.com/v1"@,
    {
        "https://api.openai.com/v1"
    }

    /// The default models, in order.
    pub fn provider_default_models(&self) -> (models: Vec<&'static str>)
        ensures
            models@.len() == openai_default_models().len(),
            forall|i: int| 0 <= i < models@.len() ==> #[trigger] models@[i]@ == openai_default_models()[i],
    {
        let mut models: Vec<&'static str> = Vec::new();
        models.push("PasGPT-5-Codex");
        models.push("GPT-5.1");
        models.push("Codex GPT-5.1");
        models.push("Codex Max GPT-5.1");
        models.push("Codex mini");
        models.push("GPT-5.2");
        models.push("GPT-5.2 Codex");
        models.push("GPT-5.3 Codex");
        models.push("GPT-5.4");
        models.push("GPT-5.4 Fast");
        models.push("GPT-5.4 mini");
        models.push("GPT-5.4 mini Fast");
        models.push("GPT-5.5 Fast");
        models.push("GPT-5.5 Pro");
        models
    }
}

impl AiProvider for OpenAIProvider {
    fn name(&self) -> (n: &'static str)
        ensures
            n@ == "codex"@,
    {
        self.provider_name()
    }

    fn base_url(&self) -> (u: &'static str)
        ensures
            u@ == "https://api.openai.com/v1"@,
    {
        self.provider_base_url()
    }

    fn default_models(&self) -> (models: Vec<&'static str>)
        ensures
            models@.len() == openai_default_models().len(),
            forall|i: int|
                0 <= i < models@.len() ==> #[trigger] models@[i]@ == openai_default_models()[i],
    {
        self.provider_default_models()
    }
}

/// The registered providers, by name.
pub struct ProviderRegistry {
    entries: Vec<(String, OpenAIProvider)>,
}

impl ProviderRegistry {
    /// The registered names, in order.
    pub closed spec fn names(&self) -> Seq<Seq<char>> {
        Seq::new(self.entries@.len(), |i: int| self.entries@[i].0@)
    }

    /// The provider registered under `name`.
    pub fn get_provider(&self, name: &str) -> (r: Option<&OpenAIProvider>)
        ensures
            r.is_some() <==> self.names().contains(name@),
    {
        let mut i: usize = 0;
        while i < self.entries.len()
            invariant
                i <= self.entries.len(),
                forall|j: int| 0 <= j < i ==> self.names()[j] != name@,
            decreases self.entries.len() - i,
        {
            if str_eq(self.entries[i].0.as_str(), name) {
                assert(self.names()[i as int] == name@);
                return Some(&self.entries[i].1);
            }
            i = i + 1;
        }
        None
    }
}

/// The provider registry with the Codex provider registered as `codex`.
pub fn init_providers() -> (registry: ProviderRegistry)
    ensures
        registry.names() == seq!["codex"@],
{
    let mut entries: Vec<(String, OpenAIProvider)> = Vec::new();
    entries.push((to_owned_string("codex"), OpenAIProvider));
    let registry = ProviderRegistry { entries };
    assert(registry.names() =~= seq!["codex"@]);
    registry
}

// ---------------------------------------------------------------------------
// The Codex proxy handlers' decisions
// ---------------------------------------------------------------------------

/// The provider request for a Responses body: its model (empty when absent),
/// the body itself, and no account.
pub fn provider_request_for(body: &JsonValue) -> (req: ProviderRequest)
    ensures
        req.model@ == text_or(as_text(member(body@, "model"@)), ""@),
        req.body@ == body@,
        req.account_id@ == Seq::<char>::empty(),
{
    let model = match opt_as_str(body.get("model")) {
        Some(m) => m.clone(),
        None => to_owned_string(""),
    };
    ProviderRequest { model, body: json_clone(body), account_id: String::new() }
}

/// The HTTP status passed on from an upstream reply: the reply's status when
/// it is a valid status code (100 to 999), else 200.
pub fn passed_on_status(status: u16) -> (s: u16)
    ensures
        s == if 100 <= status <= 999 {
            status
        } else {
            200
        },
{
    if 100 <= status && status <= 999 {
        status
    } else {
        200
    }
}

/// The reply text when the provider call fails.
pub fn proxy_error_message(err: &str) -> (m: String)
    ensures
        m@ == "Codex proxy error: "@ + err@,
{
    concat_str("Codex proxy error: ", err)
}

/// The API key of a streaming request: the bearer token of the
/// `authorization` header, else the body's `api_key` text.
pub open spec fn api_key_spec(authorization: Option<Seq<char>>, body: Json) -> Option<Seq<char>> {
    match authorization {
        Some(a) if seq_starts_with(a, "Bearer "@) => Some(a.subrange(7, a.len() as int)),
        _ => as_text(member(body, "api_key"@)),
    }
}

/// Extracts the API key of a streaming request from its `authorization`
/// header value (when it is readable text) and its body.
pub fn extract_codex_api_key(authorization: Option<&str>, body: &JsonValue) -> (r: Option<String>)
    ensures
        match r {
            Some(k) => api_key_spec(
                match authorization {
                    Some(a) => Some(a@),
                    None => None,
                },
                body@,
            ) == Some(k@),
            None => api_key_spec(
                match authorization {
                    Some(a) => Some(a@),
                    None => None,
                },
                body@,
            ).is_none(),
        },
{
    if let Some(a) = authorization {
        if starts_with_str(a, "Bearer ") {
            proof {
                reveal_strlit("Bearer ");
            }
            let v = chars_of(a);
            return Some(string_from_chars(&v, 7, v.len()));
        }
    }
    match opt_as_str(body.get("api_key")) {
        Some(k) => Some(k.clone()),
        None => None,
    }
}

/// The streaming Chat API body for a Responses body: the mapped chat body
/// with `stream` set and usage reporting asked for.
pub open spec fn stream_body_spec(body: Json) -> Json {
    match chat_body_spec(body) {
        Json::Object(m) => Json::Object(
            m.push(("stream"@, Json::Bool(true))).push(
                ("stream_options"@, Json::Object(seq![("include_usage"@, Json::Bool(true))])),
            ),
        ),
        other => other,
    }
}

/// Builds the streaming Chat API body for a Responses body.
pub fn stream_chat_body(body: &JsonValue) -> (r: JsonValue)
    ensures
        r@ == stream_body_spec(body@),
{
    let mapped = codex_response_to_chat(body);
    let ghost mapped_v = chat_body_spec(body@);
    match mapped {
        Ok(JsonValue::Object(mut members)) => {
            let ghost before = Seq::new(members@.len(), |i: int| (members@[i].0@, members@[i].1@));
            let mut opts: Vec<(String, JsonValue)> = Vec::new();
            opts.push((to_owned_string("include_usage"), JsonValue::Bool(true)));
            let opts_value = JsonValue::Object(opts);
            let ghost opts_v = opts_value@;
            members.push((to_owned_string("stream"), JsonValue::Bool(true)));
            members.push((to_owned_string("stream_options"), opts_value));
            let out = JsonValue::Object(members);
            proof {
                reveal_with_fuel(crate::json::json_view, 2);
                if let Json::Object(x) = opts_v {
                    assert(x =~= seq![("include_usage"@, Json::Bool(true))]);
                }
                if let Json::Object(m) = mapped_v {
                    assert(before =~= m);
                }
                if let Json::Object(x) = out@ {
                    assert(x =~= before.push(("stream"@, Json::Bool(true))).push(
                        ("stream_options"@, Json::Object(seq![("include_usage"@, Json::Bool(true))])),
                    ));
                }
            }
            out
        },
        Ok(other) => other,
        Err(_) => JsonValue::Null,
    }
}


/// A request the proxy refuses: the HTTP status and the reply text.
#[derive(Debug, PartialEq, Eq)]
pub struct ProxyRefusal {
    pub status: u16,
    pub message: String,
}

/// The Codex provider of the registry (absent when the registry was not set
/// up yet), or the refusal `503 Codex provider not configured`.
pub fn codex_provider_or_refusal(registry: Option<&ProviderRegistry>) -> (r: Result<
    &OpenAIProvider,
    ProxyRefusal,
>)
    ensures
        r is Ok <==> (registry matches Some(g) && g.names().contains("codex"@)),
        r matches Err(e) ==> e.status == 503 && e.message@ == "Codex provider not configured"@,
{
    let found = match registry {
        Some(g) => g.get_provider("codex"),
        None => None,
    };
    match found {
        Some(p) => Ok(p),
        None => Err(
            ProxyRefusal { status: 503, message: to_owned_string("Codex provider not configured") },
        ),
    }
}

/// The API key of a streaming request, or the refusal `401 Missing API key`
/// when neither the header nor the body carries one.
pub fn stream_api_key_or_refusal(authorization: Option<&str>, body: &JsonValue) -> (r: Result<
    String,
    ProxyRefusal,
>)
    ensures
        match r {
            Ok(k) => api_key_spec(
                match authorization {
                    Some(a) => Some(a@),
                    None => None,
                },
                body@,
            ) == Some(k@),
            Err(e) => api_key_spec(
                match authorization {
                    Some(a) => Some(a@),
                    None => None,
                },
                body@,
            ).is_none() && e.status == 401 && e.message@ == "Missing API key"@,
        },
{
    match extract_codex_api_key(authorization, body) {
        Some(k) => Ok(k),
        None => Err(ProxyRefusal { status: 401, message: to_owned_string("Missing API key") }),
    }
}

/// Whether an upstream reply's status is a success (2xx).
pub fn upstream_succeeded(status: u16) -> (r: bool)
    ensures
        r == (200 <= status && status <= 299),
{
    200 <= status && status <= 299
}

/// The refusal when the upstream request could not be sent:
/// `502 Upstream request failed: ` and the error.
pub fn upstream_request_refusal(err: &str) -> (e: ProxyRefusal)
    ensures
        e.status == 502,
        e.message@ == "Upstream request failed: "@ + err@,
{
    ProxyRefusal { status: 502, message: concat_str("Upstream request failed: ", err) }
}

/// The refusal when the upstream replied with a non-success status:
/// `502 Upstream error (<status>): <body>`.
pub fn upstream_status_refusal(status_text: &str, body: &str) -> (e: ProxyRefusal)
    ensures
        e.status == 502,
        e.message@ == "Upstream error ("@ + status_text@ + "): "@ + body@,
{
    let a = concat_str("Upstream error (", status_text);
    let b = concat_str(a.as_str(), "): ");
    ProxyRefusal { status: 502, message: concat_str(b.as_str(), body) }
}


/// Where a streaming request's API key comes from: a `Bearer ` authorization
/// header gives the rest of the header; with no header, or a header of any
/// other form, the key is the body's `api_key` member when that is a string,
/// and there is none otherwise.
pub proof fn lemma_api_key_sources(authorization: Option<Seq<char>>, body: Json)
    ensures
        (authorization matches Some(a) && a.len() >= 7 && a.subrange(0, 7) == "Bearer "@)
            ==> api_key_spec(authorization, body) == Some(
            authorization->0.subrange(7, authorization->0.len() as int),
        ),
        !(authorization matches Some(a) && a.len() >= 7 && a.subrange(0, 7) == "Bearer "@) ==> (
        api_key_spec(authorization, body) == match member(body, "api_key"@) {
            Some(Json::Str(k)) => Some(k),
            _ => None,
        }),
{
    reveal_strlit("Bearer ");
}

} // verus!
