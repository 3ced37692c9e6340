# llm_proxy_manager

The verified core of a local AI account manager and protocol proxy.

- `src/` is the library, verified with Verus:
  - `text.rs` — character-level string helpers with exact specifications.
  - `json.rs` — a plain JSON value and its mathematical view.
  - `mappers.rs` — Codex Responses API ⇄ OpenAI Chat API body mapping.
  - `stream.rs` — the Chat completion stream to Responses event stream
    converter, with the law that the text deltas sent follow the upstream
    contents in order.
  - `providers.rs` — the Codex provider, the provider registry, and the proxy
    handlers' decisions.
  - `oauth_codex.rs` — Codex OAuth as a public client with PKCE (S256): the
    authorization URL, the token endpoint forms (no client secret), the PKCE
    pair, reply handling, and token refresh decisions.
  - `oauth_flow.rs` — the single active OAuth flow: reuse or replacement,
    loopback redirect URIs, callback parsing, CSRF checks, manual submission.
  - `update_checker.rs` — version comparison (a proved strict order), the
    disabled update check, settings, and Homebrew decisions.
- `app/` holds the I/O around it: HTTP calls, loopback listeners and channels,
  settings files, the Homebrew process, axum handlers, and serde forms.
- `tests/` exercises the library on concrete values.
