//! A local AI account manager and protocol proxy: OAuth flows for Codex and
//! Gemini accounts, request/response mapping between the Codex Responses API
//! and the OpenAI Chat API, the streaming event converter, and the update
//! checker's version logic.
use vstd::prelude::*;

pub mod json;
pub mod mappers;
pub mod oauth_codex;
pub mod oauth_flow;
pub mod providers;
pub mod stream;
pub mod text;
pub mod update_checker;

verus! {
} // verus!
