//! LLM-assisted source pattern generation: the prompt sent to an
//! OpenAI-compatible chat API, the checks on what comes back, the naming of
//! cached pattern files, the retry timing, and the pattern quality counts.
//! The HTTP calls, the environment and the cache files are handled by the
//! caller.

pub mod cache;
pub mod client;
pub mod prompt;
pub mod quality;

use vstd::prelude::*;

verus! {

/// Configuration for the LLM pattern generator.
pub struct LlmConfig {
    pub endpoint: String,
    pub api_key: String,
    pub model: String,
    /// Milliseconds to wait between consecutive LLM API calls.
    pub rate_limit_ms: u64,
}

} // verus!
