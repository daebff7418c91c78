//! The data that the Ollama API returns, and what the report is made of.

use vstd::prelude::*;

verus! {

/// The model benchmarked when none is named.
pub const DEFAULT_MODEL: &'static str = "qwen3.5:9b-q4_K_M";

/// The Ollama API base URL used when none is named.
pub const DEFAULT_HOST: &'static str = "http://localhost:11434";

/// A prompt in the manner of a heavy analysis of a repository file.
pub const DEFAULT_PROMPT: &'static str =
    "Analyze the architectural structure of this code block, check for any concurrency bottlenecks, and propose an idiomatic refactor.";

/// The short prompt of the warmup run that precedes the measured runs.
pub const WARMUP_PROMPT: &'static str = "Hello, world!";

/// The counters of one `/api/generate` reply; each may be absent (the
/// prompt counters are, when Ollama serves the prompt from its KV cache).
#[derive(Debug)]
pub struct OllamaResponse {
    pub prompt_eval_count: Option<u32>,
    /// Nanoseconds.
    pub prompt_eval_duration: Option<u64>,
    pub eval_count: Option<u32>,
    /// Nanoseconds.
    pub eval_duration: Option<u64>,
}

/// The reply of `/api/version`.
#[derive(Debug)]
pub struct OllamaVersion {
    pub version: String,
}

/// The `details` of a model in `/api/tags`.
#[derive(Debug)]
pub struct ModelDetails {
    pub format: Option<String>,
    pub family: Option<String>,
    pub families: Option<Vec<String>>,
    pub parameter_size: Option<String>,
    pub quantization_level: Option<String>,
}

/// One model in `/api/tags`.
#[derive(Debug)]
pub struct ModelInfo {
    pub name: String,
    /// Bytes.
    pub size: u64,
    pub details: ModelDetails,
}

/// One projector in the reply of `/api/show`.
#[derive(Debug)]
pub struct ProjectorInfo {
    pub cache_type: Option<String>,
}

/// The reply of `/api/show`.
#[derive(Debug)]
pub struct OllamaShow {
    pub parameters: Option<String>,
    pub projectors: Option<Vec<ProjectorInfo>>,
}

/// The reply of `/api/tags`.
#[derive(Debug)]
pub struct OllamaTags {
    pub models: Vec<ModelInfo>,
}

/// What the report says of the machine, of Ollama and of the model.
#[derive(Debug)]
pub struct SystemInfo {
    pub os: String,
    pub cpu: String,
    pub ram_total: String,
    pub gpu: String,
    pub ollama_version: String,
    pub model_name: String,
    pub model_params: String,
    pub model_quant: String,
    pub model_family: String,
    pub model_size: String,
    /// `"GPU"` or `"CPU"`.
    pub device: String,
    pub kv_cache_type: String,
    pub ctx: u32,
    pub iterations: usize,
}

} // verus!
