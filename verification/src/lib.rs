//! Verified core of a hardware benchmark for Ollama language models.
//!
//! The library holds the data that the Ollama API hands back, the decisions
//! that turn a reply into a measurement, the lookup of a model's metadata,
//! the parsing of what the GPU probes print, and the text of the report.
//! Network, process and terminal work, and all floating-point arithmetic,
//! live outside it.

pub mod text;
pub mod types;
pub mod details;
pub mod metrics;
pub mod system;
pub mod display;
