//! Verified core of the Atlas local workspace: text normalisation, search
//! query parsing, document chunking, calendar arithmetic, prompt context
//! assembly and the small decision rules that the desktop shell relies on.

pub mod calendar;
pub mod chat;
pub mod chunking;
pub mod context;
pub mod diagnostics;
pub mod digits;
pub mod domain;
pub mod export;
pub mod indexing;
pub mod jobs;
pub mod json;
pub mod knowledge;
pub mod memory;
pub mod search;
pub mod model;
pub mod ollama_http;
pub mod summary;
pub mod text;
pub mod tool_calls;
pub mod tools;
pub mod unicode;
pub mod workflow;
