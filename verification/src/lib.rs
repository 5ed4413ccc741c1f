//! Reading Codex CLI JSONL session logs into rendered observations, and
//! projecting them for the viewer's transport boundary.

pub mod text;
pub mod json;
pub mod event_counts;
pub mod domain;
pub mod jsonl;
pub mod session;
pub mod paths;
pub mod start_dir;
pub mod api;
pub mod parse_laws;
pub mod api_laws;
