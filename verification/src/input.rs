//! The session description that a status line is rendered from.

use vstd::prelude::*;

verus! {

/// Token counts of the latest request, by category.
#[derive(Debug, PartialEq, Eq)]
pub struct CurrentUsage {
    pub input_tokens: Option<u64>,
    pub cache_creation_input_tokens: Option<u64>,
    pub cache_read_input_tokens: Option<u64>,
}

/// How much of the model's context window is in use.
#[derive(Debug, PartialEq, Eq)]
pub struct ContextWindow {
    pub current_usage: Option<CurrentUsage>,
    pub context_window_size: Option<u64>,
}

/// The model that serves the session.
#[derive(Debug, PartialEq, Eq)]
pub struct Model {
    pub display_name: String,
}

/// Everything the host reports about the session.
#[derive(Debug, PartialEq, Eq)]
pub struct Input {
    pub cwd: String,
    pub transcript_path: String,
    pub model: Model,
    pub context_window: Option<ContextWindow>,
}

} // verus!
