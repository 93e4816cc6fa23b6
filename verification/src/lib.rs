//! The automatic mode of a coding agent: an orchestrator plans, workers execute, and
//! a store remembers.
//!
//! * [`auto`]: plans, the executor and its workers.
//! * [`agent_bridge`]: the store, the settings, and the turns that tie them together.
//! * [`prompt`]: the system prompt.
//! * [`json`], [`text`], [`clock`], [`llm`], [`types`]: what the others are built on.

pub mod agent_bridge;
pub mod auto;
pub mod clock;
pub mod json;
pub mod llm;
pub mod prompt;
pub mod prompt_laws;
pub mod sqlite;
pub mod text;
pub mod text_laws;
pub mod types;
