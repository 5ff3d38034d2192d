//! Miyu's tool logic: token estimation, the tool registry and its on-demand catalogue,
//! clipboard classification, the wait spinner's frames, script metadata, diagnostics
//! inference and game-compatibility verdicts.
pub mod text;
pub mod token_estimate;
pub mod llm;
pub mod agent;
pub mod render;
pub mod tools;
pub mod clipboard;
