//! Typed AST for log messages, its semantic resolution and its reduction.

pub mod condition;
pub mod condition_texts;
pub mod types;
