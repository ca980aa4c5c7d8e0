//! Provider integrations.

pub mod fireworks;
pub mod openai;
pub mod redaction;
pub mod redaction_laws;

pub use crate::providers::redaction::json_with_redacted_images;
