//! JSON documents: their model, their objects and their links to `serde_json`.

pub mod bridge;
pub mod key;
pub mod laws;
pub mod lemmas;
pub mod model;
pub mod value;
