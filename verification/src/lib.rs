//! Request and response rules shared by the model providers.

pub mod http_client;
pub mod json;
pub mod providers;
