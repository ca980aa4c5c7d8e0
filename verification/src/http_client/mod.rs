//! The rules of talking HTTP to a provider.

pub mod auth;
pub mod body;
pub mod error;
pub mod error_laws;
pub mod exchange;
pub mod headers;
pub mod no_body;
pub mod pretty;
pub mod status;
pub mod text;

pub use crate::http_client::auth::{bearer_auth_header, make_auth_header, with_bearer_auth};
pub use crate::http_client::body::text;
pub use crate::http_client::error::Error;
pub use crate::http_client::no_body::NoBody;
