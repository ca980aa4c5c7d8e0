//! The Fireworks AI provider.

use crate::http_client::error::Error;
use vstd::prelude::*;

verus! {

/// Fireworks' OpenAI-compatible Chat Completions base URL.
pub const FIREWORKS_API_BASE_URL: &'static str = "https://api.fireworks.ai/inference/v1";

/// Fireworks-hosted Kimi K3 model identifier.
pub const KIMI_K3: &'static str = "accounts/fireworks/models/kimi-k3";

/// The environment variable that holds the API key.
pub const API_KEY_VAR: &'static str = "FIREWORKS_API_KEY";

/// The environment variable that may hold another base URL.
pub const API_BASE_VAR: &'static str = "FIREWORKS_API_BASE";

/// Fireworks provider extension of a client.
#[derive(Debug, Default, Clone, Copy)]
pub struct FireworksExt;

/// Builder state for the Fireworks provider extension.
#[derive(Debug, Default, Clone, Copy)]
pub struct FireworksBuilder;

impl FireworksExt {
    /// The path, below the base URL, whose success shows that a client works.
    pub const VERIFY_PATH: &'static str = "/models";

    /// The name by which the provider is known in traces.
    pub const PROVIDER_NAME: &'static str = "fireworks";
}

/// What a Fireworks client is made from.
pub struct ClientBuilder {
    api_key: String,
    base_url: String,
}

/// A Fireworks client.
pub struct Client {
    api_key: String,
    base_url: String,
    extension: FireworksExt,
}

impl FireworksBuilder {
    /// The base URL of a client that is given no other.
    pub const BASE_URL: &'static str = FIREWORKS_API_BASE_URL;

    /// Makes the extension, which is the same for every client.
    pub fn build(_builder: &ClientBuilder) -> (r: Result<FireworksExt, Error>)
        ensures
            r == Ok::<FireworksExt, Error>(FireworksExt),
    {
        Ok(FireworksExt)
    }
}

impl ClientBuilder {
    /// The key.
    pub closed spec fn key(self) -> Seq<char> {
        self.api_key@
    }

    /// The base URL.
    pub closed spec fn base(self) -> Seq<char> {
        self.base_url@
    }

    /// A builder with a key and the base URL of the provider.
    pub fn new(api_key: String) -> (builder: ClientBuilder)
        ensures
            builder.key() == api_key@,
            builder.base() == FIREWORKS_API_BASE_URL@,
    {
        ClientBuilder { api_key, base_url: FireworksBuilder::BASE_URL.to_owned() }
    }

    /// The builder with another base URL.
    pub fn base_url(self, base_url: String) -> (builder: ClientBuilder)
        ensures
            builder.key() == self.key(),
            builder.base() == base_url@,
    {
        ClientBuilder { api_key: self.api_key, base_url }
    }

    /// Makes the client.
    pub fn build(self) -> (r: Result<Client, Error>)
        ensures
            r matches Ok(client) && client.key() == self.key() && client.base() == self.base(),
    {
        match FireworksBuilder::build(&self) {
            Ok(extension) => Ok(
                Client { api_key: self.api_key, base_url: self.base_url, extension },
            ),
            Err(error) => Err(error),
        }
    }
}

/// Why there is no client. `V` is what reading an environment variable fails with.
pub enum ClientError<V> {
    /// An environment variable is missing or cannot be read.
    Variable(V),
    /// The client could not be made.
    Http(Error),
}

impl Client {
    /// The key.
    pub closed spec fn key(self) -> Seq<char> {
        self.api_key@
    }

    /// The base URL.
    pub closed spec fn base(self) -> Seq<char> {
        self.base_url@
    }

    /// Makes a client from what the environment variables hold: [`API_KEY_VAR`], which has to be
    /// there, and [`API_BASE_VAR`], which need not. A failure to read the first comes first.
    pub fn from_env<V>(api_key: Result<String, V>, api_base: Result<Option<String>, V>) -> (r:
        Result<Client, ClientError<V>>)
        ensures
            match (api_key, api_base, r) {
                (Err(failure), _, Err(error)) => error == ClientError::Variable(failure),
                (Ok(_), Err(failure), Err(error)) => error == ClientError::Variable(failure),
                (Ok(key), Ok(base), Ok(client)) => {
                    &&& client.key() == key@
                    &&& client.base() == match base {
                        Some(url) => url@,
                        None => FIREWORKS_API_BASE_URL@,
                    }
                },
                _ => false,
            },
    {
        let api_key = match api_key {
            Ok(key) => key,
            Err(failure) => {
                return Err(ClientError::Variable(failure));
            },
        };
        let mut builder = ClientBuilder::new(api_key);
        match api_base {
            Ok(Some(url)) => {
                builder = builder.base_url(url);
            },
            Ok(None) => {},
            Err(failure) => {
                return Err(ClientError::Variable(failure));
            },
        }
        match builder.build() {
            Ok(client) => Ok(client),
            Err(error) => Err(ClientError::Http(error)),
        }
    }

    /// Makes a client from a key, with the base URL of the provider.
    pub fn from_val<V>(api_key: String) -> (r: Result<Client, ClientError<V>>)
        ensures
            r matches Ok(client) && client.key() == api_key@ && client.base()
                == FIREWORKS_API_BASE_URL@,
    {
        match ClientBuilder::new(api_key).build() {
            Ok(client) => Ok(client),
            Err(error) => Err(ClientError::Http(error)),
        }
    }

    /// The key.
    pub fn api_key(&self) -> (key: &str)
        ensures
            key@ == self.key(),
    {
        self.api_key.as_str()
    }

    /// The base URL.
    pub fn base_url(&self) -> (url: &str)
        ensures
            url@ == self.base(),
    {
        self.base_url.as_str()
    }

    /// The provider extension.
    pub fn ext(&self) -> (extension: FireworksExt)
        ensures
            extension == FireworksExt,
    {
        self.extension
    }
}

} // verus!
