//! The body of a request that has none.

use vstd::prelude::*;

verus! {

/// `bytes::Bytes`, whose contents [`bytes_contents`] names.
#[verifier::external_type_specification]
#[verifier::external_body]
pub struct ExBytes(bytes::Bytes);

/// `reqwest::Body`, whose contents [`body_contents`] names.
#[verifier::external_type_specification]
#[verifier::external_body]
pub struct ExBody(reqwest::Body);

/// The bytes.
pub uninterp spec fn bytes_contents(bytes: bytes::Bytes) -> Seq<u8>;

/// The bytes of a body that has them at hand; none for a stream.
pub uninterp spec fn body_contents(body: reqwest::Body) -> Option<Seq<u8>>;

/// Calls `Bytes::new`, which makes no bytes.
#[verifier::external_body]
fn new_bytes() -> (bytes: bytes::Bytes)
    ensures
        bytes_contents(bytes) == Seq::<u8>::empty(),
{
    bytes::Bytes::new()
}

/// Calls `Body::default`, which makes a body with no bytes.
#[verifier::external_body]
fn default_body() -> (body: reqwest::Body)
    ensures
        body_contents(body) == Some(Seq::<u8>::empty()),
{
    reqwest::Body::default()
}

/// No body.
#[derive(Debug, Clone, Copy)]
pub struct NoBody;

impl vstd::std_specs::convert::FromSpecImpl<NoBody> for bytes::Bytes {
    open spec fn obeys_from_spec() -> bool {
        false
    }

    open spec fn from_spec(value: NoBody) -> bytes::Bytes {
        arbitrary()
    }
}

impl From<NoBody> for bytes::Bytes {
    /// No bytes.
    fn from(value: NoBody) -> (bytes: bytes::Bytes)
        ensures
            bytes_contents(bytes) == Seq::<u8>::empty(),
    {
        new_bytes()
    }
}

impl vstd::std_specs::convert::FromSpecImpl<NoBody> for reqwest::Body {
    open spec fn obeys_from_spec() -> bool {
        false
    }

    open spec fn from_spec(value: NoBody) -> reqwest::Body {
        arbitrary()
    }
}

impl From<NoBody> for reqwest::Body {
    /// A body with no bytes.
    fn from(value: NoBody) -> (body: reqwest::Body)
        ensures
            body_contents(body) == Some(Seq::<u8>::empty()),
    {
        default_body()
    }
}

} // verus!
