//! Bearer authentication.

use crate::http_client::error::Error;
use crate::http_client::headers::{
    authorization, header_entries, header_insert, header_name_text, header_names,
    header_try_insert, header_value_bytes, header_value_sensitive, is_header_text, Entries,
    MAX_HEADER_NAMES,
};
use vstd::prelude::*;
use vstd::utf8::encode_utf8;

verus! {

/// `http::request::Builder`, a request that is being put together or that has failed to be.
#[verifier::external_type_specification]
#[verifier::external_body]
pub struct ExBuilder(http::request::Builder);

/// `http::Extensions`, carried through unread.
#[verifier::external_type_specification]
#[verifier::external_body]
pub struct ExExtensions(http::Extensions);

/// The headers of a request that is being put together, as [`header_entries`] has them; none where
/// it has failed.
pub uninterp spec fn builder_entries(builder: http::request::Builder) -> Option<
    Map<Seq<char>, Seq<(Seq<u8>, bool)>>,
>;

/// The method, the URI and the version of a request that is being put together, as they are
/// written; none where it has failed.
pub uninterp spec fn builder_line(builder: http::request::Builder) -> Option<
    (Seq<char>, Seq<char>, Seq<char>),
>;

/// The extensions of a request that is being put together; none where it has failed.
pub uninterp spec fn builder_extensions(builder: http::request::Builder) -> Option<
    http::Extensions,
>;

/// Calls `Builder::headers_mut`: the headers of the request, to be changed, unless it has failed.
/// What is done to them is all that changes.
#[verifier::external_body]
fn builder_headers(builder: &mut http::request::Builder) -> (r: Option<
    &mut http::HeaderMap<http::HeaderValue>,
>)
    ensures
        builder_line(*final(builder)) == builder_line(*old(builder)),
        builder_extensions(*final(builder)) == builder_extensions(*old(builder)),
        match r {
            Some(headers) => {
                &&& builder_entries(*old(builder)) == Some(header_entries(*headers))
                &&& builder_entries(*final(builder)) == Some(header_entries(*final(headers)))
            },
            None => {
                &&& builder_entries(*old(builder)) is None
                &&& *final(builder) == *old(builder)
            },
        },
{
    builder.headers_mut()
}

/// What the `Authorization` header says for a key.
pub open spec fn bearer(key: Seq<char>) -> Seq<char> {
    "Bearer "@ + key
}

/// Headers that hold the key, shown openly, and no other authorization.
pub open spec fn with_key(entries: Entries, key: Seq<char>) -> Entries {
    entries.insert("authorization"@, seq![(encode_utf8(bearer(key)), false)])
}

/// The `Authorization` header for a key. It fails on a key that may not stand in a header.
pub fn make_auth_header(key: &str) -> (r: Result<(http::HeaderName, http::HeaderValue), Error>)
    ensures
        r is Ok == is_header_text(bearer(key@)),
        r matches Ok((name, value)) ==> {
            &&& header_name_text(name) == "authorization"@
            &&& header_value_bytes(value) == encode_utf8(bearer(key@))
            &&& header_value_bytes(value) == encode_utf8("Bearer "@ + key@)
            &&& !header_value_sensitive(value)
        },
        r is Ok == is_header_text("Bearer "@ + key@),
        r matches Err(error) ==> error is InvalidHeaderValue,
{
    let mut text = "Bearer ".to_owned();
    text.append(key);
    match http::HeaderValue::from_str(text.as_str()) {
        Ok(value) => Ok((authorization(), value)),
        Err(error) => Err(Error::from(error)),
    }
}

/// Puts the `Authorization` header for a key in place of any that is there. Where it fails, the
/// headers stay as they are.
pub fn bearer_auth_header(headers: &mut http::HeaderMap<http::HeaderValue>, key: &str) -> (r:
    Result<(), Error>)
    requires
        header_entries(*old(headers)).dom().len() <= MAX_HEADER_NAMES,
    ensures
        r is Ok == is_header_text(bearer(key@)),
        r is Ok ==> header_entries(*final(headers)) == with_key(
            header_entries(*old(headers)),
            key@,
        ),
        r is Ok ==> header_entries(*final(headers)) == header_entries(*old(headers)).insert(
            "authorization"@,
            seq![(encode_utf8("Bearer "@ + key@), false)],
        ),
        r is Ok == is_header_text("Bearer "@ + key@),
        r matches Err(error) ==> {
            &&& error is InvalidHeaderValue
            &&& *final(headers) == *old(headers)
        },
{
    match make_auth_header(key) {
        Ok((name, value)) => {
            header_insert(headers, name, value);
            Ok(())
        },
        Err(error) => Err(error),
    }
}

/// Does what [`bearer_auth_header`] does, on headers of any number. There is no result, and nothing
/// has changed, where they are too many to take in one more, which only headers of more than
/// [`MAX_HEADER_NAMES`] names are.
pub fn try_bearer_auth_header(
    headers: &mut http::HeaderMap<http::HeaderValue>,
    key: &str,
) -> (r: Option<Result<(), Error>>)
    ensures
        !is_header_text(bearer(key@)) ==> {
            &&& r matches Some(Err(error)) && error is InvalidHeaderValue
            &&& *final(headers) == *old(headers)
        },
        is_header_text(bearer(key@)) ==> match r {
            Some(done) => {
                &&& done is Ok
                &&& header_entries(*final(headers)) == with_key(header_entries(*old(headers)), key@)
            },
            None => {
                &&& header_entries(*old(headers)).dom().len() > MAX_HEADER_NAMES
                &&& header_entries(*final(headers)) == header_entries(*old(headers))
            },
        },
{
    if header_names(headers) <= MAX_HEADER_NAMES {
        return Some(bearer_auth_header(headers, key));
    }
    match make_auth_header(key) {
        Ok((name, value)) => if header_try_insert(headers, name, value) {
            Some(Ok(()))
        } else {
            None
        },
        Err(error) => Some(Err(error)),
    }
}

/// Gives a request that is being put together the `Authorization` header for a key, and changes
/// nothing else of it.
pub fn with_bearer_auth(req: http::request::Builder, auth: &str) -> (r: Result<
    http::request::Builder,
    Error,
>)
    requires
        builder_entries(req) matches Some(entries) ==> entries.dom().len() <= MAX_HEADER_NAMES,
    ensures
        r is Ok == (builder_entries(req) is Some && is_header_text(bearer(auth@))),
        r matches Ok(built) ==> {
            &&& builder_entries(built) == Some(with_key(builder_entries(req)->0, auth@))
            &&& builder_line(built) == builder_line(req)
            &&& builder_extensions(built) == builder_extensions(req)
        },
        r matches Err(error) ==> if builder_entries(req) is None {
            error is NoHeaders
        } else {
            error is InvalidHeaderValue
        },
{
    let mut req = req;
    match builder_headers(&mut req) {
        Some(headers) => match bearer_auth_header(headers, auth) {
            Ok(()) => {},
            Err(error) => {
                return Err(error);
            },
        },
        None => {
            return Err(Error::NoHeaders);
        },
    }
    Ok(req)
}

/// Does what [`with_bearer_auth`] does, on a request with any number of headers. There is no result
/// where they are too many to take in one more, which only headers of more than
/// [`MAX_HEADER_NAMES`] names are.
pub fn try_with_bearer_auth(req: http::request::Builder, auth: &str) -> (r: Option<
    Result<http::request::Builder, Error>,
>)
    ensures
        r is None ==> {
            &&& is_header_text(bearer(auth@))
            &&& builder_entries(req) matches Some(entries) && entries.dom().len()
                > MAX_HEADER_NAMES
        },
        r matches Some(done) ==> {
            &&& done is Ok == (builder_entries(req) is Some && is_header_text(bearer(auth@)))
            &&& done matches Ok(built) ==> {
                &&& builder_entries(built) == Some(with_key(builder_entries(req)->0, auth@))
                &&& builder_line(built) == builder_line(req)
                &&& builder_extensions(built) == builder_extensions(req)
            }
            &&& done matches Err(error) ==> if builder_entries(req) is None {
                error is NoHeaders
            } else {
                error is InvalidHeaderValue
            }
        },
{
    let mut req = req;
    let few = match builder_headers(&mut req) {
        Some(headers) => header_names(headers) <= MAX_HEADER_NAMES,
        None => true,
    };
    if few {
        return Some(with_bearer_auth(req, auth));
    }
    let done = match builder_headers(&mut req) {
        Some(headers) => try_bearer_auth_header(headers, auth),
        None => Some(Err(Error::NoHeaders)),
    };
    match done {
        Some(Ok(())) => Some(Ok(req)),
        Some(Err(error)) => Some(Err(error)),
        None => None,
    }
}

/// Of two keys given one after the other only the second is sent, and no other header is touched.
pub proof fn law_last_key_counts(
    entries: Entries,
    first: Seq<char>,
    second: Seq<char>,
    name: Seq<char>,
)
    ensures
        with_key(with_key(entries, first), second) == with_key(entries, second),
        with_key(entries, second)["authorization"@] == seq![
            (encode_utf8(bearer(second)), false),
        ],
        name != "authorization"@ ==> {
            &&& with_key(entries, second).contains_key(name) == entries.contains_key(name)
            &&& entries.contains_key(name) ==> with_key(entries, second)[name] == entries[name]
        },
{
    assert(with_key(with_key(entries, first), second) =~= with_key(entries, second));
}

/// Headers with a key have under `authorization` one value, which is shown openly: the word
/// `Bearer`, a space and the key. Every other name has the values that it had.
pub proof fn law_key_is_sent_as_bearer(entries: Entries, key: Seq<char>)
    ensures
        bearer(key).len() == 7 + key.len(),
        bearer(key).take(7) == seq!['B', 'e', 'a', 'r', 'e', 'r', ' '],
        bearer(key).skip(7) == key,
        with_key(entries, key).dom() == entries.dom().insert("authorization"@),
        with_key(entries, key)["authorization"@].len() == 1,
        with_key(entries, key)["authorization"@][0] == (encode_utf8("Bearer "@ + key), false),
        forall|name: Seq<char>|
            name != "authorization"@ && entries.contains_key(name) ==> #[trigger] with_key(
                entries,
                key,
            )[name] == entries[name],
{
    reveal_strlit("Bearer ");
    assert("Bearer "@ =~= seq!['B', 'e', 'a', 'r', 'e', 'r', ' ']);
    assert(bearer(key).take(7) =~= "Bearer "@);
    assert(bearer(key).skip(7) =~= key);
}

} // verus!
