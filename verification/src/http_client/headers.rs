//! Header maps, names and values of the `http` crate.

use vstd::prelude::*;
use vstd::utf8::encode_utf8;

verus! {

/// `http::HeaderMap`, whose contents [`header_entries`] names.
#[verifier::external_type_specification]
#[verifier::external_body]
#[verifier::reject_recursive_types(T)]
pub struct ExHeaderMap<T>(http::HeaderMap<T>);

/// `http::HeaderName`, whose characters [`header_name_text`] names.
#[verifier::external_type_specification]
#[verifier::external_body]
pub struct ExHeaderName(http::HeaderName);

/// `http::HeaderValue`, whose bytes [`header_value_bytes`] names.
#[verifier::external_type_specification]
#[verifier::external_body]
pub struct ExHeaderValue(http::HeaderValue);

/// `http::header::InvalidHeaderValue`, which holds nothing.
#[verifier::external_type_specification]
#[verifier::external_body]
pub struct ExInvalidHeaderValue(http::header::InvalidHeaderValue);

/// `http::header::ToStrError`, which holds nothing.
#[verifier::external_type_specification]
#[verifier::external_body]
pub struct ExToStrError(http::header::ToStrError);

/// The values under each header name, in the order in which they were added: the bytes of each, and
/// whether it is marked as not to be shown. The names are in lower case.
pub uninterp spec fn header_entries(headers: http::HeaderMap<http::HeaderValue>) -> Map<
    Seq<char>,
    Seq<(Seq<u8>, bool)>,
>;

/// The characters of a header name, in lower case.
pub uninterp spec fn header_name_text(name: http::HeaderName) -> Seq<char>;

/// The bytes of a header value.
pub uninterp spec fn header_value_bytes(value: http::HeaderValue) -> Seq<u8>;

/// The header value is marked as not to be shown.
pub uninterp spec fn header_value_sensitive(value: http::HeaderValue) -> bool;

/// What headers hold, as [`header_entries`] has it.
pub type Entries = Map<Seq<char>, Seq<(Seq<u8>, bool)>>;

/// A byte that a header value may hold.
pub open spec fn is_header_byte(b: u8) -> bool {
    (b >= 32 && b != 127) || b == 9
}

/// A byte that stands for a visible character, a space or a tab.
pub open spec fn is_visible(b: u8) -> bool {
    (32 <= b < 127) || b == 9
}

/// All bytes stand for visible characters, spaces or tabs.
pub open spec fn all_visible(bytes: Seq<u8>) -> bool {
    forall|i: int| 0 <= i < bytes.len() ==> is_visible(#[trigger] bytes[i])
}

/// The text that visible bytes write.
pub open spec fn visible_text(bytes: Seq<u8>) -> Seq<char> {
    Seq::new(bytes.len(), |i: int| bytes[i] as char)
}

/// Every byte of the text may stand in a header value.
pub open spec fn is_header_text(text: Seq<char>) -> bool {
    forall|i: int|
        0 <= i < encode_utf8(text).len() ==> is_header_byte(#[trigger] encode_utf8(text)[i])
}

/// A text may stand in a header value if and only if none of its bytes is a control character other
/// than the tab.
pub proof fn law_control_characters_alone_are_refused(text: Seq<char>)
    ensures
        is_header_text(text) <==> forall|i: int|
            0 <= i < encode_utf8(text).len() ==> {
                let b = #[trigger] encode_utf8(text)[i];
                b == 9 || 32 <= b <= 126 || 128 <= b
            },
{
    if is_header_text(text) {
        assert forall|i: int| 0 <= i < encode_utf8(text).len() implies {
            let b = #[trigger] encode_utf8(text)[i];
            b == 9 || 32 <= b <= 126 || 128 <= b
        } by {
            assert(is_header_byte(encode_utf8(text)[i]));
        }
    }
}

/// How many header names a map may have for one more to be put in for certain: a map that is at its
/// largest and has met colliding names may refuse from the next one on.
pub const MAX_HEADER_NAMES: usize = 6553;

/// `http::header::RETRY_AFTER`: the name is `retry-after`.
#[verifier::external_body]
pub(crate) fn retry_after() -> (name: http::HeaderName)
    ensures
        header_name_text(name) == "retry-after"@,
{
    http::header::RETRY_AFTER
}

/// `http::header::AUTHORIZATION`: the name is `authorization`.
#[verifier::external_body]
pub(crate) fn authorization() -> (name: http::HeaderName)
    ensures
        header_name_text(name) == "authorization"@,
{
    http::header::AUTHORIZATION
}

/// Calls `HeaderMap::get`: the first value under the name, if there is one.
#[verifier::external_body]
pub(crate) fn header_get<'a>(
    headers: &'a http::HeaderMap<http::HeaderValue>,
    name: &http::HeaderName,
) -> (value: Option<&'a http::HeaderValue>)
    ensures
        value is Some == header_entries(*headers).contains_key(header_name_text(*name)),
        value matches Some(v) ==> {
            let all = header_entries(*headers)[header_name_text(*name)];
            all.len() > 0 && (header_value_bytes(*v), header_value_sensitive(*v)) == all[0]
        },
{
    headers.get(name)
}

/// Calls `HeaderMap::keys_len`: the number of different names.
#[verifier::external_body]
pub(crate) fn header_names(headers: &http::HeaderMap<http::HeaderValue>) -> (n: usize)
    ensures
        n == header_entries(*headers).dom().len(),
{
    headers.keys_len()
}

/// Calls `HeaderMap::insert`: the value takes the place of all that stood under the name. The call
/// panics on a map that cannot grow, which a map of so few names never is.
#[verifier::external_body]
pub(crate) fn header_insert(
    headers: &mut http::HeaderMap<http::HeaderValue>,
    name: http::HeaderName,
    value: http::HeaderValue,
)
    requires
        header_entries(*old(headers)).dom().len() <= MAX_HEADER_NAMES,
    ensures
        header_entries(*final(headers)) == header_entries(*old(headers)).insert(
            header_name_text(name),
            seq![(header_value_bytes(value), header_value_sensitive(value))],
        ),
{
    headers.insert(name, value);
}

/// Calls `HeaderMap::try_insert`: the value takes the place of all that stood under the name, or
/// nothing changes where the map cannot grow. Whether a map of more names than
/// [`MAX_HEADER_NAMES`] can grow depends on how its table has filled and is left unsaid.
#[verifier::external_body]
pub(crate) fn header_try_insert(
    headers: &mut http::HeaderMap<http::HeaderValue>,
    name: http::HeaderName,
    value: http::HeaderValue,
) -> (inserted: bool)
    ensures
        header_entries(*old(headers)).dom().len() <= MAX_HEADER_NAMES ==> inserted,
        header_entries(*final(headers)) == if inserted {
            header_entries(*old(headers)).insert(
                header_name_text(name),
                seq![(header_value_bytes(value), header_value_sensitive(value))],
            )
        } else {
            header_entries(*old(headers))
        },
{
    headers.try_insert(name, value).is_ok()
}

/// `HeaderValue::to_str` gives the text of a value whose bytes are all visible, and fails on any
/// other.
pub assume_specification[ http::HeaderValue::to_str ](value: &http::HeaderValue) -> (r: Result<
    &str,
    http::header::ToStrError,
>)
    ensures
        r is Ok == all_visible(header_value_bytes(*value)),
        r matches Ok(text) ==> text@ == visible_text(header_value_bytes(*value)),
;

/// `HeaderValue::from_str` holds the UTF-8 bytes of the text, shown openly, and fails where one of
/// them may not stand in a header value.
pub assume_specification[ http::HeaderValue::from_str ](src: &str) -> (r: Result<
    http::HeaderValue,
    http::header::InvalidHeaderValue,
>)
    ensures
        r is Ok == is_header_text(src@),
        r matches Ok(value) ==> {
            &&& header_value_bytes(value) == encode_utf8(src@)
            &&& !header_value_sensitive(value)
        },
;

} // verus!
