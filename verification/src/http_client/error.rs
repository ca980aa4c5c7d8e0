//! What can go wrong in an exchange.

use crate::http_client::headers::{
    all_visible, header_entries, header_get, header_value_bytes, header_value_sensitive, is_visible,
    retry_after, visible_text, Entries,
};
use crate::http_client::pretty::{append_field, field_pretty};
use crate::http_client::status::{status_display, StatusCode};
use crate::http_client::text::{
    bound_error_message, bounded, decimal, digits_value, is_decimal,
    law_bounded_text_is_the_longest_that_fits, law_short_text_is_unchanged,
    law_written_number_is_read_back, lemma_decimal, parse_u64, parsed_u64, to_decimal, unsigned,
    MAX_ERROR_MESSAGE_BYTES,
};
use vstd::prelude::*;
use vstd::utf8::encode_utf8;

verus! {

/// An error of another crate, by what it says of itself.
pub struct Cause {
    /// What it says to users.
    pub display: String,
    /// What it says to developers.
    pub debug: String,
    /// What it says to developers, spread over lines.
    pub debug_pretty: String,
}

/// What can go wrong in an exchange.
pub enum Error {
    /// The request or the response could not be put together.
    Protocol(Cause),
    /// The status was not the expected one.
    InvalidStatusCode(StatusCode),
    /// The status was not the expected one, and the response said why.
    InvalidStatusCodeWithMessage(StatusCode, String),
    /// A non-success response returned by an upstream service.
    Status {
        /// The upstream HTTP response status.
        status: StatusCode,
        /// Numeric `Retry-After` delay, when supplied by the upstream service.
        retry_after_secs: Option<u64>,
        /// A bounded response-body preview for structured error handling.
        message: String,
    },
    /// A header value held what it may not hold.
    InvalidHeaderValue(http::header::InvalidHeaderValue),
    /// The request being built has no headers, for it has failed before.
    NoHeaders,
    /// The stream came to its end too early.
    StreamEnded,
    /// The response had a content type that was not expected.
    InvalidContentType(http::HeaderValue),
    /// The client failed.
    Instance(Cause),
}

impl vstd::std_specs::convert::FromSpecImpl<http::header::InvalidHeaderValue> for Error {
    open spec fn obeys_from_spec() -> bool {
        true
    }

    open spec fn from_spec(error: http::header::InvalidHeaderValue) -> Error {
        Error::InvalidHeaderValue(error)
    }
}

impl From<http::header::InvalidHeaderValue> for Error {
    fn from(error: http::header::InvalidHeaderValue) -> (r: Error) {
        Error::InvalidHeaderValue(error)
    }
}

/// What the `Retry-After` header asks for: the number that its first value writes.
pub open spec fn retry_after_of(entries: Entries) -> Option<u64> {
    if entries.contains_key("retry-after"@) && all_visible(entries["retry-after"@][0].0) {
        parsed_u64(visible_text(entries["retry-after"@][0].0))
    } else {
        None
    }
}

/// `error` reports `status` with the delay that the headers ask for and as much of the message as
/// is kept.
pub open spec fn reports_status(
    error: Error,
    status: StatusCode,
    entries: Entries,
    message: Seq<char>,
) -> bool {
    error matches Error::Status { status: s, retry_after_secs: r, message: m } && s == status && r
        == retry_after_of(entries) && m@ == bounded(message, MAX_ERROR_MESSAGE_BYTES as int)
}

/// The error for a non-success response.
pub fn status_error(
    status: StatusCode,
    headers: &http::HeaderMap<http::HeaderValue>,
    message: String,
) -> (error: Error)
    ensures
        reports_status(error, status, header_entries(*headers), message@),
        error matches Error::Status { status: s, retry_after_secs: r, message: m } && {
            &&& s == status
            &&& !header_entries(*headers).contains_key("retry-after"@) ==> r is None
            &&& m@.is_prefix_of(message@)
            &&& encode_utf8(m@).len() <= 8192
            &&& encode_utf8(message@).len() <= 8192 ==> m@ == message@
        },
{
    proof {
        law_bounded_text_is_the_longest_that_fits(message@, MAX_ERROR_MESSAGE_BYTES as int);
        if encode_utf8(message@).len() <= 8192 {
            law_short_text_is_unchanged(message@, MAX_ERROR_MESSAGE_BYTES as int);
        }
    }
    let retry_after_secs = match header_get(headers, &retry_after()) {
        Some(value) => match value.to_str() {
            Ok(text) => parse_u64(text),
            Err(_) => None,
        },
        None => None,
    };
    Error::Status { status, retry_after_secs, message: bound_error_message(message) }
}

/// A hexadecimal digit.
pub open spec fn hex_digit(d: u8) -> char {
    if d < 10 {
        ('0' as u8 + d) as char
    } else {
        ('a' as u8 + (d - 10)) as char
    }
}

/// A byte in hexadecimal digits, as few as it takes.
pub open spec fn hex(b: u8) -> Seq<char> {
    if b < 16 {
        seq![hex_digit(b)]
    } else {
        seq![hex_digit(b / 16), hex_digit(b % 16)]
    }
}

/// A byte of a header value as it is shown: a quotation mark and what is not visible is escaped.
pub open spec fn escaped_byte(b: u8) -> Seq<char> {
    if b == 34 {
        "\\\""@
    } else if is_visible(b) {
        seq![b as char]
    } else {
        "\\x"@ + hex(b)
    }
}

/// Bytes of a header value as they are shown.
pub open spec fn escaped(bytes: Seq<u8>) -> Seq<char>
    decreases bytes.len(),
{
    if bytes.len() == 0 {
        Seq::empty()
    } else {
        escaped(bytes.drop_last()) + escaped_byte(bytes.last())
    }
}

/// A header value as it is shown.
pub open spec fn header_value_shown(value: http::HeaderValue) -> Seq<char> {
    if header_value_sensitive(value) {
        "Sensitive"@
    } else {
        "\""@ + escaped(header_value_bytes(value)) + "\""@
    }
}

/// Calls `HeaderValue`'s `Debug`: the bytes between quotation marks, escaped where they need it, or
/// one word where they are not to be shown.
#[verifier::external_body]
fn header_value_text(value: &http::HeaderValue) -> (text: String)
    ensures
        text@ == header_value_shown(*value),
{
    format!("{:?}", value)
}

/// Calls `InvalidHeaderValue`'s `Display`, which writes the same for every value.
#[verifier::external_body]
fn invalid_header_value_display(error: &http::header::InvalidHeaderValue) -> (text: String)
    ensures
        text@ == "failed to parse header value"@,
{
    error.to_string()
}

/// Calls `InvalidHeaderValue`'s `Debug`, which writes the same for every value.
#[verifier::external_body]
fn invalid_header_value_debug(error: &http::header::InvalidHeaderValue) -> (text: String)
    ensures
        text@ == "InvalidHeaderValue"@,
{
    format!("{:?}", error)
}

/// A text between quotation marks, with the escapes of `str`'s `Debug`.
pub uninterp spec fn quoted(text: Seq<char>) -> Seq<char>;

/// Calls `str`'s `Debug`. The contract names what it writes.
#[verifier::external_body]
fn quote(text: &str) -> (shown: String)
    ensures
        shown@ == quoted(text@),
{
    format!("{:?}", text)
}

/// What an error says to users.
pub open spec fn error_display(error: Error) -> Seq<char> {
    match error {
        Error::Protocol(cause) => "Http error: "@ + cause.display@,
        Error::InvalidStatusCode(status) => "Invalid status code: "@ + status_display(
            status.code(),
        ),
        Error::InvalidStatusCodeWithMessage(status, message) => "Invalid status code "@
            + status_display(status.code()) + " with message: "@ + message@,
        Error::Status { status, .. } => "upstream returned HTTP "@ + status_display(
            status.code(),
        ),
        Error::InvalidHeaderValue(_) =>
            "Header value outside of legal range: failed to parse header value"@,
        Error::NoHeaders => "Request in error state, cannot access headers"@,
        Error::StreamEnded => "Stream ended"@,
        Error::InvalidContentType(value) => "Invalid content type was returned: "@
            + header_value_shown(value),
        Error::Instance(cause) => "Http client error: "@ + cause.display@,
    }
}

/// A delay as it is shown.
pub open spec fn delay_shown(delay: Option<u64>) -> Seq<char> {
    match delay {
        Some(secs) => "Some("@ + decimal(secs as nat) + ")"@,
        None => "None"@,
    }
}

/// What an error says to developers. What an upstream service wrote stays hidden.
pub open spec fn error_debug(error: Error) -> Seq<char> {
    match error {
        Error::Protocol(cause) => "Protocol("@ + cause.debug@ + ")"@,
        Error::InvalidStatusCode(status) => "InvalidStatusCode("@ + decimal(status.code() as nat)
            + ")"@,
        Error::InvalidStatusCodeWithMessage(status, message) => "InvalidStatusCodeWithMessage("@
            + decimal(status.code() as nat) + ", "@ + quoted(message@) + ")"@,
        Error::Status { status, retry_after_secs, .. } => "Status { status: "@ + decimal(
            status.code() as nat,
        ) + ", retry_after_secs: "@ + delay_shown(retry_after_secs)
            + ", message: \"<redacted>\" }"@,
        Error::InvalidHeaderValue(_) => "InvalidHeaderValue(InvalidHeaderValue)"@,
        Error::NoHeaders => "NoHeaders"@,
        Error::StreamEnded => "StreamEnded"@,
        Error::InvalidContentType(value) => "InvalidContentType("@ + header_value_shown(value)
            + ")"@,
        Error::Instance(cause) => "Instance("@ + cause.debug@ + ")"@,
    }
}

/// A delay as it is shown, spread over lines.
pub open spec fn delay_pretty(delay: Option<u64>) -> Seq<char> {
    match delay {
        Some(secs) => "Some(\n"@ + field_pretty(decimal(secs as nat)) + ")"@,
        None => "None"@,
    }
}

/// What an error says to developers, spread over lines. What an upstream service wrote stays hidden.
pub open spec fn error_debug_pretty(error: Error) -> Seq<char> {
    match error {
        Error::Protocol(cause) => "Protocol(\n"@ + field_pretty(cause.debug_pretty@) + ")"@,
        Error::InvalidStatusCode(status) => "InvalidStatusCode(\n"@ + field_pretty(
            decimal(status.code() as nat),
        ) + ")"@,
        Error::InvalidStatusCodeWithMessage(status, message) => "InvalidStatusCodeWithMessage(\n"@
            + field_pretty(decimal(status.code() as nat)) + field_pretty(quoted(message@)) + ")"@,
        Error::Status { status, retry_after_secs, .. } => "Status {\n"@ + field_pretty(
            "status: "@ + decimal(status.code() as nat),
        ) + field_pretty("retry_after_secs: "@ + delay_pretty(retry_after_secs)) + field_pretty(
            "message: \"<redacted>\""@,
        ) + "}"@,
        Error::InvalidHeaderValue(_) => "InvalidHeaderValue(\n"@ + field_pretty(
            "InvalidHeaderValue"@,
        ) + ")"@,
        Error::NoHeaders => "NoHeaders"@,
        Error::StreamEnded => "StreamEnded"@,
        Error::InvalidContentType(value) => "InvalidContentType(\n"@ + field_pretty(
            header_value_shown(value),
        ) + ")"@,
        Error::Instance(cause) => "Instance(\n"@ + field_pretty(cause.debug_pretty@) + ")"@,
    }
}

/// Joins a text and what follows it.
fn join(front: &str, back: &str) -> (text: String)
    ensures
        text@ == front@ + back@,
{
    let mut text = front.to_owned();
    text.append(back);
    text
}

/// Puts a text between two others.
fn enclose(front: &str, middle: &str, back: &str) -> (text: String)
    ensures
        text@ == front@ + middle@ + back@,
{
    let mut text = front.to_owned();
    text.append(middle);
    text.append(back);
    text
}

/// Writes a delay.
fn show_delay(delay: Option<u64>) -> (text: String)
    ensures
        text@ == delay_shown(delay),
{
    match delay {
        Some(secs) => enclose("Some(", to_decimal(secs).as_str(), ")"),
        None => "None".to_owned(),
    }
}

/// Puts a field, on lines of its own, between two texts.
fn enclose_field(front: &str, field: &str, back: &str) -> (text: String)
    ensures
        text@ == front@ + field_pretty(field@) + back@,
{
    let mut text = front.to_owned();
    append_field(&mut text, field);
    text.append(back);
    text
}

/// Writes a delay, spread over lines.
fn show_delay_pretty(delay: Option<u64>) -> (text: String)
    ensures
        text@ == delay_pretty(delay),
{
    match delay {
        Some(secs) => enclose_field("Some(\n", to_decimal(secs).as_str(), ")"),
        None => "None".to_owned(),
    }
}

impl Error {
    /// What the error says to users.
    pub fn display_text(&self) -> (text: String)
        ensures
            text@ == error_display(*self),
    {
        match self {
            Error::Protocol(cause) => join("Http error: ", cause.display.as_str()),
            Error::InvalidStatusCode(status) => join(
                "Invalid status code: ",
                status.display_text().as_str(),
            ),
            Error::InvalidStatusCodeWithMessage(status, message) => {
                let mut text = enclose(
                    "Invalid status code ",
                    status.display_text().as_str(),
                    " with message: ",
                );
                text.append(message.as_str());
                text
            },
            Error::Status { status, .. } => join(
                "upstream returned HTTP ",
                status.display_text().as_str(),
            ),
            Error::InvalidHeaderValue(error) => {
                proof {
                    reveal_strlit("Header value outside of legal range: ");
                    reveal_strlit("failed to parse header value");
                    reveal_strlit(
                        "Header value outside of legal range: failed to parse header value",
                    );
                    assert("Header value outside of legal range: failed to parse header value"@
                        =~= "Header value outside of legal range: "@
                        + "failed to parse header value"@);
                }
                join(
                    "Header value outside of legal range: ",
                    invalid_header_value_display(error).as_str(),
                )
            },
            Error::NoHeaders => "Request in error state, cannot access headers".to_owned(),
            Error::StreamEnded => "Stream ended".to_owned(),
            Error::InvalidContentType(value) => join(
                "Invalid content type was returned: ",
                header_value_text(value).as_str(),
            ),
            Error::Instance(cause) => join("Http client error: ", cause.display.as_str()),
        }
    }

    /// What the error says to developers. What an upstream service wrote stays hidden.
    pub fn debug_text(&self) -> (text: String)
        ensures
            text@ == error_debug(*self),
    {
        match self {
            Error::Protocol(cause) => enclose("Protocol(", cause.debug.as_str(), ")"),
            Error::InvalidStatusCode(status) => enclose(
                "InvalidStatusCode(",
                to_decimal(status.as_u16() as u64).as_str(),
                ")",
            ),
            Error::InvalidStatusCodeWithMessage(status, message) => {
                let mut text = enclose(
                    "InvalidStatusCodeWithMessage(",
                    to_decimal(status.as_u16() as u64).as_str(),
                    ", ",
                );
                text.append(quote(message.as_str()).as_str());
                text.append(")");
                text
            },
            Error::Status { status, retry_after_secs, .. } => {
                let mut text = enclose(
                    "Status { status: ",
                    to_decimal(status.as_u16() as u64).as_str(),
                    ", retry_after_secs: ",
                );
                text.append(show_delay(*retry_after_secs).as_str());
                text.append(", message: \"<redacted>\" }");
                text
            },
            Error::InvalidHeaderValue(error) => {
                proof {
                    reveal_strlit("InvalidHeaderValue(");
                    reveal_strlit("InvalidHeaderValue");
                    reveal_strlit(")");
                    reveal_strlit("InvalidHeaderValue(InvalidHeaderValue)");
                    assert("InvalidHeaderValue(InvalidHeaderValue)"@ =~= "InvalidHeaderValue("@
                        + "InvalidHeaderValue"@ + ")"@);
                }
                enclose("InvalidHeaderValue(", invalid_header_value_debug(error).as_str(), ")")
            },
            Error::NoHeaders => "NoHeaders".to_owned(),
            Error::StreamEnded => "StreamEnded".to_owned(),
            Error::InvalidContentType(value) => enclose(
                "InvalidContentType(",
                header_value_text(value).as_str(),
                ")",
            ),
            Error::Instance(cause) => enclose("Instance(", cause.debug.as_str(), ")"),
        }
    }

    /// What the error says to developers, spread over lines. What an upstream service wrote stays
    /// hidden.
    pub fn debug_pretty_text(&self) -> (text: String)
        ensures
            text@ == error_debug_pretty(*self),
    {
        match self {
            Error::Protocol(cause) => enclose_field("Protocol(\n", cause.debug_pretty.as_str(), ")"),
            Error::InvalidStatusCode(status) => enclose_field(
                "InvalidStatusCode(\n",
                to_decimal(status.as_u16() as u64).as_str(),
                ")",
            ),
            Error::InvalidStatusCodeWithMessage(status, message) => {
                let mut text = "InvalidStatusCodeWithMessage(\n".to_owned();
                append_field(&mut text, to_decimal(status.as_u16() as u64).as_str());
                append_field(&mut text, quote(message.as_str()).as_str());
                text.append(")");
                text
            },
            Error::Status { status, retry_after_secs, .. } => {
                let mut text = "Status {\n".to_owned();
                let code = to_decimal(status.as_u16() as u64);
                append_field(&mut text, join("status: ", code.as_str()).as_str());
                let delay = show_delay_pretty(*retry_after_secs);
                append_field(&mut text, join("retry_after_secs: ", delay.as_str()).as_str());
                append_field(&mut text, "message: \"<redacted>\"");
                text.append("}");
                text
            },
            Error::InvalidHeaderValue(error) => enclose_field(
                "InvalidHeaderValue(\n",
                invalid_header_value_debug(error).as_str(),
                ")",
            ),
            Error::NoHeaders => "NoHeaders".to_owned(),
            Error::StreamEnded => "StreamEnded".to_owned(),
            Error::InvalidContentType(value) => enclose_field(
                "InvalidContentType(\n",
                header_value_text(value).as_str(),
                ")",
            ),
            Error::Instance(cause) => enclose_field("Instance(\n", cause.debug_pretty.as_str(), ")"),
        }
    }
}

/// The number that bytes write in decimal digits.
pub open spec fn bytes_number(digits: Seq<u8>) -> int
    decreases digits.len(),
{
    if digits.len() == 0 {
        0
    } else {
        10 * bytes_number(digits.drop_last()) + (digits.last() - 48)
    }
}

/// Bytes without the plus sign that they may begin with.
pub open spec fn unsigned_bytes(bytes: Seq<u8>) -> Seq<u8> {
    if bytes.len() > 0 && bytes[0] == 43 {
        bytes.drop_first()
    } else {
        bytes
    }
}

/// The bytes are decimal digits, one or more, perhaps with a plus sign before them, and write `n`.
pub open spec fn bytes_write(bytes: Seq<u8>, n: int) -> bool {
    let digits = unsigned_bytes(bytes);
    &&& digits.len() > 0
    &&& forall|i: int| 0 <= i < digits.len() ==> 48 <= #[trigger] digits[i] <= 57
    &&& bytes_number(digits) == n
}

/// Bytes and the characters that they stand for write the same number, which is none below zero
/// where they are digits.
proof fn lemma_same_number(digits: Seq<u8>)
    ensures
        digits_value(visible_text(digits)) == bytes_number(digits),
        (forall|i: int| 0 <= i < digits.len() ==> 48 <= #[trigger] digits[i] <= 57)
            ==> bytes_number(digits) >= 0,
    decreases digits.len(),
{
    if digits.len() > 0 {
        lemma_same_number(digits.drop_last());
        assert(visible_text(digits).drop_last() =~= visible_text(digits.drop_last()));
        assert(visible_text(digits).last() == digits.last() as char);
    }
}

/// The delay is one that the upstream service has asked for: there is none without a `Retry-After`
/// header, whatever other headers there are, and there is one of `n` seconds if and only if the
/// first value of that header is decimal digits, perhaps with a plus sign before them, that write
/// `n`.
pub proof fn law_delay_is_what_the_header_asks_for(entries: Entries, n: u64)
    ensures
        !entries.contains_key("retry-after"@) ==> retry_after_of(entries) is None,
        retry_after_of(entries) == Some(n) <==> entries.contains_key("retry-after"@)
            && bytes_write(entries["retry-after"@][0].0, n as int),
{
    let bytes = entries["retry-after"@][0].0;
    lemma_written_bytes(bytes);
}

/// Bytes write a number if and only if they are visible and their text is one that is read as the
/// number.
proof fn lemma_written_bytes(bytes: Seq<u8>)
    ensures
        forall|n: u64|
            #![trigger bytes_write(bytes, n as int)]
            bytes_write(bytes, n as int) <==> all_visible(bytes) && parsed_u64(visible_text(bytes))
                == Some(n),
{
    let text = visible_text(bytes);
    let digits = unsigned_bytes(bytes);
    assert(bytes.len() > 0 ==> text[0] == bytes[0] as char);
    assert(unsigned(text) =~= visible_text(digits));
    lemma_same_number(digits);
    lemma_same_digits(digits);
    if is_decimal(visible_text(digits)) {
        assert forall|i: int| 0 <= i < bytes.len() implies is_visible(#[trigger] bytes[i]) by {
            if bytes[0] != 43 {
                assert(digits[i] == bytes[i]);
            } else if i > 0 {
                assert(digits[i - 1] == bytes[i]);
            }
        }
    }
}

/// Bytes are digits where their characters are.
proof fn lemma_same_digits(digits: Seq<u8>)
    ensures
        is_decimal(visible_text(digits)) <==> digits.len() > 0 && forall|i: int|
            0 <= i < digits.len() ==> 48 <= #[trigger] digits[i] <= 57,
{
    let text = visible_text(digits);
    assert forall|i: int| 0 <= i < digits.len() implies ('0' <= #[trigger] text[i] <= '9') == (48
        <= digits[i] <= 57) by {
        assert(text[i] == digits[i] as char);
    }
    if is_decimal(text) {
        assert forall|i: int| 0 <= i < digits.len() implies 48 <= #[trigger] digits[i] <= 57 by {
            assert('0' <= text[i] <= '9');
        }
    }
}

/// The report of a refusal has its status, and of its message the longest front that takes no more
/// than 8192 bytes: the whole of it, where that is enough.
pub proof fn law_report_keeps_status_and_message(
    error: Error,
    status: StatusCode,
    entries: Entries,
    message: Seq<char>,
)
    requires
        reports_status(error, status, entries, message),
    ensures
        error matches Error::Status { status: s, retry_after_secs: r, message: m } && {
            &&& s.code() == status.code()
            &&& r == retry_after_of(entries)
            &&& m@.is_prefix_of(message)
            &&& encode_utf8(m@).len() <= 8192
            &&& encode_utf8(message).len() <= 8192 ==> m@ == message
            &&& forall|n: int|
                m@.len() < n <= message.len() ==> encode_utf8(#[trigger] message.take(n)).len()
                    > 8192
        },
{
    law_bounded_text_is_the_longest_that_fits(message, MAX_ERROR_MESSAGE_BYTES as int);
    if encode_utf8(message).len() <= 8192 {
        law_short_text_is_unchanged(message, MAX_ERROR_MESSAGE_BYTES as int);
    }
}

/// A delay that an upstream service writes in decimal digits is the delay that is reported.
pub proof fn law_numeric_delay_is_reported(entries: Entries, secs: u64)
    requires
        entries.contains_key("retry-after"@),
        visible_text(entries["retry-after"@][0].0) == decimal(secs as nat),
    ensures
        retry_after_of(entries) == Some(secs),
{
    let bytes = entries["retry-after"@][0].0;
    lemma_decimal(secs as nat);
    law_written_number_is_read_back(secs);
    assert forall|i: int| 0 <= i < bytes.len() implies is_visible(#[trigger] bytes[i]) by {
        assert(visible_text(bytes)[i] == bytes[i] as char);
    }
}

/// None of the texts of an error for a non-success response tells what the response said.
pub proof fn law_upstream_message_stays_hidden(
    status: StatusCode,
    retry_after_secs: Option<u64>,
    message: String,
    other: String,
)
    ensures
        error_debug(Error::Status { status, retry_after_secs, message }) == error_debug(
            Error::Status { status, retry_after_secs, message: other },
        ),
        error_debug_pretty(Error::Status { status, retry_after_secs, message })
            == error_debug_pretty(Error::Status { status, retry_after_secs, message: other }),
        error_display(Error::Status { status, retry_after_secs, message }) == error_display(
            Error::Status { status, retry_after_secs, message: other },
        ),
{
}

} // verus!
