//! What errors say.

use crate::http_client::error::{
    error_debug, error_debug_pretty, error_display, escaped,
    header_value_shown, quoted, Cause, Error,
};
use crate::http_client::headers::{header_value_bytes, header_value_sensitive, visible_text};
use crate::http_client::pretty::indented;
use crate::http_client::status::{reason_phrase, StatusCode};
use crate::http_client::text::decimal;
use vstd::prelude::*;

verus! {

/// A refusal tells users its code and what the code means, and developers its code and the delay,
/// whatever the response said.
pub proof fn law_refusal_tells_code_and_delay(
    status: StatusCode,
    retry_after_secs: Option<u64>,
    message: String,
)
    ensures
        ({
            let error = Error::Status { status, retry_after_secs, message };
            let code = decimal(status.code() as nat);
            let delay = match retry_after_secs {
                Some(secs) => "Some("@ + decimal(secs as nat) + ")"@,
                None => "None"@,
            };
            let delay_lines = match retry_after_secs {
                Some(secs) => "Some(\n"@ + indented(decimal(secs as nat) + ",\n"@) + ")"@,
                None => "None"@,
            };
            &&& error_display(error) == "upstream returned HTTP "@ + (code + " "@ + reason_phrase(
                status.code(),
            ))
            &&& error_debug(error) == "Status { status: "@ + code + ", retry_after_secs: "@ + delay
                + ", message: \"<redacted>\" }"@
            &&& error_debug_pretty(error) == "Status {\n"@ + indented("status: "@ + code + ",\n"@)
                + indented("retry_after_secs: "@ + delay_lines + ",\n"@) + indented(
                "message: \"<redacted>\""@ + ",\n"@,
            ) + "}"@
        }),
{
}

/// A failure of the client, or to put a message together, tells what its cause tells, to users and
/// to developers.
pub proof fn law_causes_are_told(cause: Cause)
    ensures
        error_display(Error::Protocol(cause)) == "Http error: "@ + cause.display@,
        error_display(Error::Instance(cause)) == "Http client error: "@ + cause.display@,
        error_debug(Error::Protocol(cause)) == "Protocol("@ + cause.debug@ + ")"@,
        error_debug(Error::Instance(cause)) == "Instance("@ + cause.debug@ + ")"@,
        error_debug_pretty(Error::Protocol(cause)) == "Protocol(\n"@ + indented(
            cause.debug_pretty@ + ",\n"@,
        ) + ")"@,
        error_debug_pretty(Error::Instance(cause)) == "Instance(\n"@ + indented(
            cause.debug_pretty@ + ",\n"@,
        ) + ")"@,
{
}

/// A status that was not expected is told with its code, and with the message where there is one.
pub proof fn law_unexpected_status_is_told(status: StatusCode, message: String)
    ensures
        ({
            let code = decimal(status.code() as nat);
            let meaning = code + " "@ + reason_phrase(status.code());
            let plain = Error::InvalidStatusCode(status);
            let explained = Error::InvalidStatusCodeWithMessage(status, message);
            &&& error_display(plain) == "Invalid status code: "@ + meaning
            &&& error_display(explained) == "Invalid status code "@ + meaning + " with message: "@
                + message@
            &&& error_debug(plain) == "InvalidStatusCode("@ + code + ")"@
            &&& error_debug(explained) == "InvalidStatusCodeWithMessage("@ + code + ", "@ + quoted(
                message@,
            ) + ")"@
            &&& error_debug_pretty(plain) == "InvalidStatusCode(\n"@ + indented(code + ",\n"@)
                + ")"@
            &&& error_debug_pretty(explained) == "InvalidStatusCodeWithMessage(\n"@ + indented(
                code + ",\n"@,
            ) + indented(quoted(message@) + ",\n"@) + ")"@
        }),
{
}

/// The errors that hold nothing to tell, or a header value, say which they are.
pub proof fn law_other_errors_name_themselves(
    refused: http::header::InvalidHeaderValue,
    value: http::HeaderValue,
)
    ensures
        error_display(Error::NoHeaders) == "Request in error state, cannot access headers"@,
        error_display(Error::StreamEnded) == "Stream ended"@,
        error_display(Error::InvalidHeaderValue(refused))
            == "Header value outside of legal range: failed to parse header value"@,
        error_display(Error::InvalidContentType(value)) == "Invalid content type was returned: "@
            + header_value_shown(value),
        error_debug(Error::NoHeaders) == "NoHeaders"@,
        error_debug(Error::StreamEnded) == "StreamEnded"@,
        error_debug(Error::InvalidHeaderValue(refused))
            == "InvalidHeaderValue(InvalidHeaderValue)"@,
        error_debug(Error::InvalidContentType(value)) == "InvalidContentType("@
            + header_value_shown(value) + ")"@,
        error_debug_pretty(Error::NoHeaders) == "NoHeaders"@,
        error_debug_pretty(Error::StreamEnded) == "StreamEnded"@,
        error_debug_pretty(Error::InvalidHeaderValue(refused)) == "InvalidHeaderValue(\n"@
            + indented("InvalidHeaderValue"@ + ",\n"@) + ")"@,
        error_debug_pretty(Error::InvalidContentType(value)) == "InvalidContentType(\n"@ + indented(
            header_value_shown(value) + ",\n"@,
        ) + ")"@,
{
}

/// Bytes are shown one by one: as their character where it is visible and no quotation mark, and
/// with a backslash before them otherwise.
pub proof fn law_bytes_are_shown_one_by_one(bytes: Seq<u8>, b: u8)
    ensures
        escaped(Seq::empty()).len() == 0,
        (b == 9 || 32 <= b <= 126) && b != 34 ==> escaped(bytes.push(b)) == escaped(bytes).push(
            b as char,
        ),
        b == 34 ==> escaped(bytes.push(b)) == escaped(bytes) + seq!['\\', '"'],
        !(b == 9 || 32 <= b <= 126) ==> escaped(bytes.push(b)).len() > escaped(bytes).len() + 2
            && escaped(bytes.push(b)).take(escaped(bytes).len() as int + 2) == escaped(bytes)
            + seq!['\\', 'x'],
{
    reveal_strlit("\\\"");
    reveal_strlit("\\x");
    let longer = bytes.push(b);
    let front = escaped(bytes);
    assert(longer.drop_last() =~= bytes);
    assert("\\\""@ =~= seq!['\\', '"']);
    assert("\\x"@ =~= seq!['\\', 'x']);
    assert(front + seq![b as char] =~= front.push(b as char));
    if !(b == 9 || 32 <= b <= 126) {
        assert(escaped(longer).take(front.len() as int + 2) =~= front + seq!['\\', 'x']);
    }
}

/// A header value of visible characters without a quotation mark is shown between quotation marks
/// as it is, unless it is marked as not to be shown.
pub proof fn law_visible_values_are_shown_as_they_are(value: http::HeaderValue)
    requires
        forall|i: int|
            0 <= i < header_value_bytes(value).len() ==> {
                let b = #[trigger] header_value_bytes(value)[i];
                (b == 9 || 32 <= b <= 126) && b != 34
            },
    ensures
        header_value_sensitive(value) ==> header_value_shown(value) == "Sensitive"@,
        !header_value_sensitive(value) ==> header_value_shown(value) == "\""@ + visible_text(
            header_value_bytes(value),
        ) + "\""@,
{
    lemma_visible_is_unescaped(header_value_bytes(value));
}

/// Visible bytes without a quotation mark are shown as they are.
proof fn lemma_visible_is_unescaped(bytes: Seq<u8>)
    requires
        forall|i: int|
            0 <= i < bytes.len() ==> {
                let b = #[trigger] bytes[i];
                (b == 9 || 32 <= b <= 126) && b != 34
            },
    ensures
        escaped(bytes) == visible_text(bytes),
    decreases bytes.len(),
{
    if bytes.len() > 0 {
        let front = bytes.drop_last();
        lemma_visible_is_unescaped(front);
        assert(bytes.last() == bytes[bytes.len() - 1]);
        assert(escaped(bytes) =~= visible_text(bytes));
    } else {
        assert(escaped(bytes) =~= visible_text(bytes));
    }
}

} // verus!
