//! HTTP status codes.

use crate::http_client::text::decimal;
use vstd::prelude::*;

verus! {

/// A status code of three digits.
#[derive(Debug, Clone, Copy, PartialEq, Eq, Structural)]
pub struct StatusCode {
    code: u16,
}

impl StatusCode {
    /// The number.
    pub closed spec fn code(self) -> u16 {
        self.code
    }

    #[verifier::type_invariant]
    closed spec fn has_three_digits(self) -> bool {
        100 <= self.code <= 999
    }

    /// The status code of a number, if it has three digits.
    pub fn from_u16(code: u16) -> (r: Option<StatusCode>)
        ensures
            r is Some == (100 <= code <= 999),
            r matches Some(status) ==> status.code() == code,
    {
        if 100 <= code && code <= 999 {
            Some(StatusCode { code })
        } else {
            None
        }
    }

    /// The number.
    pub fn as_u16(&self) -> (code: u16)
        ensures
            code == self.code(),
            100 <= code <= 999,
    {
        proof {
            use_type_invariant(self);
        }
        self.code
    }

    /// Whether the request succeeded.
    pub fn is_success(&self) -> (b: bool)
        ensures
            b == is_success_code(self.code()),
            b <==> 200 <= self.code() <= 299,
    {
        200 <= self.code && self.code < 300
    }

    /// The number and the reason phrase.
    pub fn display_text(&self) -> (text: String)
        ensures
            text@ == status_display(self.code()),
            text@ == decimal(self.code() as nat) + " "@ + reason_phrase(self.code()),
    {
        status_text(self.as_u16())
    }
}

/// The codes of success.
pub open spec fn is_success_code(code: u16) -> bool {
    200 <= code < 300
}

/// The codes from 200 to 299 are those of success, and no others.
pub proof fn law_success_is_two_hundred_to_two_hundred_ninety_nine(code: u16)
    ensures
        200 <= code <= 299 ==> is_success_code(code),
        code < 200 || 300 <= code ==> !is_success_code(code),
{
}

/// The reason phrase that the `http` crate writes after the code of a status.
pub uninterp spec fn reason_phrase(code: u16) -> Seq<char>;

/// The number and the reason phrase of a status.
pub open spec fn status_display(code: u16) -> Seq<char> {
    decimal(code as nat) + " "@ + reason_phrase(code)
}

/// Calls `http::StatusCode`'s `Display`. The contract says that it writes the number, a space and a
/// phrase that depends on the number alone, and names the phrase.
#[verifier::external_body]
fn status_text(code: u16) -> (text: String)
    requires
        100 <= code <= 999,
    ensures
        text@ == decimal(code as nat) + " "@ + reason_phrase(code),
{
    http::StatusCode::from_u16(code).unwrap().to_string()
}

} // verus!
