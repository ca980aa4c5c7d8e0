//! Texts: bounding them, decoding them and reading numbers from them.

use vstd::prelude::*;
use vstd::utf8::{
    decode_utf8, encode_scalar, encode_utf8, encode_utf8_decode_utf8, encode_utf8_first_scalar,
    encode_utf8_valid_utf8, is_char_boundary, pop_first_scalar, valid_utf8,
};

verus! {

/// The most bytes that an error keeps of a response body.
pub const MAX_ERROR_MESSAGE_BYTES: usize = 8 * 1024;

/// How many bytes a character takes in UTF-8.
pub open spec fn char_width(c: char) -> nat {
    encode_scalar(c as u32).len()
}

/// How many of the characters at the front of `text` fit into `limit` bytes of UTF-8.
pub open spec fn fitting(text: Seq<char>, limit: int) -> nat
    decreases text.len(),
{
    if text.len() == 0 || char_width(text[0]) > limit {
        0
    } else {
        1 + fitting(text.drop_first(), limit - char_width(text[0]))
    }
}

/// `text` cut off at the last whole character that fits into `limit` bytes of UTF-8.
pub open spec fn bounded(text: Seq<char>, limit: int) -> Seq<char> {
    text.take(fitting(text, limit) as int)
}

/// The characters that fit end at a boundary, and no later boundary is within the limit.
proof fn lemma_fitting(text: Seq<char>, limit: int)
    requires
        0 <= limit,
    ensures
        fitting(text, limit) <= text.len(),
        ({
            let bytes = encode_utf8(text);
            let end = encode_utf8(bounded(text, limit)).len();
            &&& end <= limit
            &&& end <= bytes.len()
            &&& bytes.subrange(0, end as int) == encode_utf8(bounded(text, limit))
            &&& is_char_boundary(bytes, end as int)
            &&& forall|later: int|
                end < later <= limit && later <= bytes.len() ==> !#[trigger] is_char_boundary(
                    bytes,
                    later,
                )
        }),
    decreases text.len(),
{
    let bytes = encode_utf8(text);
    let kept = bounded(text, limit);
    encode_utf8_valid_utf8(text);
    if text.len() == 0 {
        assert(kept =~= text);
        assert(bytes.subrange(0, 0) =~= bytes);
    } else {
        let width = char_width(text[0]);
        let rest = text.drop_first();
        encode_utf8_first_scalar(text);
        assert(pop_first_scalar(bytes) =~= encode_utf8(rest));
        encode_utf8_valid_utf8(rest);
        if width > limit {
            assert(kept =~= Seq::empty());
            assert(bytes.subrange(0, 0) =~= encode_utf8(kept));
            assert forall|later: int| 0 < later <= limit && later <= bytes.len() implies
                !#[trigger] is_char_boundary(bytes, later) by {
                assert(!is_char_boundary(encode_utf8(rest), later - width));
            }
        } else {
            lemma_fitting(rest, limit - width);
            let rest_kept = bounded(rest, limit - width);
            let rest_end = encode_utf8(rest_kept).len();
            assert(kept[0] == text[0]);
            assert(kept.drop_first() =~= rest_kept);
            let end = encode_utf8(kept).len();
            assert(end == width + rest_end);
            assert(bytes.subrange(0, end as int) =~= encode_utf8(kept)) by {
                assert(bytes =~= encode_scalar(text[0] as u32) + encode_utf8(rest));
                assert(encode_utf8(rest).subrange(0, rest_end as int) == encode_utf8(rest_kept));
                assert forall|i: int| 0 <= i < end implies bytes.subrange(0, end as int)[i]
                    == encode_utf8(kept)[i] by {
                    if i >= width {
                        assert(encode_utf8(rest).subrange(0, rest_end as int)[i - width]
                            == encode_utf8(rest)[i - width]);
                    }
                }
            }
            assert(is_char_boundary(bytes, end as int));
            assert forall|later: int| end < later <= limit && later <= bytes.len() implies
                !#[trigger] is_char_boundary(bytes, later) by {
                assert(!is_char_boundary(encode_utf8(rest), later - width));
            }
        }
    }
}

/// Texts with the same encoding are the same.
proof fn lemma_encoding_is_injective(a: Seq<char>, b: Seq<char>)
    requires
        encode_utf8(a) == encode_utf8(b),
    ensures
        a == b,
{
    encode_utf8_decode_utf8(a);
    encode_utf8_decode_utf8(b);
}

/// A text within the limit fits whole.
pub proof fn law_short_text_is_unchanged(text: Seq<char>, limit: int)
    requires
        encode_utf8(text).len() <= limit,
    ensures
        bounded(text, limit) == text,
    decreases text.len(),
{
    if text.len() > 0 {
        law_short_text_is_unchanged(text.drop_first(), limit - char_width(text[0]));
        lemma_fitting(text.drop_first(), limit - char_width(text[0]));
        assert(bounded(text.drop_first(), limit - char_width(text[0])).len()
            == text.drop_first().len());
    }
    assert(bounded(text, limit) =~= text);
}

/// A bounded text is the longest one at the front of the text that takes no more bytes than the
/// limit.
pub proof fn law_bounded_text_is_the_longest_that_fits(text: Seq<char>, limit: int)
    requires
        0 <= limit,
    ensures
        bounded(text, limit).len() <= text.len(),
        bounded(text, limit) == text.take(bounded(text, limit).len() as int),
        encode_utf8(bounded(text, limit)).len() <= limit,
        forall|n: int|
            bounded(text, limit).len() < n <= text.len() ==> encode_utf8(
                #[trigger] text.take(n),
            ).len() > limit,
    decreases text.len(),
{
    lemma_fitting(text, limit);
    assert forall|n: int| bounded(text, limit).len() < n <= text.len() implies encode_utf8(
        #[trigger] text.take(n),
    ).len() > limit by {
        let longer = text.take(n);
        let rest = text.drop_first();
        assert(longer[0] == text[0]);
        assert(longer.drop_first() =~= rest.take(n - 1));
        if char_width(text[0]) <= limit {
            law_bounded_text_is_the_longest_that_fits(rest, limit - char_width(text[0]));
            assert(bounded(rest, limit - char_width(text[0])).len() < n - 1);
        }
    }
}

/// Bounding a bounded text changes nothing.
pub proof fn law_bound_twice(text: Seq<char>, limit: int)
    requires
        0 <= limit,
    ensures
        bounded(bounded(text, limit), limit) == bounded(text, limit),
{
    lemma_fitting(text, limit);
    law_short_text_is_unchanged(bounded(text, limit), limit);
}

/// Bounding the front of a text gives the front of the bounded text.
pub proof fn law_bound_of_a_prefix(prefix: Seq<char>, text: Seq<char>, limit: int)
    requires
        prefix.is_prefix_of(text),
    ensures
        bounded(prefix, limit).is_prefix_of(bounded(text, limit)),
{
    lemma_fitting_of_a_prefix(prefix, text, limit);
}

/// No more characters fit of the front of a text than of the whole.
proof fn lemma_fitting_of_a_prefix(prefix: Seq<char>, text: Seq<char>, limit: int)
    requires
        prefix.is_prefix_of(text),
    ensures
        fitting(prefix, limit) <= prefix.len(),
        fitting(text, limit) <= text.len(),
        fitting(prefix, limit) <= fitting(text, limit),
    decreases text.len(),
{
    if text.len() > 0 {
        let rest = if prefix.len() > 0 {
            prefix.drop_first()
        } else {
            prefix
        };
        assert(rest.is_prefix_of(text.drop_first()));
        lemma_fitting_of_a_prefix(rest, text.drop_first(), limit - char_width(text[0]));
    }
}

/// Cuts an error message off at the last whole character within
/// [`MAX_ERROR_MESSAGE_BYTES`] bytes.
pub fn bound_error_message(message: String) -> (kept: String)
    ensures
        kept@ == bounded(message@, MAX_ERROR_MESSAGE_BYTES as int),
        kept@.is_prefix_of(message@),
        encode_utf8(kept@).len() <= 8192,
        forall|n: int|
            kept@.len() < n <= message@.len() ==> encode_utf8(#[trigger] message@.take(n)).len()
                > 8192,
{
    proof {
        law_bounded_text_is_the_longest_that_fits(message@, MAX_ERROR_MESSAGE_BYTES as int);
    }
    let text = message.as_str();
    let len = text.as_bytes().len();
    if len > MAX_ERROR_MESSAGE_BYTES {
        proof {
            lemma_fitting(message@, MAX_ERROR_MESSAGE_BYTES as int);
        }
        let mut end: usize = MAX_ERROR_MESSAGE_BYTES;
        let ghost cut = encode_utf8(bounded(message@, MAX_ERROR_MESSAGE_BYTES as int)).len();
        while !text.is_char_boundary(end)
            invariant
                text@ == message@,
                cut <= end <= MAX_ERROR_MESSAGE_BYTES,
                is_char_boundary(encode_utf8(message@), cut as int),
            decreases end,
        {
            end = end - 1;
        }
        assert(end == cut);
        let (front, _) = text.split_at(end);
        proof {
            lemma_encoding_is_injective(
                front@,
                bounded(message@, MAX_ERROR_MESSAGE_BYTES as int),
            );
        }
        front.to_owned()
    } else {
        proof {
            law_short_text_is_unchanged(message@, MAX_ERROR_MESSAGE_BYTES as int);
        }
        message
    }
}

/// The text that `String::from_utf8_lossy` makes of bytes that are not UTF-8.
pub uninterp spec fn utf8_mended(bytes: Seq<u8>) -> Seq<char>;

/// The text that bytes write, with what is not UTF-8 replaced.
pub open spec fn utf8_lossy(bytes: Seq<u8>) -> Seq<char> {
    if valid_utf8(bytes) {
        decode_utf8(bytes)
    } else {
        utf8_mended(bytes)
    }
}

/// Calls `String::from_utf8_lossy`. The contract says that bytes which are UTF-8 are decoded as
/// they stand, and names the result on all others.
#[verifier::external_body]
pub(crate) fn from_utf8_lossy(bytes: &[u8]) -> (text: String)
    ensures
        valid_utf8(bytes@) ==> text@ == decode_utf8(bytes@),
        !valid_utf8(bytes@) ==> text@ == utf8_mended(bytes@),
{
    String::from_utf8_lossy(bytes).into_owned()
}

/// The decimal digit that a character is.
pub open spec fn digit(c: char) -> int {
    c as int - '0' as int
}

/// The number that decimal digits write.
pub open spec fn digits_value(digits: Seq<char>) -> int
    decreases digits.len(),
{
    if digits.len() == 0 {
        0
    } else {
        10 * digits_value(digits.drop_last()) + digit(digits.last())
    }
}

/// Nothing but decimal digits, and at least one.
pub open spec fn is_decimal(digits: Seq<char>) -> bool {
    &&& digits.len() > 0
    &&& forall|i: int| 0 <= i < digits.len() ==> '0' <= #[trigger] digits[i] <= '9'
}

/// A text without the plus sign that it may begin with.
pub open spec fn unsigned(text: Seq<char>) -> Seq<char> {
    if text.len() > 0 && text[0] == '+' {
        text.drop_first()
    } else {
        text
    }
}

/// The number that a text writes: one or more decimal digits, with a plus sign before them or
/// none, of a value below `2^64`.
pub open spec fn parsed_u64(text: Seq<char>) -> Option<u64> {
    if is_decimal(unsigned(text)) && digits_value(unsigned(text)) <= u64::MAX {
        Some(digits_value(unsigned(text)) as u64)
    } else {
        None
    }
}

/// Calls `str::parse` for `u64`. The contract says what it reads and when it fails.
#[verifier::external_body]
pub(crate) fn parse_u64(text: &str) -> (number: Option<u64>)
    ensures
        number == parsed_u64(text@),
{
    text.parse::<u64>().ok()
}

/// The character of a decimal digit.
pub open spec fn digit_char(d: nat) -> char {
    ('0' as u32 + d) as char
}

/// The decimal digits of a number.
pub open spec fn decimal(n: nat) -> Seq<char>
    decreases n,
{
    if n < 10 {
        seq![digit_char(n)]
    } else {
        decimal(n / 10).push(digit_char(n % 10))
    }
}

/// A number in decimal digits is nothing but digits, and they write the number.
pub proof fn lemma_decimal(n: nat)
    ensures
        is_decimal(decimal(n)),
        digits_value(decimal(n)) == n,
    decreases n,
{
    reveal_with_fuel(digits_value, 2);
    if n < 10 {
        assert(decimal(n).drop_last() =~= Seq::<char>::empty());
    } else {
        lemma_decimal(n / 10);
        assert(decimal(n).drop_last() =~= decimal(n / 10));
    }
}

/// A digit behind others makes ten times what they write, and what the digit stands for.
pub proof fn law_digits_count_by_ten(digits: Seq<char>, c: char)
    ensures
        digits_value(Seq::empty()) == 0,
        digits_value(digits.push(c)) == 10 * digits_value(digits) + (c as int - 48),
{
    assert(digits.push(c).drop_last() =~= digits);
}

/// A number is written without a zero before it, and its digits write it.
pub proof fn law_numbers_are_written_plainly(n: nat)
    ensures
        decimal(n).len() > 0,
        n == 0 ==> decimal(n).len() == 1,
        n > 0 ==> decimal(n)[0] != '0',
        forall|i: int| 0 <= i < decimal(n).len() ==> 48 <= (#[trigger] decimal(n)[i]) as int <= 57,
        digits_value(decimal(n)) == n,
    decreases n,
{
    lemma_decimal(n);
    if n >= 10 {
        law_numbers_are_written_plainly(n / 10);
        assert(decimal(n)[0] == decimal(n / 10)[0]);
    }
}

/// A number that has been written in decimal digits is read back.
pub proof fn law_written_number_is_read_back(n: u64)
    ensures
        parsed_u64(decimal(n as nat)) == Some(n),
{
    lemma_decimal(n as nat);
}

/// Writes a decimal digit.
fn digit_text(d: u64) -> (text: &'static str)
    requires
        d < 10,
    ensures
        text@ == seq![digit_char(d as nat)],
{
    proof {
        reveal_strlit("0");
        reveal_strlit("1");
        reveal_strlit("2");
        reveal_strlit("3");
        reveal_strlit("4");
        reveal_strlit("5");
        reveal_strlit("6");
        reveal_strlit("7");
        reveal_strlit("8");
        reveal_strlit("9");
    }
    let text = match d {
        0 => "0",
        1 => "1",
        2 => "2",
        3 => "3",
        4 => "4",
        5 => "5",
        6 => "6",
        7 => "7",
        8 => "8",
        _ => "9",
    };
    assert(text@ =~= seq![digit_char(d as nat)]);
    text
}

/// Writes a number in decimal digits.
pub fn to_decimal(n: u64) -> (text: String)
    ensures
        text@ == decimal(n as nat),
    decreases n,
{
    if n < 10 {
        digit_text(n).to_owned()
    } else {
        let mut text = to_decimal(n / 10);
        let ghost front = text@;
        text.append(digit_text(n % 10));
        assert(text@ =~= front.push(digit_char((n % 10) as nat)));
        text
    }
}

} // verus!
