//! Identifiers of tasks and solutions. An identifier is a UUID, held as the
//! 128-bit number that its sixteen bytes spell, most significant byte first.

use vstd::prelude::*;

verus! {

/// The identifier that `uuid::Uuid::try_parse` reads from `text`, as a number,
/// or `None` where it refuses the text.
pub uninterp spec fn parsed_uuid(text: Seq<char>) -> Option<u128>;

/// The lower-case hexadecimal digit for `d`, where `0 <= d < 16`.
pub open spec fn hex_digit(d: int) -> char {
    if d < 10 {
        ('0' as int + d) as char
    } else {
        ('a' as int + d - 10) as char
    }
}

/// The lowest `count` hexadecimal digits of `n`, most significant first.
pub open spec fn hex_digits(n: int, count: nat) -> Seq<char>
    decreases count,
{
    if count == 0 {
        Seq::empty()
    } else {
        hex_digits(n / 16, (count - 1) as nat).push(hex_digit(n % 16))
    }
}

/// The hyphenated text of an identifier: its 32 hexadecimal digits in lower
/// case, in groups of 8, 4, 4, 4 and 12 with a hyphen between them.
pub open spec fn hyphenated(id: u128) -> Seq<char> {
    let digits = hex_digits(id as int, 32);
    digits.subrange(0, 8) + seq!['-'] + digits.subrange(8, 12) + seq!['-'] + digits.subrange(
        12,
        16,
    ) + seq!['-'] + digits.subrange(16, 20) + seq!['-'] + digits.subrange(20, 32)
}

/// A new random identifier, from `uuid::Uuid::new_v4`. Nothing is claimed of
/// its value: two calls may give any two numbers.
#[verifier::external_body]
pub(crate) fn fresh_id() -> (id: u128) {
    uuid::Uuid::new_v4().as_u128()
}

/// Reads an identifier with `uuid::Uuid::try_parse`. The contract names what
/// that function returns for the text; which texts it accepts is its business.
#[verifier::external_body]
pub(crate) fn parse_id(text: &str) -> (id: Option<u128>)
    ensures
        id == parsed_uuid(text@),
{
    uuid::Uuid::try_parse(text).ok().map(|u| u.as_u128())
}

/// The text of an identifier, from the `Display` of `uuid::Uuid`, which writes
/// the hyphenated lower-case form. The second clause is the promise of the
/// parser's documentation that it reads every form the crate writes.
#[verifier::external_body]
pub(crate) fn id_text(id: u128) -> (text: String)
    ensures
        text@ == hyphenated(id),
        parsed_uuid(text@) == Some(id),
{
    uuid::Uuid::from_u128(id).to_string()
}

} // verus!
