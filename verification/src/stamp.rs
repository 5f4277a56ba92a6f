//! Fresh identifiers and the current time, both taken from outside.

use vstd::prelude::*;

verus! {

/// One of the sixteen lower-case hexadecimal digits.
pub open spec fn is_lower_hex(c: char) -> bool {
    ('0' <= c <= '9') || ('a' <= c <= 'f')
}

/// The hyphenated form of a UUID: 36 characters, hyphens at positions 8,
/// 13, 18 and 23, lower-case hexadecimal digits everywhere else.
pub open spec fn is_hyphenated_uuid(s: Seq<char>) -> bool {
    &&& s.len() == 36
    &&& s[8] == '-' && s[13] == '-' && s[18] == '-' && s[23] == '-'
    &&& forall|i: int|
        0 <= i < 36 && i != 8 && i != 13 && i != 18 && i != 23 ==> is_lower_hex(#[trigger] s[i])
}

/// Calls `Uuid::new_v4` of the `uuid` crate and writes the result out
/// with its `Display` impl. Trusted: the text has the hyphenated
/// lower-case form. Which UUID it is depends on chance, so nothing more
/// is claimed.
#[verifier::external_body]
pub(crate) fn new_uuid() -> (text: String)
    ensures
        is_hyphenated_uuid(text@),
{
    uuid::Uuid::new_v4().to_string()
}

/// One of the ten decimal digits.
pub open spec fn is_digit(c: char) -> bool {
    '0' <= c <= '9'
}

/// Whether two digits stand at `at` and after it.
pub open spec fn two_digits(s: Seq<char>, at: int) -> bool {
    is_digit(s[at]) && is_digit(s[at + 1])
}

/// Whether `s` is a time in UTC written as RFC 3339 has it, with a year
/// of `year_len` characters and `fraction_len` characters for the
/// fraction of the second: the year in four digits, or `+` and five or
/// more digits; `-`, month, `-`, day, `T`, hour, `:`, minute, `:`,
/// second, each in two digits; nothing, or `.` and three, six or nine
/// digits; and `+00:00`.
pub open spec fn is_utc_timestamp_of(s: Seq<char>, year_len: int, fraction_len: int) -> bool {
    let y = year_len;
    let f = fraction_len;
    let z = y + 15 + f;
    &&& (y == 4 && forall|i: int| 0 <= i < 4 ==> is_digit(#[trigger] s[i])) || (y >= 6 && s[0]
        == '+' && forall|i: int| 1 <= i < y ==> is_digit(#[trigger] s[i]))
    &&& f == 0 || f == 4 || f == 7 || f == 10
    &&& s.len() == z + 6
    &&& s[y] == '-' && two_digits(s, y + 1) && s[y + 3] == '-' && two_digits(s, y + 4)
    &&& s[y + 6] == 'T'
    &&& two_digits(s, y + 7) && s[y + 9] == ':' && two_digits(s, y + 10) && s[y + 12] == ':'
        && two_digits(s, y + 13)
    &&& f > 0 ==> s[y + 15] == '.' && forall|i: int| y + 16 <= i < z ==> is_digit(#[trigger] s[i])
    &&& s[z] == '+' && s[z + 1] == '0' && s[z + 2] == '0' && s[z + 3] == ':' && s[z + 4] == '0'
        && s[z + 5] == '0'
}

/// Whether `s` is a time in UTC written as RFC 3339 has it, such as
/// `2024-05-01T10:00:00.250+00:00`.
pub open spec fn is_utc_timestamp(s: Seq<char>) -> bool {
    exists|year_len: int, fraction_len: int| #[trigger]
        is_utc_timestamp_of(s, year_len, fraction_len)
}

/// Calls `Utc::now` of the `chrono` crate and writes the result out with
/// `DateTime::to_rfc3339`. Trusted: the text has the form of a time in
/// UTC after 1970. Which time it is depends on the clock, so nothing
/// more is claimed.
#[verifier::external_body]
pub(crate) fn now_rfc3339() -> (text: String)
    ensures
        is_utc_timestamp(text@),
{
    chrono::Utc::now().to_rfc3339()
}

} // verus!
