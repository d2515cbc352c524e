//! Character classification and case mapping from the standard library.
//!
//! White space is stated in full and tested here. The other Unicode tables are not restated:
//! each result is given a name, a function of the character (or string)
//! alone, with what the standard library documents of its ASCII part.

use vstd::prelude::*;

verus! {

/// Whether `c` has the Unicode `White_Space` property, which
/// `char::is_whitespace` tests: tab, line feed, vertical tab, form feed,
/// carriage return, space, next line, no-break space, ogham space mark, the
/// spaces U+2000 to U+200A, line and paragraph separators, narrow no-break
/// space, medium mathematical space and ideographic space.
pub open spec fn spec_is_whitespace(c: char) -> bool {
    let u = c as u32;
    (0x09 <= u && u <= 0x0D) || u == 0x20 || u == 0x85 || u == 0xA0 || u == 0x1680
        || (0x2000 <= u && u <= 0x200A) || u == 0x2028 || u == 0x2029 || u == 0x202F || u == 0x205F
        || u == 0x3000
}

/// Whether `c` is an ASCII character.
pub open spec fn is_ascii(c: char) -> bool {
    (c as u32) < 128
}

/// Whether `c` is an ASCII upper-case letter.
pub open spec fn is_ascii_upper(c: char) -> bool {
    'A' <= c && c <= 'Z'
}

/// Whether `c` is an ASCII lower-case letter.
pub open spec fn is_ascii_lower(c: char) -> bool {
    'a' <= c && c <= 'z'
}

/// Whether `c` is an ASCII letter or digit.
pub open spec fn is_ascii_alnum(c: char) -> bool {
    is_ascii_upper(c) || is_ascii_lower(c) || ('0' <= c && c <= '9')
}

/// The case mapping of an ASCII character: a single character, the letter
/// in the other case (its code moved by `delta`) when `c` is a letter of the
/// case `from`, else `c` itself.
pub open spec fn ascii_case_mapped(c: char, out: Seq<char>, from: bool, delta: int) -> bool {
    &&& out.len() == 1
    &&& if from {
        out[0] as int == c as int + delta
    } else {
        out[0] == c
    }
}

/// Whether `char::is_alphanumeric` holds of `c` (Unicode `Alphabetic` or `Numeric`).
pub uninterp spec fn spec_is_alphanumeric(c: char) -> bool;

/// Whether `char::is_uppercase` holds of `c` (the Unicode `Uppercase` property).
pub uninterp spec fn spec_is_uppercase(c: char) -> bool;

/// The characters that `char::to_uppercase` yields for `c`.
pub uninterp spec fn spec_to_upper(c: char) -> Seq<char>;

/// The characters that `char::to_lowercase` yields for `c`.
pub uninterp spec fn spec_to_lower(c: char) -> Seq<char>;

/// The result of `str::to_lowercase` on `s`.
pub uninterp spec fn spec_str_to_lower(s: Seq<char>) -> Seq<char>;

/// Whether `c` is white space, as `char::is_whitespace` tells.
pub(crate) fn is_whitespace(c: char) -> (r: bool)
    ensures
        r == spec_is_whitespace(c),
{
    let u: u32 = c as u32;
    (0x09 <= u && u <= 0x0D) || u == 0x20 || u == 0x85 || u == 0xA0 || u == 0x1680
        || (0x2000 <= u && u <= 0x200A) || u == 0x2028 || u == 0x2029 || u == 0x202F || u == 0x205F
        || u == 0x3000
}

/// Calls `char::is_alphanumeric`: its result is named; on ASCII it holds
/// exactly of letters and digits.
#[verifier::external_body]
pub(crate) fn is_alphanumeric(c: char) -> (r: bool)
    ensures
        r == spec_is_alphanumeric(c),
        is_ascii(c) ==> (r <==> is_ascii_alnum(c)),
{
    c.is_alphanumeric()
}

/// Calls `char::is_uppercase`: its result is named; on ASCII it holds
/// exactly of `A` to `Z`.
#[verifier::external_body]
pub(crate) fn is_uppercase(c: char) -> (r: bool)
    ensures
        r == spec_is_uppercase(c),
        is_ascii(c) ==> (r <==> is_ascii_upper(c)),
{
    c.is_uppercase()
}

/// Collects `char::to_uppercase` into a `String`. Its documentation says the
/// mapping yields one or more characters, and maps ASCII as
/// `to_ascii_uppercase` does; beyond ASCII which ones is only named.
#[verifier::external_body]
pub(crate) fn to_upper(c: char) -> (r: String)
    ensures
        r@ == spec_to_upper(c),
        r@.len() >= 1,
        is_ascii(c) ==> ascii_case_mapped(c, r@, is_ascii_lower(c), -32),
{
    c.to_uppercase().collect()
}

/// Collects `char::to_lowercase` into a `String`. Its documentation says the
/// mapping yields one or more characters, and maps ASCII as
/// `to_ascii_lowercase` does; beyond ASCII which ones is only named.
#[verifier::external_body]
pub(crate) fn to_lower(c: char) -> (r: String)
    ensures
        r@ == spec_to_lower(c),
        r@.len() >= 1,
        is_ascii(c) ==> ascii_case_mapped(c, r@, is_ascii_upper(c), 32),
{
    c.to_lowercase().collect()
}

/// Calls `str::to_lowercase`: its result is named; an ASCII string is
/// mapped character by character, as `to_ascii_lowercase` does.
#[verifier::external_body]
pub(crate) fn str_to_lower(s: &str) -> (r: String)
    ensures
        r@ == spec_str_to_lower(s@),
        (forall|i: int| 0 <= i < s@.len() ==> is_ascii(#[trigger] s@[i])) ==> {
            &&& r@.len() == s@.len()
            &&& forall|i: int| 0 <= i < s@.len() ==> ascii_case_mapped(#[trigger] s@[i], seq![r@[i]], is_ascii_upper(s@[i]), 32)
        },
{
    s.to_lowercase()
}

/// The first character of the upper-case mapping of `c`.
pub open spec fn upper_first(c: char) -> char {
    spec_to_upper(c)[0]
}

/// The first character of the lower-case mapping of `c`.
pub open spec fn lower_first(c: char) -> char {
    spec_to_lower(c)[0]
}

/// `c.to_uppercase().next().unwrap_or(c)`: the first character of the mapping.
pub fn upper_first_char(c: char) -> (r: char)
    ensures
        r == upper_first(c),
{
    let s = to_upper(c);
    s.as_str().get_char(0)
}

/// `c.to_lowercase().next().unwrap_or(c)`: the first character of the mapping.
pub fn lower_first_char(c: char) -> (r: char)
    ensures
        r == lower_first(c),
{
    let s = to_lower(c);
    s.as_str().get_char(0)
}

} // verus!
