use vstd::prelude::*;

verus! {

/// Whether a character beyond ASCII has the Unicode `Alphabetic` property.
pub uninterp spec fn unicode_alphabetic(c: char) -> bool;

/// Whether a character beyond ASCII has the Unicode `White_Space` property.
pub uninterp spec fn unicode_white_space(c: char) -> bool;

/// A letter: in ASCII `a` to `z` and `A` to `Z`, beyond it a character with
/// the Unicode `Alphabetic` property.
pub open spec fn alphabetic(c: char) -> bool {
    ('a' <= c && c <= 'z') || ('A' <= c && c <= 'Z') || (c > '\x7f' && unicode_alphabetic(c))
}

/// Whitespace: in ASCII the space and tab through carriage return, beyond it
/// a character with the Unicode `White_Space` property.
pub open spec fn whitespace(c: char) -> bool {
    c == ' ' || ('\t' <= c && c <= '\r') || (c > '\x7f' && unicode_white_space(c))
}

/// A decimal digit, `0` through `9`.
pub open spec fn decimal_digit(c: char) -> bool {
    '0' <= c && c <= '9'
}

/// A character that may continue an identifier.
pub open spec fn ident_char(c: char) -> bool {
    alphabetic(c) || c == '_'
}

/// Relies on `char::is_alphabetic`: ASCII letters are alphabetic and no
/// other ASCII character is; beyond ASCII the result follows the Unicode
/// `Alphabetic` property, which depends on the character alone.
#[verifier::external_body]
pub(crate) fn is_alphabetic(c: char) -> (r: bool)
    ensures
        r == (('a' <= c && c <= 'z') || ('A' <= c && c <= 'Z') || (c > '\x7f'
            && unicode_alphabetic(c))),
{
    c.is_alphabetic()
}

/// Relies on `char::is_whitespace`: in ASCII the space and tab through
/// carriage return are whitespace and nothing else is; beyond ASCII the
/// result follows the Unicode `White_Space` property, which depends on the
/// character alone.
#[verifier::external_body]
pub(crate) fn is_whitespace(c: char) -> (r: bool)
    ensures
        r == (c == ' ' || ('\t' <= c && c <= '\r') || (c > '\x7f' && unicode_white_space(c))),
{
    c.is_whitespace()
}

/// Whether a character is a decimal digit.
pub(crate) fn is_decimal_digit(c: char) -> (r: bool)
    ensures
        r == decimal_digit(c),
{
    '0' <= c && c <= '9'
}

} // verus!
