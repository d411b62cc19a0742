//! Stateless character classifiers and the fixed keyword set.
//!
//! Each executable predicate has a `spec` twin that defines its meaning, and
//! `char_utf8_len` computes the UTF-8 width of a character, proved against
//! vstd's UTF-8 encoding model so that byte-offset arithmetic in spans agrees
//! with the encoded form of the input.

use vstd::prelude::*;
use vstd::utf8::char_is_scalar;
use vstd::utf8::encode_scalar;

verus! {

/// An ASCII decimal digit.
pub open spec fn spec_is_digit(c: char) -> bool {
    0x30 <= c as u32 <= 0x39
}

#[verifier::when_used_as_spec(spec_is_digit)]
pub fn is_digit(c: char) -> (b: bool)
    ensures
        b == spec_is_digit(c),
{
    let u = c as u32;
    0x30 <= u && u <= 0x39
}

/// An ASCII letter.
pub open spec fn spec_is_letter(c: char) -> bool {
    0x41 <= c as u32 <= 0x5A || 0x61 <= c as u32 <= 0x7A
}

#[verifier::when_used_as_spec(spec_is_letter)]
pub fn is_letter(c: char) -> (b: bool)
    ensures
        b == spec_is_letter(c),
{
    let u = c as u32;
    (0x41 <= u && u <= 0x5A) || (0x61 <= u && u <= 0x7A)
}

/// One of the operator symbols `+ - * / = ! < > %`.
pub open spec fn spec_is_operator(c: char) -> bool {
    c == '+' || c == '-' || c == '*' || c == '/' || c == '=' || c == '!' || c == '<' || c == '>'
        || c == '%'
}

#[verifier::when_used_as_spec(spec_is_operator)]
pub fn is_operator(c: char) -> (b: bool)
    ensures
        b == spec_is_operator(c),
{
    c == '+' || c == '-' || c == '*' || c == '/' || c == '=' || c == '!' || c == '<' || c == '>'
        || c == '%'
}

/// The single-quote delimiter.
pub open spec fn spec_is_single_quote(c: char) -> bool {
    c == '\''
}

#[verifier::when_used_as_spec(spec_is_single_quote)]
pub fn is_single_quote(c: char) -> (b: bool)
    ensures
        b == spec_is_single_quote(c),
{
    c == '\''
}

/// The double-quote delimiter.
pub open spec fn spec_is_double_quote(c: char) -> bool {
    c == '"'
}

#[verifier::when_used_as_spec(spec_is_double_quote)]
pub fn is_double_quote(c: char) -> (b: bool)
    ensures
        b == spec_is_double_quote(c),
{
    c == '"'
}

/// The statement terminator.
pub open spec fn spec_is_semicolon(c: char) -> bool {
    c == ';'
}

#[verifier::when_used_as_spec(spec_is_semicolon)]
pub fn is_semicolon(c: char) -> (b: bool)
    ensures
        b == spec_is_semicolon(c),
{
    c == ';'
}

/// A Unicode whitespace character: the `White_Space` code points.
pub open spec fn spec_is_whitespace(c: char) -> bool {
    ||| 0x09 <= c as u32 <= 0x0D
    ||| c as u32 == 0x20
    ||| c as u32 == 0x85
    ||| c as u32 == 0xA0
    ||| c as u32 == 0x1680
    ||| 0x2000 <= c as u32 <= 0x200A
    ||| c as u32 == 0x2028
    ||| c as u32 == 0x2029
    ||| c as u32 == 0x202F
    ||| c as u32 == 0x205F
    ||| c as u32 == 0x3000
}

#[verifier::when_used_as_spec(spec_is_whitespace)]
pub fn is_whitespace(c: char) -> (b: bool)
    ensures
        b == spec_is_whitespace(c),
{
    let u = c as u32;
    (0x09 <= u && u <= 0x0D) || u == 0x20 || u == 0x85 || u == 0xA0 || u == 0x1680 || (0x2000 <= u
        && u <= 0x200A) || u == 0x2028 || u == 0x2029 || u == 0x202F || u == 0x205F || u == 0x3000
}

/// A character that may continue an identifier: ASCII alphanumeric or
/// underscore. Only an ASCII letter may start one.
pub open spec fn spec_is_in_identifier(c: char) -> bool {
    spec_is_letter(c) || spec_is_digit(c) || c == '_'
}

#[verifier::when_used_as_spec(spec_is_in_identifier)]
pub fn is_in_identifier(c: char) -> (b: bool)
    ensures
        b == spec_is_in_identifier(c),
{
    is_letter(c) || is_digit(c) || c == '_'
}

/// Exact membership in the fixed, closed keyword set.
pub open spec fn spec_is_keyword(s: Seq<char>) -> bool {
    ||| (s.len() == 3 && s[0] == 'l' && s[1] == 'e' && s[2] == 't')
    ||| (s.len() == 5 && s[0] == 'c' && s[1] == 'o' && s[2] == 'n' && s[3] == 's' && s[4] == 't')
    ||| (s.len() == 2 && s[0] == 'i' && s[1] == 'f')
    ||| (s.len() == 4 && s[0] == 'e' && s[1] == 'l' && s[2] == 's' && s[3] == 'e')
    ||| (s.len() == 5 && s[0] == 'w' && s[1] == 'h' && s[2] == 'i' && s[3] == 'l' && s[4] == 'e')
    ||| (s.len() == 3 && s[0] == 'f' && s[1] == 'o' && s[2] == 'r')
    ||| (s.len() == 8 && s[0] == 'f' && s[1] == 'u' && s[2] == 'n' && s[3] == 'c' && s[4] == 't'
        && s[5] == 'i' && s[6] == 'o' && s[7] == 'n')
    ||| (s.len() == 3 && s[0] == 'm' && s[1] == 'm' && s[2] == 'k')
}

/// Tests whether an identifier's characters spell a keyword.
pub fn is_keyword(s: &[char]) -> (b: bool)
    ensures
        b == spec_is_keyword(s@),
{
    if s.len() == 2 {
        s[0] == 'i' && s[1] == 'f'
    } else if s.len() == 3 {
        (s[0] == 'l' && s[1] == 'e' && s[2] == 't') || (s[0] == 'f' && s[1] == 'o' && s[2] == 'r')
            || (s[0] == 'm' && s[1] == 'm' && s[2] == 'k')
    } else if s.len() == 4 {
        s[0] == 'e' && s[1] == 'l' && s[2] == 's' && s[3] == 'e'
    } else if s.len() == 5 {
        (s[0] == 'c' && s[1] == 'o' && s[2] == 'n' && s[3] == 's' && s[4] == 't') || (s[0] == 'w'
            && s[1] == 'h' && s[2] == 'i' && s[3] == 'l' && s[4] == 'e')
    } else if s.len() == 8 {
        s[0] == 'f' && s[1] == 'u' && s[2] == 'n' && s[3] == 'c' && s[4] == 't' && s[5] == 'i'
            && s[6] == 'o' && s[7] == 'n'
    } else {
        false
    }
}

/// The number of bytes the UTF-8 encoding of `c` occupies, per vstd's
/// encoding model.
pub open spec fn char_byte_len(c: char) -> int {
    encode_scalar(c as u32).len() as int
}

/// Computes the UTF-8 byte width of a character.
pub fn char_utf8_len(c: char) -> (n: usize)
    ensures
        n as int == char_byte_len(c),
        1 <= n <= 4,
{
    proof {
        char_is_scalar(c);
    }
    let u = c as u32;
    if u < 0x80 {
        1
    } else if u < 0x800 {
        2
    } else if u < 0x10000 {
        3
    } else {
        4
    }
}

/// A character's UTF-8 width is between one and four bytes.
pub proof fn lemma_char_byte_len_bounds(c: char)
    ensures
        1 <= char_byte_len(c) <= 4,
{
    char_is_scalar(c);
}

/// ASCII characters occupy exactly one byte.
pub proof fn lemma_ascii_char_byte_len(c: char)
    requires
        (c as u32) < 0x80,
    ensures
        char_byte_len(c) == 1,
{
}

} // verus!
