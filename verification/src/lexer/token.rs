//! The token taxonomy: spans, token kinds, and the operator lookup table.
//!
//! A [`Span`] locates a token in the original input by byte offset and byte
//! length. Ghost counterparts ([`SpanModel`], [`TokenModel`]) carry the same
//! data as unbounded integers, so the scanner's mathematical model is free of
//! machine-width concerns; the executable values are related to the model
//! through `View`.

use vstd::prelude::*;

verus! {

/// A byte-offset/length pair locating a token in the original source buffer.
#[derive(Debug, PartialEq, Eq, Structural, Clone, Copy)]
pub struct Span {
    pub length: usize,
    pub start: usize,
}

/// A classified slice of the input: a kind together with its span.
#[derive(Debug, PartialEq, Eq, Structural, Clone, Copy)]
pub struct Token {
    pub kind: TokenKind,
    pub span: Span,
}

/// The closed set of token classifications the scanner emits.
#[derive(Debug, PartialEq, Eq, Structural, Clone, Copy)]
pub enum TokenKind {
    String(StringKind),
    Operator(OperatorKind),
    Keyword,
    Number,
    Identifier,
    Whitespace,
    Semicolon,
    Invalid,
}

/// Which delimiter opened a string literal. The emitted span covers the
/// content only; both delimiters are consumed but excluded.
#[derive(Debug, PartialEq, Eq, Structural, Clone, Copy)]
pub enum StringKind {
    SingleQuoted,
    DoubleQuoted,
}

/// Every defined 1- and 2-character operator, plus `Invalid` for a
/// 2-character run with no defined meaning.
#[derive(Debug, PartialEq, Eq, Structural, Clone, Copy)]
pub enum OperatorKind {
    // +
    Add,
    Subtract,
    Multiply,
    Divide,
    Modulo,
    // +=
    CompoundAdd,
    CompoundSubtract,
    CompoundMultiply,
    CompoundDivide,
    CompoundModulo,
    // ++
    Increment,
    Decrement,
    // ==
    DoubleEqual,
    Equal,
    NotEqual,
    // !
    Not,
    // >
    GreaterThan,
    LessThan,
    Invalid,
}

/// Ghost counterpart of [`Span`] over unbounded integers.
#[verifier::ext_equal]
pub ghost struct SpanModel {
    pub start: int,
    pub length: int,
}

/// Ghost counterpart of [`Token`].
#[verifier::ext_equal]
pub ghost struct TokenModel {
    pub kind: TokenKind,
    pub span: SpanModel,
}

impl View for Span {
    type V = SpanModel;

    open spec fn view(&self) -> SpanModel {
        SpanModel { start: self.start as int, length: self.length as int }
    }
}

impl View for Token {
    type V = TokenModel;

    open spec fn view(&self) -> TokenModel {
        TokenModel { kind: self.kind, span: self.span@ }
    }
}

/// Builds a [`TokenModel`] from its parts.
pub open spec fn token_model(kind: TokenKind, start: int, length: int) -> TokenModel {
    TokenModel { kind, span: SpanModel { start, length } }
}

impl Span {
    pub fn new(start: usize, length: usize) -> (span: Span)
        ensures
            span@ == (SpanModel { start: start as int, length: length as int }),
    {
        Self { start, length }
    }
}

/// Combines a kind with a fresh span into a token.
pub fn create_token(kind: TokenKind, start: usize, length: usize) -> (token: Token)
    ensures
        token@ == token_model(kind, start as int, length as int),
{
    Token { kind, span: Span::new(start, length) }
}

/// The meaning of a single operator symbol. Every operator symbol resolves;
/// any other character yields `Invalid`.
pub open spec fn single_operator_kind(c: char) -> OperatorKind {
    if c == '+' {
        OperatorKind::Add
    } else if c == '-' {
        OperatorKind::Subtract
    } else if c == '*' {
        OperatorKind::Multiply
    } else if c == '/' {
        OperatorKind::Divide
    } else if c == '=' {
        OperatorKind::Equal
    } else if c == '%' {
        OperatorKind::Modulo
    } else if c == '!' {
        OperatorKind::Not
    } else if c == '>' {
        OperatorKind::GreaterThan
    } else if c == '<' {
        OperatorKind::LessThan
    } else {
        OperatorKind::Invalid
    }
}

/// The meaning of a two-symbol operator run, or `Invalid` when the pair has
/// no defined meaning.
pub open spec fn pair_operator_kind(c1: char, c2: char) -> OperatorKind {
    if c1 == '!' && c2 == '=' {
        OperatorKind::NotEqual
    } else if c1 == '+' && c2 == '=' {
        OperatorKind::CompoundAdd
    } else if c1 == '-' && c2 == '=' {
        OperatorKind::CompoundSubtract
    } else if c1 == '*' && c2 == '=' {
        OperatorKind::CompoundMultiply
    } else if c1 == '/' && c2 == '=' {
        OperatorKind::CompoundDivide
    } else if c1 == '%' && c2 == '=' {
        OperatorKind::CompoundModulo
    } else if c1 == '=' && c2 == '=' {
        OperatorKind::DoubleEqual
    } else if c1 == '+' && c2 == '+' {
        OperatorKind::Increment
    } else if c1 == '-' && c2 == '-' {
        OperatorKind::Decrement
    } else {
        OperatorKind::Invalid
    }
}

/// The meaning of an operator slice: defined for slices of length 1 or 2,
/// `Invalid` for every other length.
pub open spec fn operator_kind_of(s: Seq<char>) -> OperatorKind {
    if s.len() == 1 {
        single_operator_kind(s[0])
    } else if s.len() == 2 {
        pair_operator_kind(s[0], s[1])
    } else {
        OperatorKind::Invalid
    }
}

/// Resolves a single operator symbol.
pub(crate) fn resolve_single_operator(c: char) -> (kind: OperatorKind)
    ensures
        kind == single_operator_kind(c),
{
    if c == '+' {
        OperatorKind::Add
    } else if c == '-' {
        OperatorKind::Subtract
    } else if c == '*' {
        OperatorKind::Multiply
    } else if c == '/' {
        OperatorKind::Divide
    } else if c == '=' {
        OperatorKind::Equal
    } else if c == '%' {
        OperatorKind::Modulo
    } else if c == '!' {
        OperatorKind::Not
    } else if c == '>' {
        OperatorKind::GreaterThan
    } else if c == '<' {
        OperatorKind::LessThan
    } else {
        OperatorKind::Invalid
    }
}

/// Maps an operator slice of length 1 or 2 to its resolved kind; any
/// non-matching slice yields `Invalid`.
pub fn match_operator_slice_to_operator_kind(operator: &[char]) -> (kind: OperatorKind)
    ensures
        kind == operator_kind_of(operator@),
{
    if operator.len() == 1 {
        resolve_single_operator(operator[0])
    } else if operator.len() == 2 {
        let c1 = operator[0];
        let c2 = operator[1];
        if c1 == '!' && c2 == '=' {
            OperatorKind::NotEqual
        } else if c1 == '+' && c2 == '=' {
            OperatorKind::CompoundAdd
        } else if c1 == '-' && c2 == '=' {
            OperatorKind::CompoundSubtract
        } else if c1 == '*' && c2 == '=' {
            OperatorKind::CompoundMultiply
        } else if c1 == '/' && c2 == '=' {
            OperatorKind::CompoundDivide
        } else if c1 == '%' && c2 == '=' {
            OperatorKind::CompoundModulo
        } else if c1 == '=' && c2 == '=' {
            OperatorKind::DoubleEqual
        } else if c1 == '+' && c2 == '+' {
            OperatorKind::Increment
        } else if c1 == '-' && c2 == '-' {
            OperatorKind::Decrement
        } else {
            OperatorKind::Invalid
        }
    } else {
        OperatorKind::Invalid
    }
}

} // verus!
