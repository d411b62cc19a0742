//! The scanner: a character-driven state machine over the input text.
//!
//! One [`Lexer`] is created per input string, consumes it in a single pass,
//! and yields the token list together with the error collector. The
//! executable scanner is proved to produce exactly the tokens and errors of
//! the mathematical model [`model::lex_spec`].

pub mod character_helpers;
pub mod laws;
pub mod model;
pub mod token;

use vstd::prelude::*;
use vstd::std_specs::iter::IteratorSpec;

use crate::lexer::character_helpers::char_byte_len;
use crate::lexer::character_helpers::char_utf8_len;
use crate::lexer::character_helpers::is_digit;
use crate::lexer::character_helpers::is_double_quote;
use crate::lexer::character_helpers::is_in_identifier;
use crate::lexer::character_helpers::is_keyword;
use crate::lexer::character_helpers::is_letter;
use crate::lexer::character_helpers::is_operator;
use crate::lexer::character_helpers::is_semicolon;
use crate::lexer::character_helpers::is_single_quote;
use crate::lexer::character_helpers::is_whitespace;
use crate::lexer::model::byte_index;
use crate::lexer::model::flush;
use crate::lexer::model::lemma_byte_index_is_encoded_len;
use crate::lexer::model::lemma_byte_index_monotone;
use crate::lexer::model::lemma_byte_index_succ;
use crate::lexer::model::lemma_step_wf;
use crate::lexer::model::lex_from;
use crate::lexer::model::lex_spec;
use crate::lexer::model::start_dispatch;
use crate::lexer::model::state_wf;
use crate::lexer::model::step;
use crate::lexer::model::LexOut;
use crate::lexer::model::LexState;
use crate::lexer::token::create_token;
use crate::lexer::token::match_operator_slice_to_operator_kind;
use crate::lexer::token::resolve_single_operator;
use crate::lexer::token::OperatorKind;
use crate::lexer::token::Span;
use crate::lexer::token::SpanModel;
use crate::lexer::token::StringKind;
use crate::lexer::token::Token;
use crate::lexer::token::TokenKind;
use crate::lexer::token::TokenModel;

verus! {

/// The two recoverable diagnostic kinds.
#[derive(Debug, PartialEq, Eq, Structural, Clone, Copy)]
pub enum LexerErrorKind {
    InvalidToken,
    InvalidOperator,
}

/// A recoverable diagnostic: a kind together with the span it covers.
#[derive(Debug, PartialEq, Eq, Structural, Clone, Copy)]
pub struct LexerError {
    pub span: Span,
    pub kind: LexerErrorKind,
}

/// Ghost counterpart of [`LexerError`].
#[verifier::ext_equal]
pub ghost struct ErrorModel {
    pub kind: LexerErrorKind,
    pub span: SpanModel,
}

impl View for LexerError {
    type V = ErrorModel;

    open spec fn view(&self) -> ErrorModel {
        ErrorModel { kind: self.kind, span: self.span@ }
    }
}

/// Builds an [`ErrorModel`] from its parts.
pub open spec fn error_model(kind: LexerErrorKind, start: int, length: int) -> ErrorModel {
    ErrorModel { kind, span: SpanModel { start, length } }
}

/// The token list seen as a sequence of ghost models.
pub open spec fn tokens_model(tokens: Seq<Token>) -> Seq<TokenModel> {
    tokens.map_values(|t: Token| t@)
}

/// The error list seen as a sequence of ghost models.
pub open spec fn errors_model(errors: Seq<LexerError>) -> Seq<ErrorModel> {
    errors.map_values(|e: LexerError| e@)
}

/// Collects the diagnostics emitted during one scanning pass.
pub struct ErrorHandler {
    pub errors: Vec<LexerError>,
}

impl ErrorHandler {
    pub fn new() -> (handler: ErrorHandler)
        ensures
            handler.errors@ == Seq::<LexerError>::empty(),
    {
        Self { errors: Vec::new() }
    }

    fn add_error(&mut self, error: LexerError)
        ensures
            final(self).errors@ == old(self).errors@.push(error),
    {
        self.errors.push(error);
    }
}

/// The scanner's executable state. It mirrors the model's [`LexState`]: the
/// byte offset where the buffered token started, the buffered characters
/// where finalization depends on them, and for a string literal the offset
/// of its content and the delimiter kind to match.
enum State {
    Start,
    InNumber { start: usize },
    InIdentifier { start: usize, chars: Vec<char> },
    InOperator { start: usize, buf: Vec<char> },
    InString { kind: StringKind, content_start: usize },
}

impl View for State {
    type V = LexState;

    closed spec fn view(&self) -> LexState {
        match self {
            State::Start => LexState::Start,
            State::InNumber { start } => LexState::InNumber { start: *start as int },
            State::InIdentifier { start, chars } => LexState::InIdentifier {
                start: *start as int,
                chars: chars@,
            },
            State::InOperator { start, buf } => LexState::InOperator {
                start: *start as int,
                buf: buf@,
            },
            State::InString { kind, content_start } => LexState::InString {
                kind: *kind,
                content_start: *content_start as int,
            },
        }
    }
}

/// Classifies one character from the `Start` state, per
/// [`model::start_dispatch`].
fn handle_start(c: char, pos: usize, tokens: &mut Vec<Token>, handler: &mut ErrorHandler) -> (state:
    State)
    requires
        pos + char_byte_len(c) <= usize::MAX,
    ensures
        ({
            let out = start_dispatch(c, pos as int);
            &&& state@ == out.state
            &&& tokens_model(final(tokens)@) == tokens_model(old(tokens)@) + out.toks
            &&& errors_model(final(handler).errors@) == errors_model(old(handler).errors@)
                + out.errs
        }),
{
    if is_digit(c) {
        State::InNumber { start: pos }
    } else if is_letter(c) {
        let mut chars: Vec<char> = Vec::new();
        chars.push(c);
        State::InIdentifier { start: pos, chars }
    } else if is_single_quote(c) {
        State::InString { kind: StringKind::SingleQuoted, content_start: pos + 1 }
    } else if is_double_quote(c) {
        State::InString { kind: StringKind::DoubleQuoted, content_start: pos + 1 }
    } else if is_operator(c) {
        let mut buf: Vec<char> = Vec::new();
        buf.push(c);
        State::InOperator { start: pos, buf }
    } else if is_semicolon(c) {
        tokens.push(create_token(TokenKind::Semicolon, pos, 1));
        State::Start
    } else if is_whitespace(c) {
        let width = char_utf8_len(c);
        tokens.push(create_token(TokenKind::Whitespace, pos, width));
        State::Start
    } else {
        let width = char_utf8_len(c);
        tokens.push(create_token(TokenKind::Invalid, pos, width));
        handler.add_error(
            LexerError { span: Span::new(pos, width), kind: LexerErrorKind::InvalidToken },
        );
        State::Start
    }
}

/// While the character is a digit, keeps consuming; on the first non-digit
/// the buffered slice finalizes as `Number` and the character is
/// reclassified.
fn handle_in_number(
    start: usize,
    c: char,
    pos: usize,
    tokens: &mut Vec<Token>,
    handler: &mut ErrorHandler,
) -> (state: State)
    requires
        start <= pos,
        pos + char_byte_len(c) <= usize::MAX,
    ensures
        ({
            let out = step(LexState::InNumber { start: start as int }, c, pos as int);
            &&& state@ == out.state
            &&& tokens_model(final(tokens)@) == tokens_model(old(tokens)@) + out.toks
            &&& errors_model(final(handler).errors@) == errors_model(old(handler).errors@)
                + out.errs
        }),
{
    if is_digit(c) {
        State::InNumber { start }
    } else {
        tokens.push(create_token(TokenKind::Number, start, pos - start));
        handle_start(c, pos, tokens, handler)
    }
}

/// While the character may continue an identifier, keeps consuming; on a
/// boundary the buffered slice finalizes as `Keyword` when it matches the
/// keyword set, else as `Identifier`, and the character is reclassified.
fn handle_in_identifier(
    start: usize,
    chars: Vec<char>,
    c: char,
    pos: usize,
    tokens: &mut Vec<Token>,
    handler: &mut ErrorHandler,
) -> (state: State)
    requires
        start <= pos,
        pos + char_byte_len(c) <= usize::MAX,
    ensures
        ({
            let out = step(
                LexState::InIdentifier { start: start as int, chars: chars@ },
                c,
                pos as int,
            );
            &&& state@ == out.state
            &&& tokens_model(final(tokens)@) == tokens_model(old(tokens)@) + out.toks
            &&& errors_model(final(handler).errors@) == errors_model(old(handler).errors@)
                + out.errs
        }),
{
    if is_in_identifier(c) {
        let mut chars = chars;
        chars.push(c);
        State::InIdentifier { start, chars }
    } else {
        let kind = if is_keyword(chars.as_slice()) {
            TokenKind::Keyword
        } else {
            TokenKind::Identifier
        };
        tokens.push(create_token(kind, start, pos - start));
        handle_start(c, pos, tokens, handler)
    }
}

/// Consumes every character verbatim until one matches the opening
/// delimiter; that closing character is consumed but excluded from the
/// token's span.
fn handle_in_string(
    kind: StringKind,
    content_start: usize,
    c: char,
    pos: usize,
    tokens: &mut Vec<Token>,
) -> (state: State)
    requires
        content_start <= pos,
    ensures
        ({
            let out = step(
                LexState::InString { kind, content_start: content_start as int },
                c,
                pos as int,
            );
            &&& state@ == out.state
            &&& tokens_model(final(tokens)@) == tokens_model(old(tokens)@) + out.toks
            &&& out.errs == Seq::<ErrorModel>::empty()
        }),
{
    let quote = match kind {
        StringKind::SingleQuoted => '\'',
        StringKind::DoubleQuoted => '"',
    };
    if c == quote {
        tokens.push(create_token(TokenKind::String(kind), content_start, pos - content_start));
        State::Start
    } else {
        State::InString { kind, content_start }
    }
}

/// Accumulates operator symbols up to a run of two. A run that resolves is
/// emitted whole; an invalid two-symbol run is reported, its first symbol is
/// emitted alone, and scanning restarts from the second symbol, which may
/// combine with the current character into a new run.
fn handle_in_operator(
    start: usize,
    buf: Vec<char>,
    c: char,
    pos: usize,
    tokens: &mut Vec<Token>,
    handler: &mut ErrorHandler,
) -> (state: State)
    requires
        1 <= buf@.len() <= 2,
        start + buf@.len() == pos,
        pos + char_byte_len(c) <= usize::MAX,
    ensures
        ({
            let out = step(LexState::InOperator { start: start as int, buf: buf@ }, c, pos as int);
            &&& state@ == out.state
            &&& tokens_model(final(tokens)@) == tokens_model(old(tokens)@) + out.toks
            &&& errors_model(final(handler).errors@) == errors_model(old(handler).errors@)
                + out.errs
        }),
{
    if buf.len() < 2 && is_operator(c) {
        let mut buf = buf;
        buf.push(c);
        State::InOperator { start, buf }
    } else {
        let kind = match_operator_slice_to_operator_kind(buf.as_slice());
        if buf.len() == 2 && kind == OperatorKind::Invalid {
            handler.add_error(
                LexerError { span: Span::new(start, 2), kind: LexerErrorKind::InvalidOperator },
            );
            let first_kind = resolve_single_operator(buf[0]);
            tokens.push(create_token(TokenKind::Operator(first_kind), start, 1));
            if is_operator(c) {
                let mut rescan: Vec<char> = Vec::new();
                rescan.push(buf[1]);
                rescan.push(c);
                State::InOperator { start: start + 1, buf: rescan }
            } else {
                let second_kind = resolve_single_operator(buf[1]);
                tokens.push(create_token(TokenKind::Operator(second_kind), start + 1, 1));
                handle_start(c, pos, tokens, handler)
            }
        } else {
            let length = buf.len();
            tokens.push(create_token(TokenKind::Operator(kind), start, length));
            handle_start(c, pos, tokens, handler)
        }
    }
}

/// Force-finalizes the buffered token at end of input, per [`model::flush`].
/// Reaching this in the `Start` state would be a scanner bug; callers prove
/// it cannot happen.
fn consume_buffered_token(
    state: State,
    pos: usize,
    tokens: &mut Vec<Token>,
    handler: &mut ErrorHandler,
)
    requires
        state_wf(state@, pos as int),
        !(state@ is Start),
    ensures
        ({
            let out = flush(state@, pos as int);
            &&& tokens_model(final(tokens)@) == tokens_model(old(tokens)@) + out.toks
            &&& errors_model(final(handler).errors@) == errors_model(old(handler).errors@)
                + out.errs
        }),
{
    match state {
        State::Start => {
            proof {
                assert(false);
            }
        },
        State::InNumber { start } => {
            tokens.push(create_token(TokenKind::Number, start, pos - start));
        },
        State::InIdentifier { start, chars } => {
            let kind = if is_keyword(chars.as_slice()) {
                TokenKind::Keyword
            } else {
                TokenKind::Identifier
            };
            tokens.push(create_token(kind, start, pos - start));
        },
        State::InString { kind, content_start } => {
            tokens.push(
                create_token(TokenKind::String(kind), content_start, pos - content_start),
            );
        },
        State::InOperator { start, buf } => {
            let kind = match_operator_slice_to_operator_kind(buf.as_slice());
            if buf.len() == 2 && kind == OperatorKind::Invalid {
                handler.add_error(
                    LexerError { span: Span::new(start, 2), kind: LexerErrorKind::InvalidOperator },
                );
                let first_kind = resolve_single_operator(buf[0]);
                tokens.push(create_token(TokenKind::Operator(first_kind), start, 1));
                let second_kind = resolve_single_operator(buf[1]);
                tokens.push(create_token(TokenKind::Operator(second_kind), start + 1, 1));
            } else {
                let length = buf.len();
                tokens.push(create_token(TokenKind::Operator(kind), start, length));
            }
        },
    }
}

/// Collects the characters of a string slice, in order. The byte offset one
/// past the last character is bounded by the byte length of the slice, which
/// fits in `usize`.
fn collect_chars(s: &str) -> (v: Vec<char>)
    ensures
        v@ == s@,
        byte_index(v@, v@.len() as int) <= usize::MAX,
{
    let bytes: &[u8] = s.as_bytes();
    let mut it = s.chars();
    let mut v: Vec<char> = Vec::new();
    loop
        invariant
            it.obeys_prophetic_iter_laws(),
            it.decrease() is Some,
            v@ + it.remaining() == s@,
        ensures
            v@ == s@,
        decreases it.decrease()->0,
    {
        match it.next() {
            Some(c) => {
                v.push(c);
            },
            None => {
                proof {
                    assert(v@ + it.remaining() =~= v@);
                }
                break ;
            },
        }
    }
    proof {
        assert(vstd::slice::spec_slice_len(bytes) == bytes@.len());
        lemma_byte_index_is_encoded_len(v@);
    }
    v
}

/// One scanner instance: the input characters and the attached error
/// collector. It is created per input string, consumes it in exactly one
/// pass through [`Lexer::lex`], and is discarded.
pub struct Lexer {
    input: Vec<char>,
    handler: ErrorHandler,
}

impl Lexer {
    /// The input text as a character sequence.
    pub closed spec fn source(&self) -> Seq<char> {
        self.input@
    }

    /// The diagnostics already held by the attached collector.
    pub closed spec fn pending_errors(&self) -> Seq<ErrorModel> {
        errors_model(self.handler.errors@)
    }

    /// The input's byte length fits the machine; established by
    /// [`Lexer::new`].
    pub closed spec fn wf(&self) -> bool {
        byte_index(self.input@, self.input@.len() as int) <= usize::MAX
    }

    pub fn new(source: &String, handler: ErrorHandler) -> (lexer: Lexer)
        ensures
            lexer.source() == source@,
            lexer.pending_errors() == errors_model(handler.errors@),
            lexer.wf(),
    {
        let input = collect_chars(source.as_str());
        Lexer { input, handler }
    }

    /// Scans the whole input in one pass and returns the token list together
    /// with the error collector, which now also holds every diagnostic the
    /// pass emitted, in source order. The result is exactly the model's
    /// [`model::lex_spec`] of the input.
    pub fn lex(self) -> (r: (Vec<Token>, ErrorHandler))
        requires
            self.wf(),
        ensures
            tokens_model(r.0@) == lex_spec(self.source()).toks,
            errors_model(r.1.errors@) == self.pending_errors() + lex_spec(self.source()).errs,
    {
        let Lexer { input, mut handler } = self;
        let mut tokens: Vec<Token> = Vec::new();
        let mut state = State::Start;
        let mut pos: usize = 0;
        let mut i: usize = 0;
        let n = input.len();
        let ghost gfull = lex_spec(input@);
        let ghost initial_errors = errors_model(handler.errors@);
        while i < n
            invariant
                n == input@.len(),
                i <= n,
                pos == byte_index(input@, i as int),
                byte_index(input@, n as int) <= usize::MAX,
                state_wf(state@, pos as int),
                gfull == lex_spec(input@),
                gfull.toks == tokens_model(tokens@) + lex_from(
                    input@,
                    i as int,
                    state@,
                    pos as int,
                ).toks,
                initial_errors + gfull.errs == errors_model(handler.errors@) + lex_from(
                    input@,
                    i as int,
                    state@,
                    pos as int,
                ).errs,
            decreases n - i,
        {
            let c = input[i];
            proof {
                lemma_byte_index_succ(input@, i as int);
                lemma_byte_index_monotone(input@, i as int + 1, n as int);
                lemma_step_wf(state@, c, pos as int);
            }
            let ghost prev_state = state@;
            let ghost prev_rest = lex_from(input@, i as int, state@, pos as int);
            state = match state {
                State::Start => handle_start(c, pos, &mut tokens, &mut handler),
                State::InNumber { start } => handle_in_number(
                    start,
                    c,
                    pos,
                    &mut tokens,
                    &mut handler,
                ),
                State::InIdentifier { start, chars } => handle_in_identifier(
                    start,
                    chars,
                    c,
                    pos,
                    &mut tokens,
                    &mut handler,
                ),
                State::InOperator { start, buf } => handle_in_operator(
                    start,
                    buf,
                    c,
                    pos,
                    &mut tokens,
                    &mut handler,
                ),
                State::InString { kind, content_start } => handle_in_string(
                    kind,
                    content_start,
                    c,
                    pos,
                    &mut tokens,
                ),
            };
            let width = char_utf8_len(c);
            pos = pos + width;
            i = i + 1;
            proof {
                let sout = step(prev_state, c, byte_index(input@, i as int - 1));
                assert(prev_rest.toks == sout.toks + lex_from(
                    input@,
                    i as int,
                    state@,
                    pos as int,
                ).toks);
                assert(prev_rest.errs == sout.errs + lex_from(
                    input@,
                    i as int,
                    state@,
                    pos as int,
                ).errs);
                assert(gfull.toks =~= tokens_model(tokens@) + lex_from(
                    input@,
                    i as int,
                    state@,
                    pos as int,
                ).toks);
                assert(initial_errors + gfull.errs =~= errors_model(handler.errors@) + lex_from(
                    input@,
                    i as int,
                    state@,
                    pos as int,
                ).errs);
            }
        }
        proof {
            assert(lex_from(input@, i as int, state@, pos as int) == flush(state@, pos as int));
        }
        match state {
            State::Start => {
                proof {
                    assert(gfull.toks =~= tokens_model(tokens@));
                    assert(initial_errors + gfull.errs =~= errors_model(handler.errors@));
                }
            },
            buffered => {
                consume_buffered_token(buffered, pos, &mut tokens, &mut handler);
                proof {
                    assert(gfull.toks =~= tokens_model(tokens@));
                    assert(initial_errors + gfull.errs =~= errors_model(handler.errors@));
                }
            },
        }
        (tokens, handler)
    }
}

} // verus!
