//! The mathematical model of the scanner.
//!
//! The model consumes one character per [`step`]; a character that the
//! executable scanner re-examines after finalizing a buffered token is
//! handled inside the same step, so each step both flushes what a boundary
//! character ends and classifies that character. [`lex_from`] folds the step
//! function over the input and flushes the final state, and [`lex_spec`] is
//! the meaning of one whole scanning pass. Positions are byte offsets: a
//! character at index `i` starts at [`byte_index`]`(input, i)`.

use vstd::prelude::*;
use vstd::utf8::encode_utf8;

use crate::lexer::character_helpers::char_byte_len;
use crate::lexer::character_helpers::lemma_char_byte_len_bounds;
use crate::lexer::character_helpers::spec_is_digit;
use crate::lexer::character_helpers::spec_is_double_quote;
use crate::lexer::character_helpers::spec_is_in_identifier;
use crate::lexer::character_helpers::spec_is_keyword;
use crate::lexer::character_helpers::spec_is_letter;
use crate::lexer::character_helpers::spec_is_operator;
use crate::lexer::character_helpers::spec_is_semicolon;
use crate::lexer::character_helpers::spec_is_single_quote;
use crate::lexer::character_helpers::spec_is_whitespace;
use crate::lexer::error_model;
use crate::lexer::ErrorModel;
use crate::lexer::LexerErrorKind;
use crate::lexer::token::operator_kind_of;
use crate::lexer::token::single_operator_kind;
use crate::lexer::token::token_model;
use crate::lexer::token::OperatorKind;
use crate::lexer::token::StringKind;
use crate::lexer::token::TokenKind;
use crate::lexer::token::TokenModel;

verus! {

/// The scanner's state: either between tokens, or buffering one, with the
/// byte offset where the buffered token started. `InIdentifier` and
/// `InOperator` also carry the buffered characters, since their finalization
/// depends on the spelled text; `InString` carries the byte offset where the
/// literal's content starts, one past the opening delimiter.
#[verifier::ext_equal]
pub ghost enum LexState {
    Start,
    InNumber { start: int },
    InIdentifier { start: int, chars: Seq<char> },
    InOperator { start: int, buf: Seq<char> },
    InString { kind: StringKind, content_start: int },
}

/// What one step of the machine produces: the next state and the tokens and
/// errors it emitted, in order.
#[verifier::ext_equal]
pub ghost struct StepOut {
    pub state: LexState,
    pub toks: Seq<TokenModel>,
    pub errs: Seq<ErrorModel>,
}

/// The result of a whole scanning pass.
#[verifier::ext_equal]
pub ghost struct LexOut {
    pub toks: Seq<TokenModel>,
    pub errs: Seq<ErrorModel>,
}

/// The delimiter character of a string kind.
pub open spec fn quote_char(kind: StringKind) -> char {
    match kind {
        StringKind::SingleQuoted => '\'',
        StringKind::DoubleQuoted => '"',
    }
}

/// The byte offset at which the character at index `i` starts: the sum of
/// the UTF-8 widths of all earlier characters.
pub open spec fn byte_index(s: Seq<char>, i: int) -> int
    decreases i,
{
    if i <= 0 {
        0
    } else {
        byte_index(s, i - 1) + char_byte_len(s[i - 1])
    }
}

/// The kind an identifier-shaped slice finalizes to: `Keyword` exactly when
/// the text matches the keyword set.
pub open spec fn identifier_token_kind(chars: Seq<char>) -> TokenKind {
    if spec_is_keyword(chars) {
        TokenKind::Keyword
    } else {
        TokenKind::Identifier
    }
}

/// Classifies one character from the `Start` state: either it opens a
/// buffered token (digit, letter, quote, operator symbol) or it is emitted
/// immediately (semicolon, whitespace, anything unrecognized). The character
/// is consumed either way; `pos` is its byte offset.
pub open spec fn start_dispatch(c: char, pos: int) -> StepOut {
    if spec_is_digit(c) {
        StepOut { state: LexState::InNumber { start: pos }, toks: seq![], errs: seq![] }
    } else if spec_is_letter(c) {
        StepOut {
            state: LexState::InIdentifier { start: pos, chars: seq![c] },
            toks: seq![],
            errs: seq![],
        }
    } else if spec_is_single_quote(c) {
        StepOut {
            state: LexState::InString { kind: StringKind::SingleQuoted, content_start: pos + 1 },
            toks: seq![],
            errs: seq![],
        }
    } else if spec_is_double_quote(c) {
        StepOut {
            state: LexState::InString { kind: StringKind::DoubleQuoted, content_start: pos + 1 },
            toks: seq![],
            errs: seq![],
        }
    } else if spec_is_operator(c) {
        StepOut { state: LexState::InOperator { start: pos, buf: seq![c] }, toks: seq![], errs: seq![] }
    } else if spec_is_semicolon(c) {
        StepOut {
            state: LexState::Start,
            toks: seq![token_model(TokenKind::Semicolon, pos, 1)],
            errs: seq![],
        }
    } else if spec_is_whitespace(c) {
        StepOut {
            state: LexState::Start,
            toks: seq![token_model(TokenKind::Whitespace, pos, char_byte_len(c))],
            errs: seq![],
        }
    } else {
        StepOut {
            state: LexState::Start,
            toks: seq![token_model(TokenKind::Invalid, pos, char_byte_len(c))],
            errs: seq![error_model(LexerErrorKind::InvalidToken, pos, char_byte_len(c))],
        }
    }
}

/// Force-finalizes a buffered token as though a boundary were reached at
/// byte offset `pos`. An invalid two-symbol operator run splits into its two
/// independently resolved symbols and one `InvalidOperator` diagnostic.
pub open spec fn flush(state: LexState, pos: int) -> LexOut {
    match state {
        LexState::Start => LexOut { toks: seq![], errs: seq![] },
        LexState::InNumber { start } => LexOut {
            toks: seq![token_model(TokenKind::Number, start, pos - start)],
            errs: seq![],
        },
        LexState::InIdentifier { start, chars } => LexOut {
            toks: seq![token_model(identifier_token_kind(chars), start, pos - start)],
            errs: seq![],
        },
        LexState::InString { kind, content_start } => LexOut {
            toks: seq![
                token_model(TokenKind::String(kind), content_start, pos - content_start),
            ],
            errs: seq![],
        },
        LexState::InOperator { start, buf } => {
            let kind = operator_kind_of(buf);
            if buf.len() == 2 && kind == OperatorKind::Invalid {
                LexOut {
                    toks: seq![
                        token_model(
                            TokenKind::Operator(single_operator_kind(buf[0])),
                            start,
                            1,
                        ),
                        token_model(
                            TokenKind::Operator(single_operator_kind(buf[1])),
                            start + 1,
                            1,
                        ),
                    ],
                    errs: seq![error_model(LexerErrorKind::InvalidOperator, start, 2)],
                }
            } else {
                LexOut {
                    toks: seq![token_model(TokenKind::Operator(kind), start, buf.len() as int)],
                    errs: seq![],
                }
            }
        },
    }
}

/// Consumes one character at byte offset `pos`. A character that ends a
/// buffered token finalizes it and is then reclassified within the same
/// step; after an invalid two-symbol operator run splits, scanning restarts
/// from the run's second symbol, which may combine with `c` into a new run.
pub open spec fn step(state: LexState, c: char, pos: int) -> StepOut {
    match state {
        LexState::Start => start_dispatch(c, pos),
        LexState::InNumber { start } => {
            if spec_is_digit(c) {
                StepOut { state, toks: seq![], errs: seq![] }
            } else {
                let out = start_dispatch(c, pos);
                StepOut {
                    state: out.state,
                    toks: flush(state, pos).toks + out.toks,
                    errs: out.errs,
                }
            }
        },
        LexState::InIdentifier { start, chars } => {
            if spec_is_in_identifier(c) {
                StepOut {
                    state: LexState::InIdentifier { start, chars: chars.push(c) },
                    toks: seq![],
                    errs: seq![],
                }
            } else {
                let out = start_dispatch(c, pos);
                StepOut {
                    state: out.state,
                    toks: flush(state, pos).toks + out.toks,
                    errs: out.errs,
                }
            }
        },
        LexState::InString { kind, content_start } => {
            if c == quote_char(kind) {
                StepOut { state: LexState::Start, toks: flush(state, pos).toks, errs: seq![] }
            } else {
                StepOut { state, toks: seq![], errs: seq![] }
            }
        },
        LexState::InOperator { start, buf } => {
            if buf.len() < 2 && spec_is_operator(c) {
                StepOut {
                    state: LexState::InOperator { start, buf: buf.push(c) },
                    toks: seq![],
                    errs: seq![],
                }
            } else {
                let kind = operator_kind_of(buf);
                if buf.len() == 2 && kind == OperatorKind::Invalid {
                    let err = error_model(LexerErrorKind::InvalidOperator, start, 2);
                    let first = token_model(
                        TokenKind::Operator(single_operator_kind(buf[0])),
                        start,
                        1,
                    );
                    if spec_is_operator(c) {
                        StepOut {
                            state: LexState::InOperator { start: start + 1, buf: seq![buf[1], c] },
                            toks: seq![first],
                            errs: seq![err],
                        }
                    } else {
                        let second = token_model(
                            TokenKind::Operator(single_operator_kind(buf[1])),
                            start + 1,
                            1,
                        );
                        let out = start_dispatch(c, pos);
                        StepOut {
                            state: out.state,
                            toks: seq![first, second] + out.toks,
                            errs: seq![err] + out.errs,
                        }
                    }
                } else {
                    let resolved = token_model(TokenKind::Operator(kind), start, buf.len() as int);
                    let out = start_dispatch(c, pos);
                    StepOut { state: out.state, toks: seq![resolved] + out.toks, errs: out.errs }
                }
            }
        },
    }
}

/// Runs the machine from character index `i` in state `state` at byte
/// offset `pos` to the end of the input, flushing whatever is still
/// buffered there.
pub open spec fn lex_from(input: Seq<char>, i: int, state: LexState, pos: int) -> LexOut
    decreases input.len() - i,
{
    if i < 0 || i >= input.len() {
        flush(state, pos)
    } else {
        let out = step(state, input[i], pos);
        let rest = lex_from(input, i + 1, out.state, pos + char_byte_len(input[i]));
        LexOut { toks: out.toks + rest.toks, errs: out.errs + rest.errs }
    }
}

/// The meaning of one whole scanning pass over `input`.
pub open spec fn lex_spec(input: Seq<char>) -> LexOut {
    lex_from(input, 0, LexState::Start, 0)
}

/// Well-formedness of a state reached at byte offset `pos`: the buffered
/// token started at or before `pos`, and an operator buffer holds one or two
/// one-byte symbols ending exactly at `pos`.
pub open spec fn state_wf(state: LexState, pos: int) -> bool {
    match state {
        LexState::Start => true,
        LexState::InNumber { start } => 0 <= start <= pos,
        LexState::InIdentifier { start, chars } => 0 <= start <= pos,
        LexState::InOperator { start, buf } => 0 <= start && 1 <= buf.len() <= 2 && start
            + buf.len() == pos,
        LexState::InString { kind, content_start } => 1 <= content_start <= pos,
    }
}

/// One step preserves state well-formedness at the advanced byte offset.
pub proof fn lemma_step_wf(state: LexState, c: char, pos: int)
    requires
        state_wf(state, pos),
        0 <= pos,
    ensures
        state_wf(step(state, c, pos).state, pos + char_byte_len(c)),
{
    lemma_char_byte_len_bounds(c);
}

/// Successive byte offsets differ by the width of the character between
/// them.
pub proof fn lemma_byte_index_succ(s: Seq<char>, i: int)
    requires
        0 <= i,
    ensures
        byte_index(s, i + 1) == byte_index(s, i) + char_byte_len(s[i]),
{
}

/// Byte offsets grow with the character index, and at least one byte per
/// character.
pub proof fn lemma_byte_index_monotone(s: Seq<char>, i: int, j: int)
    requires
        0 <= i <= j,
    ensures
        byte_index(s, i) + (j - i) <= byte_index(s, j),
    decreases j - i,
{
    if i < j {
        lemma_byte_index_monotone(s, i, j - 1);
        lemma_char_byte_len_bounds(s[j - 1]);
    }
}

/// Byte offsets agree with vstd's UTF-8 encoding: the offset one past the
/// last character is the byte length of the encoded input.
pub proof fn lemma_byte_index_is_encoded_len(s: Seq<char>)
    ensures
        byte_index(s, s.len() as int) == encode_utf8(s).len(),
    decreases s.len(),
{
    if s.len() == 0 {
    } else {
        lemma_byte_index_is_encoded_len(s.drop_first());
        lemma_byte_index_shift(s, s.len() as int);
    }
}

/// Two sequences that agree on their first `i` characters place the
/// character at index `i` at the same byte offset.
pub proof fn lemma_byte_index_prefix(s1: Seq<char>, s2: Seq<char>, i: int)
    requires
        0 <= i,
        forall|j: int| 0 <= j < i ==> s1[j] == s2[j],
    ensures
        byte_index(s1, i) == byte_index(s2, i),
    decreases i,
{
    if i > 0 {
        lemma_byte_index_prefix(s1, s2, i - 1);
    }
}

/// Dropping the first character shifts every byte offset down by its width.
pub proof fn lemma_byte_index_shift(s: Seq<char>, i: int)
    requires
        1 <= i <= s.len(),
    ensures
        byte_index(s, i) == char_byte_len(s[0]) + byte_index(s.drop_first(), i - 1),
    decreases i,
{
    if i == 1 {
        assert(byte_index(s, 1) == byte_index(s, 0) + char_byte_len(s[0]));
    } else {
        lemma_byte_index_shift(s, i - 1);
        assert(s.drop_first()[i - 2] == s[i - 1]);
        lemma_byte_index_succ(s, i - 1);
        lemma_byte_index_succ(s.drop_first(), i - 2);
    }
}

} // verus!
