//! The laws the scanner obeys, proved of the model in `model`.
//!
//! Together with [`Lexer::lex`]'s contract — its result equals the model of
//! its input — each law here carries over to the executable scanner.

use vstd::prelude::*;
use vstd::utf8::encode_utf8;

use crate::lexer::character_helpers::char_byte_len;
use crate::lexer::character_helpers::lemma_ascii_char_byte_len;
use crate::lexer::character_helpers::lemma_char_byte_len_bounds;
use crate::lexer::character_helpers::spec_is_digit;
use crate::lexer::character_helpers::spec_is_in_identifier;
use crate::lexer::character_helpers::spec_is_keyword;
use crate::lexer::character_helpers::spec_is_letter;
use crate::lexer::character_helpers::spec_is_operator;
use crate::lexer::error_model;
use crate::lexer::ErrorModel;
use crate::lexer::LexerErrorKind;
use crate::lexer::model::byte_index;
use crate::lexer::model::flush;
use crate::lexer::model::identifier_token_kind;
use crate::lexer::model::lemma_byte_index_is_encoded_len;
use crate::lexer::model::lemma_byte_index_monotone;
use crate::lexer::model::lemma_byte_index_prefix;
use crate::lexer::model::lemma_byte_index_shift;
use crate::lexer::model::lemma_byte_index_succ;
use crate::lexer::model::lemma_step_wf;
use crate::lexer::model::lex_from;
use crate::lexer::model::lex_spec;
use crate::lexer::model::quote_char;
use crate::lexer::model::start_dispatch;
use crate::lexer::model::state_wf;
use crate::lexer::model::step;
use crate::lexer::model::LexOut;
use crate::lexer::model::LexState;
use crate::lexer::token::operator_kind_of;
use crate::lexer::token::pair_operator_kind;
use crate::lexer::token::single_operator_kind;
use crate::lexer::token::token_model;
use crate::lexer::token::OperatorKind;
use crate::lexer::token::StringKind;
use crate::lexer::token::TokenKind;
use crate::lexer::token::TokenModel;

verus! {

/// The tokens partition the byte range `from..to` in order, with no gaps and
/// no overlaps, once the consumed-but-excluded quote delimiters are put
/// back: a string token's span starts one byte after where the previous
/// token ended (the opening delimiter), and the byte after its span may be a
/// consumed closing delimiter.
pub open spec fn covers(toks: Seq<TokenModel>, from: int, to: int) -> bool
    decreases toks.len(),
{
    if toks.len() == 0 {
        from == to
    } else {
        let t = toks[0];
        let end = t.span.start + t.span.length;
        &&& t.span.length >= 0
        &&& if t.kind is String {
            t.span.start == from + 1 && (covers(toks.drop_first(), end + 1, to) || covers(
                toks.drop_first(),
                end,
                to,
            ))
        } else {
            t.span.start == from && covers(toks.drop_first(), end, to)
        }
    }
}

/// The byte offset where the scanner's pending output resumes: the start of
/// the buffered token (for a string literal, its opening delimiter), or the
/// current offset when nothing is buffered.
pub open spec fn state_anchor(state: LexState, pos: int) -> int {
    match state {
        LexState::Start => pos,
        LexState::InNumber { start } => start,
        LexState::InIdentifier { start, chars } => start,
        LexState::InOperator { start, buf } => start,
        LexState::InString { kind, content_start } => content_start - 1,
    }
}

/// A single non-string token covers exactly `from..to`.
proof fn lemma_covers_singleton(t: TokenModel, from: int, to: int)
    requires
        t.span.length >= 0,
        !(t.kind is String),
        t.span.start == from,
        t.span.start + t.span.length == to,
    ensures
        covers(seq![t], from, to),
{
    assert(seq![t].drop_first() =~= Seq::<TokenModel>::empty());
    assert(covers(Seq::<TokenModel>::empty(), to, to));
}

/// A single string token covers `from..to` with its opening delimiter at
/// `from` and, when `to` lies one past its span, its closing delimiter
/// consumed.
proof fn lemma_covers_singleton_string(t: TokenModel, from: int, to: int)
    requires
        t.span.length >= 0,
        t.kind is String,
        t.span.start == from + 1,
        t.span.start + t.span.length == to || t.span.start + t.span.length + 1 == to,
    ensures
        covers(seq![t], from, to),
{
    assert(seq![t].drop_first() =~= Seq::<TokenModel>::empty());
    assert(covers(Seq::<TokenModel>::empty(), to, to));
}

/// Coverage composes over concatenation at a shared boundary.
proof fn lemma_covers_concat(a: Seq<TokenModel>, b: Seq<TokenModel>, from: int, mid: int, to: int)
    requires
        covers(a, from, mid),
        covers(b, mid, to),
    ensures
        covers(a + b, from, to),
    decreases a.len(),
{
    if a.len() == 0 {
        assert(a + b =~= b);
    } else {
        let t = a[0];
        let end = t.span.start + t.span.length;
        assert((a + b).drop_first() =~= a.drop_first() + b);
        if t.kind is String {
            if covers(a.drop_first(), end + 1, mid) {
                lemma_covers_concat(a.drop_first(), b, end + 1, mid, to);
            } else {
                lemma_covers_concat(a.drop_first(), b, end, mid, to);
            }
        } else {
            lemma_covers_concat(a.drop_first(), b, end, mid, to);
        }
    }
}

/// Classifying one character from `Start` emits tokens that cover the bytes
/// between the current offset and the next state's anchor.
proof fn lemma_start_dispatch_covers(c: char, pos: int)
    ensures
        ({
            let out = start_dispatch(c, pos);
            covers(out.toks, pos, state_anchor(out.state, pos + char_byte_len(c)))
        }),
{
    lemma_char_byte_len_bounds(c);
    let out = start_dispatch(c, pos);
    let to = state_anchor(out.state, pos + char_byte_len(c));
    if out.toks.len() == 0 {
    } else {
        lemma_covers_singleton(out.toks[0], pos, to);
        assert(out.toks =~= seq![out.toks[0]]);
    }
}

/// One step emits tokens that cover the bytes between the old anchor and the
/// new one.
proof fn lemma_step_covers(state: LexState, c: char, pos: int)
    requires
        state_wf(state, pos),
    ensures
        ({
            let out = step(state, c, pos);
            covers(
                out.toks,
                state_anchor(state, pos),
                state_anchor(out.state, pos + char_byte_len(c)),
            )
        }),
{
    lemma_char_byte_len_bounds(c);
    let out = step(state, c, pos);
    let to = state_anchor(out.state, pos + char_byte_len(c));
    let disp = start_dispatch(c, pos);
    let disp_to = state_anchor(disp.state, pos + char_byte_len(c));
    lemma_start_dispatch_covers(c, pos);
    match state {
        LexState::Start => {},
        LexState::InNumber { start } => {
            if !spec_is_digit(c) {
                let t = token_model(TokenKind::Number, start, pos - start);
                lemma_covers_singleton(t, start, pos);
                lemma_covers_concat(seq![t], disp.toks, start, pos, disp_to);
            }
        },
        LexState::InIdentifier { start, chars } => {
            if !spec_is_in_identifier(c) {
                let t = token_model(identifier_token_kind(chars), start, pos - start);
                lemma_covers_singleton(t, start, pos);
                lemma_covers_concat(seq![t], disp.toks, start, pos, disp_to);
            }
        },
        LexState::InString { kind, content_start } => {
            if c == quote_char(kind) {
                let t = token_model(TokenKind::String(kind), content_start, pos - content_start);
                lemma_covers_singleton_string(t, content_start - 1, pos + 1);
                assert(out.toks =~= seq![t]);
            }
        },
        LexState::InOperator { start, buf } => {
            if buf.len() < 2 && spec_is_operator(c) {
            } else {
                let kind = operator_kind_of(buf);
                if buf.len() == 2 && kind == OperatorKind::Invalid {
                    let first = token_model(
                        TokenKind::Operator(single_operator_kind(buf[0])),
                        start,
                        1,
                    );
                    if spec_is_operator(c) {
                        lemma_covers_singleton(first, start, start + 1);
                        assert(out.toks =~= seq![first]);
                    } else {
                        let second = token_model(
                            TokenKind::Operator(single_operator_kind(buf[1])),
                            start + 1,
                            1,
                        );
                        lemma_covers_singleton(second, start + 1, pos);
                        assert(seq![first, second].drop_first() =~= seq![second]);
                        assert(covers(seq![first, second], start, pos));
                        lemma_covers_concat(seq![first, second], disp.toks, start, pos, disp_to);
                    }
                } else {
                    let resolved = token_model(TokenKind::Operator(kind), start, buf.len() as int);
                    lemma_covers_singleton(resolved, start, pos);
                    lemma_covers_concat(seq![resolved], disp.toks, start, pos, disp_to);
                }
            }
        },
    }
}

/// Flushing at end of input emits tokens that cover the bytes between the
/// anchor and the end.
proof fn lemma_flush_covers(state: LexState, pos: int)
    requires
        state_wf(state, pos),
    ensures
        covers(flush(state, pos).toks, state_anchor(state, pos), pos),
{
    match state {
        LexState::Start => {},
        LexState::InNumber { start } => {
            lemma_covers_singleton(token_model(TokenKind::Number, start, pos - start), start, pos);
            assert(flush(state, pos).toks =~= seq![token_model(TokenKind::Number, start, pos - start)]);
        },
        LexState::InIdentifier { start, chars } => {
            let t = token_model(identifier_token_kind(chars), start, pos - start);
            lemma_covers_singleton(t, start, pos);
            assert(flush(state, pos).toks =~= seq![t]);
        },
        LexState::InString { kind, content_start } => {
            let t = token_model(TokenKind::String(kind), content_start, pos - content_start);
            lemma_covers_singleton_string(t, content_start - 1, pos);
            assert(flush(state, pos).toks =~= seq![t]);
        },
        LexState::InOperator { start, buf } => {
            let kind = operator_kind_of(buf);
            if buf.len() == 2 && kind == OperatorKind::Invalid {
                let first = token_model(
                    TokenKind::Operator(single_operator_kind(buf[0])),
                    start,
                    1,
                );
                let second = token_model(
                    TokenKind::Operator(single_operator_kind(buf[1])),
                    start + 1,
                    1,
                );
                lemma_covers_singleton(second, start + 1, pos);
                assert(seq![first, second].drop_first() =~= seq![second]);
                assert(covers(seq![first, second], start, pos));
            } else {
                let t = token_model(TokenKind::Operator(kind), start, buf.len() as int);
                lemma_covers_singleton(t, start, pos);
                assert(flush(state, pos).toks =~= seq![t]);
            }
        },
    }
}

/// Running the machine to the end emits tokens that cover the bytes between
/// the current anchor and the end of the input.
proof fn lemma_lex_from_covers(input: Seq<char>, i: int, state: LexState, pos: int)
    requires
        0 <= i <= input.len(),
        pos == byte_index(input, i),
        state_wf(state, pos),
    ensures
        covers(
            lex_from(input, i, state, pos).toks,
            state_anchor(state, pos),
            byte_index(input, input.len() as int),
        ),
    decreases input.len() - i,
{
    if i == input.len() {
        lemma_flush_covers(state, pos);
    } else {
        let c = input[i];
        let out = step(state, c, pos);
        lemma_step_covers(state, c, pos);
        lemma_byte_index_monotone(input, 0, i);
        lemma_step_wf(state, c, pos);
        lemma_byte_index_succ(input, i);
        lemma_lex_from_covers(input, i + 1, out.state, pos + char_byte_len(c));
        lemma_covers_concat(
            out.toks,
            lex_from(input, i + 1, out.state, pos + char_byte_len(c)).toks,
            state_anchor(state, pos),
            state_anchor(out.state, pos + char_byte_len(c)),
            byte_index(input, input.len() as int),
        );
    }
}

/// Coverage law: for any input, the emitted token spans, together with the
/// consumed-but-excluded quote delimiter bytes, partition the input's full
/// UTF-8 byte length with no gaps and no overlaps.
pub proof fn lemma_lex_covers_input(input: Seq<char>)
    ensures
        covers(lex_spec(input).toks, 0, byte_index(input, input.len() as int)),
        byte_index(input, input.len() as int) == encode_utf8(input).len(),
{
    lemma_lex_from_covers(input, 0, LexState::Start, 0);
    lemma_byte_index_is_encoded_len(input);
}

/// Determinism law: the scanner's output is a function of the input text
/// alone, so lexing the same input twice yields identical token and error
/// lists.
pub proof fn lemma_lex_deterministic(a: Seq<char>, b: Seq<char>)
    requires
        a == b,
    ensures
        lex_spec(a) == lex_spec(b),
{
}

/// Trailing-token law: when the input ends while a token is still buffered,
/// flushing emits at least one token.
pub proof fn lemma_trailing_token_emitted(state: LexState, pos: int)
    requires
        !(state is Start),
    ensures
        flush(state, pos).toks.len() >= 1,
{
}

/// A non-empty input always yields at least one token.
pub proof fn lemma_nonempty_input_yields_tokens(input: Seq<char>)
    requires
        input.len() > 0,
    ensures
        lex_spec(input).toks.len() >= 1,
{
    lemma_lex_covers_input(input);
    lemma_byte_index_monotone(input, 0, input.len() as int);
}

/// Scanning an identifier-shaped remainder stays in the identifier state and
/// finalizes it whole at end of input.
proof fn lemma_identifier_run(input: Seq<char>, i: int)
    requires
        1 <= i <= input.len(),
        forall|j: int| 0 <= j < input.len() ==> spec_is_in_identifier(#[trigger] input[j]),
    ensures
        lex_from(input, i, LexState::InIdentifier { start: 0, chars: input.take(i) }, i) == (LexOut {
            toks: seq![token_model(identifier_token_kind(input), 0, input.len() as int)],
            errs: Seq::<ErrorModel>::empty(),
        }),
    decreases input.len() - i,
{
    let state = LexState::InIdentifier { start: 0, chars: input.take(i) };
    if i == input.len() {
        assert(input.take(i) =~= input);
        assert(lex_from(input, i, state, i) =~= flush(state, i as int));
    } else {
        let c = input[i];
        lemma_ascii_char_byte_len(c);
        assert(input.take(i).push(c) =~= input.take(i + 1));
        lemma_identifier_run(input, i + 1);
        assert(lex_from(input, i, state, i) =~= lex_from(
            input,
            i + 1,
            LexState::InIdentifier { start: 0, chars: input.take(i + 1) },
            i + 1,
        ));
    }
}

/// Keyword law: an identifier-shaped input — an ASCII letter followed by
/// identifier-continuation characters — yields exactly one token, spanning
/// the whole input, whose kind is `Keyword` iff the text matches the fixed
/// keyword set and `Identifier` otherwise; and no diagnostics.
pub proof fn lemma_keyword_law(input: Seq<char>)
    requires
        input.len() >= 1,
        spec_is_letter(input[0]),
        forall|j: int| 0 <= j < input.len() ==> spec_is_in_identifier(#[trigger] input[j]),
    ensures
        lex_spec(input).toks == seq![
            token_model(identifier_token_kind(input), 0, input.len() as int),
        ],
        lex_spec(input).errs == Seq::<ErrorModel>::empty(),
        lex_spec(input).toks[0].kind == TokenKind::Keyword <==> spec_is_keyword(input),
{
    let c = input[0];
    lemma_ascii_char_byte_len(c);
    assert(seq![c] =~= input.take(1));
    lemma_identifier_run(input, 1);
    assert(lex_spec(input).toks =~= seq![
        token_model(identifier_token_kind(input), 0, input.len() as int),
    ]);
    assert(lex_spec(input).errs =~= Seq::<ErrorModel>::empty());
}

/// Scanning a string literal's remainder stays in the string state until the
/// closing delimiter and emits the content span.
proof fn lemma_string_run(input: Seq<char>, kind: StringKind, i: int)
    requires
        input.len() >= 2,
        1 <= i <= input.len() - 1,
        input[input.len() - 1] == quote_char(kind),
        forall|j: int| 1 <= j < input.len() - 1 ==> #[trigger] input[j] != quote_char(kind),
    ensures
        lex_from(
            input,
            i,
            LexState::InString { kind, content_start: 1 },
            byte_index(input, i),
        ) == (LexOut {
            toks: seq![
                token_model(
                    TokenKind::String(kind),
                    1,
                    byte_index(input, input.len() - 1) - 1,
                ),
            ],
            errs: Seq::<ErrorModel>::empty(),
        }),
    decreases input.len() - i,
{
    let state = LexState::InString { kind, content_start: 1 };
    let c = input[i];
    let pos = byte_index(input, i);
    lemma_byte_index_succ(input, i);
    if i == input.len() - 1 {
        lemma_ascii_char_byte_len(c);
        assert(lex_from(input, i + 1, LexState::Start, pos + 1) =~= flush(
            LexState::Start,
            pos + 1,
        ));
        assert(lex_from(input, i, state, pos) =~= LexOut {
            toks: seq![token_model(TokenKind::String(kind), 1, pos - 1)],
            errs: Seq::<ErrorModel>::empty(),
        });
    } else {
        assert(c != quote_char(kind));
        lemma_string_run(input, kind, i + 1);
        assert(lex_from(input, i, state, pos) =~= lex_from(
            input,
            i + 1,
            state,
            pos + char_byte_len(c),
        ));
    }
}

/// Multi-byte correctness law: a quote-delimited literal — an opening
/// delimiter, content free of that delimiter, and a closing delimiter —
/// yields exactly one string token whose span starts just past the opening
/// delimiter and whose length is the UTF-8 byte count of the content, not
/// its character count; and no diagnostics.
pub proof fn lemma_string_span_is_byte_length(input: Seq<char>, kind: StringKind)
    requires
        input.len() >= 2,
        input[0] == quote_char(kind),
        input[input.len() - 1] == quote_char(kind),
        forall|j: int| 1 <= j < input.len() - 1 ==> #[trigger] input[j] != quote_char(kind),
    ensures
        lex_spec(input).toks == seq![
            token_model(
                TokenKind::String(kind),
                1,
                encode_utf8(input.subrange(1, input.len() - 1)).len() as int,
            ),
        ],
        lex_spec(input).errs == Seq::<ErrorModel>::empty(),
{
    let content = input.subrange(1, input.len() - 1);
    lemma_ascii_char_byte_len(input[0]);
    lemma_byte_index_succ(input, 0);
    assert(byte_index(input, 0) == 0);
    assert(byte_index(input, 1) == 1);
    lemma_string_run(input, kind, 1);
    assert(lex_spec(input).toks =~= seq![
        token_model(TokenKind::String(kind), 1, byte_index(input, input.len() - 1) - 1),
    ]);
    assert(lex_spec(input).errs =~= Seq::<ErrorModel>::empty());
    lemma_byte_index_shift(input, input.len() - 1);
    lemma_byte_index_prefix(input.drop_first(), content, input.len() - 2);
    lemma_byte_index_is_encoded_len(content);
}

/// Every operator symbol resolves on its own: a one-symbol run is never
/// invalid.
pub proof fn lemma_single_operator_resolves(c: char)
    requires
        spec_is_operator(c),
    ensures
        single_operator_kind(c) != OperatorKind::Invalid,
{
}

/// Operator resolution law, resolving case: a defined two-symbol run, alone
/// in the input, yields exactly one operator token of its documented kind
/// and no diagnostics.
pub proof fn lemma_operator_pair_resolved(c1: char, c2: char)
    requires
        spec_is_operator(c1),
        spec_is_operator(c2),
        pair_operator_kind(c1, c2) != OperatorKind::Invalid,
    ensures
        lex_spec(seq![c1, c2]) == (LexOut {
            toks: seq![token_model(TokenKind::Operator(pair_operator_kind(c1, c2)), 0, 2)],
            errs: Seq::<ErrorModel>::empty(),
        }),
{
    let s = seq![c1, c2];
    lemma_ascii_char_byte_len(c1);
    lemma_ascii_char_byte_len(c2);
    let st1 = step(LexState::Start, c1, 0);
    assert(st1.state =~= LexState::InOperator { start: 0, buf: seq![c1] });
    let st2 = step(st1.state, c2, 1);
    assert(seq![c1].push(c2) =~= seq![c1, c2]);
    assert(st2.state =~= LexState::InOperator { start: 0, buf: seq![c1, c2] });
    assert(lex_from(s, 2, st2.state, 2) == flush(st2.state, 2));
    assert(lex_from(s, 1, st1.state, 1) == LexOut {
        toks: st2.toks + lex_from(s, 2, st2.state, 2).toks,
        errs: st2.errs + lex_from(s, 2, st2.state, 2).errs,
    });
    assert(lex_spec(s) == LexOut {
        toks: st1.toks + lex_from(s, 1, st1.state, 1).toks,
        errs: st1.errs + lex_from(s, 1, st1.state, 1).errs,
    });
    assert(lex_spec(s) =~= LexOut {
        toks: seq![token_model(TokenKind::Operator(pair_operator_kind(c1, c2)), 0, 2)],
        errs: Seq::<ErrorModel>::empty(),
    });
}

/// Operator resolution law, error case: a two-symbol run with no defined
/// meaning, alone in the input, yields exactly one `InvalidOperator`
/// diagnostic spanning both symbols plus the two symbols' own resolved
/// one-byte operator tokens.
pub proof fn lemma_operator_pair_split(c1: char, c2: char)
    requires
        spec_is_operator(c1),
        spec_is_operator(c2),
        pair_operator_kind(c1, c2) == OperatorKind::Invalid,
    ensures
        lex_spec(seq![c1, c2]) == (LexOut {
            toks: seq![
                token_model(TokenKind::Operator(single_operator_kind(c1)), 0, 1),
                token_model(TokenKind::Operator(single_operator_kind(c2)), 1, 1),
            ],
            errs: seq![error_model(LexerErrorKind::InvalidOperator, 0, 2)],
        }),
        single_operator_kind(c1) != OperatorKind::Invalid,
        single_operator_kind(c2) != OperatorKind::Invalid,
{
    let s = seq![c1, c2];
    lemma_ascii_char_byte_len(c1);
    lemma_ascii_char_byte_len(c2);
    let st1 = step(LexState::Start, c1, 0);
    assert(st1.state =~= LexState::InOperator { start: 0, buf: seq![c1] });
    let st2 = step(st1.state, c2, 1);
    assert(seq![c1].push(c2) =~= seq![c1, c2]);
    assert(st2.state =~= LexState::InOperator { start: 0, buf: seq![c1, c2] });
    assert(lex_from(s, 2, st2.state, 2) == flush(st2.state, 2));
    assert(lex_from(s, 1, st1.state, 1) == LexOut {
        toks: st2.toks + lex_from(s, 2, st2.state, 2).toks,
        errs: st2.errs + lex_from(s, 2, st2.state, 2).errs,
    });
    assert(lex_spec(s) == LexOut {
        toks: st1.toks + lex_from(s, 1, st1.state, 1).toks,
        errs: st1.errs + lex_from(s, 1, st1.state, 1).errs,
    });
    assert(lex_spec(s) =~= LexOut {
        toks: seq![
            token_model(TokenKind::Operator(single_operator_kind(c1)), 0, 1),
            token_model(TokenKind::Operator(single_operator_kind(c2)), 1, 1),
        ],
        errs: seq![error_model(LexerErrorKind::InvalidOperator, 0, 2)],
    });
}

} // verus!
