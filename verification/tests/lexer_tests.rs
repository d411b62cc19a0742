use simple_lexer::lexer::token::{create_token, OperatorKind, Span, StringKind, TokenKind};
use simple_lexer::lexer::{ErrorHandler, Lexer, LexerError, LexerErrorKind};

#[test]
fn it_tokenizes_basic_number_assignment_correctly() {
    let source = String::from("let value = 1;");
    let handler = ErrorHandler::new();
    let lexer = Lexer::new(&source, handler);

    let (tokens, _handler) = lexer.lex();

    assert_eq!(
        tokens,
        vec![
            create_token(TokenKind::Keyword, 0, 3),
            create_token(TokenKind::Whitespace, 3, 1),
            create_token(TokenKind::Identifier, 4, 5),
            create_token(TokenKind::Whitespace, 9, 1),
            create_token(TokenKind::Operator(OperatorKind::Equal), 10, 1),
            create_token(TokenKind::Whitespace, 11, 1),
            create_token(TokenKind::Number, 12, 1),
            create_token(TokenKind::Semicolon, 13, 1),
        ]
    );
}

#[test]
fn it_tokenizes_number_compound_assignment_correctly() {
    let source = String::from("let value += 1;");
    let handler = ErrorHandler::new();
    let lexer = Lexer::new(&source, handler);

    let (tokens, _handler) = lexer.lex();

    assert_eq!(tokens.len(), 8);
    assert_eq!(
        tokens,
        vec![
            create_token(TokenKind::Keyword, 0, 3),
            create_token(TokenKind::Whitespace, 3, 1),
            create_token(TokenKind::Identifier, 4, 5),
            create_token(TokenKind::Whitespace, 9, 1),
            create_token(TokenKind::Operator(OperatorKind::CompoundAdd), 10, 2),
            create_token(TokenKind::Whitespace, 12, 1),
            create_token(TokenKind::Number, 13, 1),
            create_token(TokenKind::Semicolon, 14, 1),
        ]
    );
}

#[test]
fn it_tokenizes_invalid_operator_correctly_1() {
    let source = String::from("let value =+ 1;");
    let handler = ErrorHandler::new();
    let lexer = Lexer::new(&source, handler);

    let (tokens, _handler) = lexer.lex();

    assert_eq!(tokens.len(), 9);
    assert_eq!(
        tokens,
        vec![
            create_token(TokenKind::Keyword, 0, 3),
            create_token(TokenKind::Whitespace, 3, 1),
            create_token(TokenKind::Identifier, 4, 5),
            create_token(TokenKind::Whitespace, 9, 1),
            create_token(TokenKind::Operator(OperatorKind::Equal), 10, 1),
            create_token(TokenKind::Operator(OperatorKind::Add), 11, 1),
            create_token(TokenKind::Whitespace, 12, 1),
            create_token(TokenKind::Number, 13, 1),
            create_token(TokenKind::Semicolon, 14, 1),
        ]
    );
}

#[test]
fn it_tokenizes_invalid_operator_correctly_2() {
    let source = String::from("let value %=+ 1;");
    let handler = ErrorHandler::new();
    let lexer = Lexer::new(&source, handler);

    let (tokens, _handler) = lexer.lex();

    assert_eq!(tokens.len(), 9);
    assert_eq!(
        tokens,
        vec![
            create_token(TokenKind::Keyword, 0, 3),
            create_token(TokenKind::Whitespace, 3, 1),
            create_token(TokenKind::Identifier, 4, 5),
            create_token(TokenKind::Whitespace, 9, 1),
            create_token(TokenKind::Operator(OperatorKind::CompoundModulo), 10, 2),
            create_token(TokenKind::Operator(OperatorKind::Add), 12, 1),
            create_token(TokenKind::Whitespace, 13, 1),
            create_token(TokenKind::Number, 14, 1),
            create_token(TokenKind::Semicolon, 15, 1),
        ]
    );
}

#[test]
fn it_tokenizes_invalid_operator_correctly_3() {
    let source = String::from("let value ++++ 1;");
    let handler = ErrorHandler::new();
    let lexer = Lexer::new(&source, handler);

    let (tokens, _handler) = lexer.lex();

    assert_eq!(tokens.len(), 9);
    assert_eq!(
        tokens,
        vec![
            create_token(TokenKind::Keyword, 0, 3),
            create_token(TokenKind::Whitespace, 3, 1),
            create_token(TokenKind::Identifier, 4, 5),
            create_token(TokenKind::Whitespace, 9, 1),
            create_token(TokenKind::Operator(OperatorKind::Increment), 10, 2),
            create_token(TokenKind::Operator(OperatorKind::Increment), 12, 2),
            create_token(TokenKind::Whitespace, 14, 1),
            create_token(TokenKind::Number, 15, 1),
            create_token(TokenKind::Semicolon, 16, 1),
        ]
    );
}

#[test]
fn it_tokenizes_number_post_increment_correctly() {
    let source = String::from("let value = 1;\nvalue++;");
    let handler = ErrorHandler::new();
    let lexer = Lexer::new(&source, handler);

    let (tokens, _handler) = lexer.lex();

    assert_eq!(tokens.len(), 12);
    assert_eq!(
        tokens,
        vec![
            create_token(TokenKind::Keyword, 0, 3),
            create_token(TokenKind::Whitespace, 3, 1),
            create_token(TokenKind::Identifier, 4, 5),
            create_token(TokenKind::Whitespace, 9, 1),
            create_token(TokenKind::Operator(OperatorKind::Equal), 10, 1),
            create_token(TokenKind::Whitespace, 11, 1),
            create_token(TokenKind::Number, 12, 1),
            create_token(TokenKind::Semicolon, 13, 1),
            create_token(TokenKind::Whitespace, 14, 1),
            create_token(TokenKind::Identifier, 15, 5),
            create_token(TokenKind::Operator(OperatorKind::Increment), 20, 2),
            create_token(TokenKind::Semicolon, 22, 1),
        ]
    );
}

#[test]
fn it_tokenizes_cyrillic_strings_correctly() {
    let source = String::from("let greetings = 'привет мой друг';");
    let handler = ErrorHandler::new();
    let lexer = Lexer::new(&source, handler);

    let (tokens, _handler) = lexer.lex();

    assert_eq!(tokens.len(), 8);
    assert_eq!(
        tokens,
        vec![
            create_token(TokenKind::Keyword, 0, 3),
            create_token(TokenKind::Whitespace, 3, 1),
            create_token(TokenKind::Identifier, 4, 9),
            create_token(TokenKind::Whitespace, 13, 1),
            create_token(TokenKind::Operator(OperatorKind::Equal), 14, 1),
            create_token(TokenKind::Whitespace, 15, 1),
            // content span: 15 Cyrillic and space characters, 28 bytes,
            // excluding both delimiters
            create_token(TokenKind::String(StringKind::SingleQuoted), 17, 28),
            create_token(TokenKind::Semicolon, 46, 1),
        ]
    );
}

#[test]
fn it_tokenizes_source_with_string_concat_correctly() {
    let source = String::from("let word = \"Hello\" + \" \" + \"world!\"; ");
    let handler = ErrorHandler::new();
    let lexer = Lexer::new(&source, handler);

    let (tokens, _handler) = lexer.lex();

    assert_eq!(tokens.len(), 17);
    assert_eq!(
        tokens,
        vec![
            create_token(TokenKind::Keyword, 0, 3),
            create_token(TokenKind::Whitespace, 3, 1),
            create_token(TokenKind::Identifier, 4, 4),
            create_token(TokenKind::Whitespace, 8, 1),
            create_token(TokenKind::Operator(OperatorKind::Equal), 9, 1),
            create_token(TokenKind::Whitespace, 10, 1),
            create_token(TokenKind::String(StringKind::DoubleQuoted), 12, 5),
            create_token(TokenKind::Whitespace, 18, 1),
            create_token(TokenKind::Operator(OperatorKind::Add), 19, 1),
            create_token(TokenKind::Whitespace, 20, 1),
            create_token(TokenKind::String(StringKind::DoubleQuoted), 22, 1),
            create_token(TokenKind::Whitespace, 24, 1),
            create_token(TokenKind::Operator(OperatorKind::Add), 25, 1),
            create_token(TokenKind::Whitespace, 26, 1),
            create_token(TokenKind::String(StringKind::DoubleQuoted), 28, 6),
            create_token(TokenKind::Semicolon, 35, 1),
            create_token(TokenKind::Whitespace, 36, 1),
        ]
    );
}

#[test]
fn it_correctly_tokenizes_source_with_invalid_tokens() {
    let source = String::from("let @$` = &&| something something;");
    let handler = ErrorHandler::new();
    let lexer = Lexer::new(&source, handler);

    let (tokens, _handler) = lexer.lex();

    assert_eq!(tokens.len(), 16);

    assert_eq!(
        tokens,
        vec![
            create_token(TokenKind::Keyword, 0, 3),
            create_token(TokenKind::Whitespace, 3, 1),
            create_token(TokenKind::Invalid, 4, 1),
            create_token(TokenKind::Invalid, 5, 1),
            create_token(TokenKind::Invalid, 6, 1),
            create_token(TokenKind::Whitespace, 7, 1),
            create_token(TokenKind::Operator(OperatorKind::Equal), 8, 1),
            create_token(TokenKind::Whitespace, 9, 1),
            create_token(TokenKind::Invalid, 10, 1),
            create_token(TokenKind::Invalid, 11, 1),
            create_token(TokenKind::Invalid, 12, 1),
            create_token(TokenKind::Whitespace, 13, 1),
            create_token(TokenKind::Identifier, 14, 9),
            create_token(TokenKind::Whitespace, 23, 1),
            create_token(TokenKind::Identifier, 24, 9),
            create_token(TokenKind::Semicolon, 33, 1),
        ]
    )
}

#[test]
fn it_collects_expected_errors() {
    let source = String::from("let value =+ 1;\nlet @$` = &&| something something;");
    let handler = ErrorHandler::new();
    let lexer = Lexer::new(&source, handler);

    let (tokens, handler) = lexer.lex();
    assert_eq!(tokens.len(), 26);

    assert_eq!(
        tokens,
        vec![
            create_token(TokenKind::Keyword, 0, 3),
            create_token(TokenKind::Whitespace, 3, 1),
            create_token(TokenKind::Identifier, 4, 5),
            create_token(TokenKind::Whitespace, 9, 1),
            create_token(TokenKind::Operator(OperatorKind::Equal), 10, 1),
            create_token(TokenKind::Operator(OperatorKind::Add), 11, 1),
            create_token(TokenKind::Whitespace, 12, 1),
            create_token(TokenKind::Number, 13, 1),
            create_token(TokenKind::Semicolon, 14, 1),
            create_token(TokenKind::Whitespace, 15, 1),
            create_token(TokenKind::Keyword, 16, 3),
            create_token(TokenKind::Whitespace, 19, 1),
            create_token(TokenKind::Invalid, 20, 1),
            create_token(TokenKind::Invalid, 21, 1),
            create_token(TokenKind::Invalid, 22, 1),
            create_token(TokenKind::Whitespace, 23, 1),
            create_token(TokenKind::Operator(OperatorKind::Equal), 24, 1),
            create_token(TokenKind::Whitespace, 25, 1),
            create_token(TokenKind::Invalid, 26, 1),
            create_token(TokenKind::Invalid, 27, 1),
            create_token(TokenKind::Invalid, 28, 1),
            create_token(TokenKind::Whitespace, 29, 1),
            create_token(TokenKind::Identifier, 30, 9),
            create_token(TokenKind::Whitespace, 39, 1),
            create_token(TokenKind::Identifier, 40, 9),
            create_token(TokenKind::Semicolon, 49, 1),
        ]
    );

    assert_eq!(handler.errors.len(), 7);
    assert_eq!(
        LexerError {
            span: Span { start: 10, length: 2 },
            kind: LexerErrorKind::InvalidOperator,
        },
        handler.errors[0]
    );

    assert_eq!(
        LexerError {
            span: Span { start: 20, length: 1 },
            kind: LexerErrorKind::InvalidToken,
        },
        handler.errors[1]
    );

    assert_eq!(
        LexerError {
            span: Span { start: 21, length: 1 },
            kind: LexerErrorKind::InvalidToken,
        },
        handler.errors[2]
    );

    assert_eq!(
        LexerError {
            span: Span { start: 22, length: 1 },
            kind: LexerErrorKind::InvalidToken,
        },
        handler.errors[3]
    );

    assert_eq!(
        LexerError {
            span: Span { start: 26, length: 1 },
            kind: LexerErrorKind::InvalidToken,
        },
        handler.errors[4]
    );

    assert_eq!(
        LexerError {
            span: Span { start: 27, length: 1 },
            kind: LexerErrorKind::InvalidToken,
        },
        handler.errors[5]
    );

    assert_eq!(
        LexerError {
            span: Span { start: 28, length: 1 },
            kind: LexerErrorKind::InvalidToken,
        },
        handler.errors[6]
    );
}

#[test]
fn it_correctly_tokenizes_source_when_lexer_state_machine_ends_in_a_non_start_state() {
    // The identifier at the end of the source leaves the state machine in a
    // non-start state; the end-of-input flush must still emit it.
    let source = String::from("let value = another_value");
    let handler = ErrorHandler::new();
    let lexer = Lexer::new(&source, handler);

    let (tokens, _handler) = lexer.lex();

    assert_eq!(tokens.len(), 7);

    assert_eq!(
        tokens,
        vec![
            create_token(TokenKind::Keyword, 0, 3),
            create_token(TokenKind::Whitespace, 3, 1),
            create_token(TokenKind::Identifier, 4, 5),
            create_token(TokenKind::Whitespace, 9, 1),
            create_token(TokenKind::Operator(OperatorKind::Equal), 10, 1),
            create_token(TokenKind::Whitespace, 11, 1),
            create_token(TokenKind::Identifier, 12, 13),
        ]
    )
}
