use bogus::lexer::{LexBuffer, Lexer};
use bogus::tokens::{Token, TokenKind};
use bogus::tokens::TokenKind::{
    Arrow, Assign, Comma, Const, Division, Dot, Equals, Float, Fun, Identifier, Integer,
    LeftParens, Let, Minus, Multiplication, Null, Plus, RightParens, Semicolon, Str,
};

#[test]
fn test_lex_buffer() {
    let mut buffer = LexBuffer::new();
    assert!(buffer.push_char('l', Some('e')).unwrap_or_else(|_| panic!("Unexpected Err")).is_none());
    assert!(buffer.push_char('e', Some('t')).unwrap_or_else(|_| panic!("Unexpected Err")).is_none());
    assert!(buffer.push_char('t', None).unwrap_or_else(|_| panic!("Unexpected Err")).is_some());

    let mut buffer = LexBuffer::new();
    assert!(buffer.push_char('l', Some('e')).unwrap_or_else(|_| panic!("Unexpected Err")).is_none());
    assert!(buffer.push_char('e', Some('t')).unwrap_or_else(|_| panic!("Unexpected Err")).is_none());
    assert!(buffer.push_char('t', Some('t')).unwrap_or_else(|_| panic!("Unexpected Err")).is_none());
    assert!(buffer.push_char('t', Some('u')).unwrap_or_else(|_| panic!("Unexpected Err")).is_none());
    assert!(buffer.push_char('u', None).unwrap_or_else(|_| panic!("Unexpected Err")).is_some());

    let mut buffer = LexBuffer::new();
    assert!(buffer.push_char('-', None).unwrap_or_else(|_| panic!("Unexpected Err")).is_some());

    let mut buffer = LexBuffer::new();
    assert!(buffer.push_char('-', Some('>')).unwrap_or_else(|_| panic!("Unexpected Err")).is_none());
    assert!(buffer.push_char('>', None).unwrap_or_else(|_| panic!("Unexpected Err")).is_some());
}

#[test]
fn test_lexer_usage() {
    match Lexer::new("let a = 1;") {
        Ok(mut lexer) => {
            assert!(lexer.has_next());
            assert_eq!(lexer.peek().unwrap().token_kind, Let);
            assert_eq!(lexer.next().unwrap().token_kind, Let);
            assert_eq!(lexer.peek().unwrap().token_kind, Identifier("a".to_string()));

            assert_eq!(lexer.next().unwrap().token_kind, Identifier("a".to_string()));
            assert_eq!(lexer.peek().unwrap().token_kind, Assign);

            assert_eq!(lexer.next().unwrap().token_kind, Assign);
            assert_eq!(lexer.peek().unwrap().token_kind, Integer(1));

            assert_eq!(lexer.next().unwrap().token_kind, Integer(1));
            assert_eq!(lexer.peek().unwrap().token_kind, Semicolon);

            assert_eq!(lexer.next().unwrap().token_kind, Semicolon);

            assert!(lexer.peek().is_none());
            assert!(lexer.next().is_none());
        }
        Err(error) => panic!("create_lexer did not work: {}", error.msg),
    }
}

#[test]
fn test_lexer_single_tokens() {
    token_lexes_to("let", Let);
    token_lexes_to("const", Const);
    token_lexes_to("fun", Fun);
    token_lexes_to("=", Assign);
    token_lexes_to("==", Equals);
    token_lexes_to("foo", Identifier("foo".to_string()));
    for nmbr in 0..100 {
        token_lexes_to(&nmbr.to_string(), Integer(nmbr));
    }
    token_lexes_to("1.12", Float("1.12".to_string()));
    token_lexes_to("124.99", Float("124.99".to_string()));
    token_lexes_to("\"\"", Str("".to_string()));
    token_lexes_to("\"foo\"", Str("foo".to_string()));
    token_lexes_to(";", Semicolon);
    token_lexes_to("(", LeftParens);
    token_lexes_to(")", RightParens);
    token_lexes_to("->", Arrow);
    token_lexes_to("-", Minus);
    token_lexes_to("+", Plus);
    token_lexes_to("/", Division);
    token_lexes_to("*", Multiplication);
    token_lexes_to(",", Comma);
    token_lexes_to(".", Dot);
    token_lexes_to("null", Null);
}

#[test]
fn test_string_escape() {
    with_input_lexes_to("\"\\\"\"", vec![dummy_token(Str("\"".to_string()))]);
    with_input_lexes_to(
        "\"hello \\\"world\\\"\"",
        vec![dummy_token(Str("hello \"world\"".to_string()))],
    );
    with_input_lexes_to("\"\\\\\"", vec![dummy_token(Str("\\".to_string()))]);
}

#[test]
fn test_lexer_reasonable_statemens() {
    with_input_lexes_to("let a = 1;", vec![
        dummy_token(Let),
        dummy_token(Identifier("a".to_string())),
        dummy_token(Assign),
        dummy_token(Integer(1)),
        dummy_token(Semicolon),
    ]);
    with_input_lexes_to("let a=1;", vec![
        dummy_token(Let),
        dummy_token(Identifier("a".to_string())),
        dummy_token(Assign),
        dummy_token(Integer(1)),
        dummy_token(Semicolon),
    ]);
    with_input_lexes_to("const a = 1;", vec![
        dummy_token(Const),
        dummy_token(Identifier("a".to_string())),
        dummy_token(Assign),
        dummy_token(Integer(1)),
        dummy_token(Semicolon),
    ]);
    with_input_lexes_to("const a=1;", vec![
        dummy_token(Const),
        dummy_token(Identifier("a".to_string())),
        dummy_token(Assign),
        dummy_token(Integer(1)),
        dummy_token(Semicolon),
    ]);
    with_input_lexes_to("call(1);", vec![
        dummy_token(Identifier("call".to_string())),
        dummy_token(LeftParens),
        dummy_token(Integer(1)),
        dummy_token(RightParens),
        dummy_token(Semicolon),
    ]);
    with_input_lexes_to("call(a);", vec![
        dummy_token(Identifier("call".to_string())),
        dummy_token(LeftParens),
        dummy_token(Identifier("a".to_string())),
        dummy_token(RightParens),
        dummy_token(Semicolon),
    ]);
    with_input_lexes_to("call(a, b, c);", vec![
        dummy_token(Identifier("call".to_string())),
        dummy_token(LeftParens),
        dummy_token(Identifier("a".to_string())),
        dummy_token(Comma),
        dummy_token(Identifier("b".to_string())),
        dummy_token(Comma),
        dummy_token(Identifier("c".to_string())),
        dummy_token(RightParens),
        dummy_token(Semicolon),
    ]);
    with_input_lexes_to("call(a,b,c);", vec![
        dummy_token(Identifier("call".to_string())),
        dummy_token(LeftParens),
        dummy_token(Identifier("a".to_string())),
        dummy_token(Comma),
        dummy_token(Identifier("b".to_string())),
        dummy_token(Comma),
        dummy_token(Identifier("c".to_string())),
        dummy_token(RightParens),
        dummy_token(Semicolon),
    ]);
    with_input_lexes_to("foo.do();", vec![
        dummy_token(Identifier("foo".to_string())),
        dummy_token(Dot),
        dummy_token(Identifier("do".to_string())),
        dummy_token(LeftParens),
        dummy_token(RightParens),
        dummy_token(Semicolon),
    ]);
    with_input_lexes_to("1 / 2", vec![
        dummy_token(Integer(1)),
        dummy_token(Division),
        dummy_token(Integer(2)),
    ]);
    with_input_lexes_to("1 * 2", vec![
        dummy_token(Integer(1)),
        dummy_token(Multiplication),
        dummy_token(Integer(2)),
    ]);
    with_input_lexes_to("1*2", vec![
        dummy_token(Integer(1)),
        dummy_token(Multiplication),
        dummy_token(Integer(2)),
    ]);
    with_input_lexes_to("1 == 2", vec![
        dummy_token(Integer(1)),
        dummy_token(Equals),
        dummy_token(Integer(2)),
    ]);
    with_input_lexes_to("1==2", vec![
        dummy_token(Integer(1)),
        dummy_token(Equals),
        dummy_token(Integer(2)),
    ]);
    with_input_lexes_to("null + null", vec![
        dummy_token(Null),
        dummy_token(Plus),
        dummy_token(Null),
    ]);
}

#[test]
fn test_lexing_with_line_and_column_references() {
    with_input_lexes_to_assert_columns(
        "let foo = 1;\nlet bar = \"bar value with whitespace\";",
        vec![
            token_at(Let, 1, 0),
            token_at(Identifier("foo".to_string()), 1, 4),
            token_at(Assign, 1, 8),
            token_at(Integer(1), 1, 10),
            token_at(Semicolon, 1, 11),
            token_at(Let, 2, 0),
            token_at(Identifier("bar".to_string()), 2, 4),
            token_at(Assign, 2, 8),
            token_at(Str("bar value with whitespace".to_string()), 2, 10),
            token_at(Semicolon, 2, 37),
        ],
    )
}

#[test]
fn test_error_cases() {
    with_input_errors_to("1234var", "identifier can't start with digit");
    with_input_errors_to("\"hello", "string is not terminated");
    with_input_errors_to("\"hello // comment", "string is not terminated");
}

#[test]
fn test_interesting_corner_cases() {
    with_input_lexes_to("", vec![]);
    with_input_lexes_to(" ", vec![]);
    with_input_lexes_to("\t", vec![]);
    with_input_lexes_to("\n", vec![]);
    with_input_lexes_to("1 + 2", vec![
        dummy_token(Integer(1)),
        dummy_token(Plus),
        dummy_token(Integer(2)),
    ]);
    with_input_lexes_to("1+2", vec![
        dummy_token(Integer(1)),
        dummy_token(Plus),
        dummy_token(Integer(2)),
    ]);
    with_input_lexes_to("\"let a = 1\"", vec![dummy_token(Str("let a = 1".to_string()))]);
    with_input_lexes_to("let\n a\n = \n1;", vec![
        dummy_token(Let),
        dummy_token(Identifier("a".to_string())),
        dummy_token(Assign),
        dummy_token(Integer(1)),
        dummy_token(Semicolon),
    ]);
    with_input_lexes_to("let foo;let bar;", vec![
        dummy_token(Let),
        dummy_token(Identifier("foo".to_string())),
        dummy_token(Semicolon),
        dummy_token(Let),
        dummy_token(Identifier("bar".to_string())),
        dummy_token(Semicolon),
    ]);
    with_input_lexes_to("call(1);ball(2);", vec![
        dummy_token(Identifier("call".to_string())),
        dummy_token(LeftParens),
        dummy_token(Integer(1)),
        dummy_token(RightParens),
        dummy_token(Semicolon),
        dummy_token(Identifier("ball".to_string())),
        dummy_token(LeftParens),
        dummy_token(Integer(2)),
        dummy_token(RightParens),
        dummy_token(Semicolon),
    ]);
}

#[test]
fn test_comments() {
    with_input_lexes_to("// Hello world", vec![]);
    with_input_lexes_to("let a = 5; // Hello world", vec![
        dummy_token(Let),
        dummy_token(Identifier("a".to_string())),
        dummy_token(Assign),
        dummy_token(Integer(5)),
        dummy_token(Semicolon),
    ]);
    with_input_lexes_to("let a = 5;// Hello world", vec![
        dummy_token(Let),
        dummy_token(Identifier("a".to_string())),
        dummy_token(Assign),
        dummy_token(Integer(5)),
        dummy_token(Semicolon),
    ]);
}

#[test]
fn token_usage() {
    assert!(Token::new(TokenKind::Let, 0, 0).is_identifier().is_err());
    assert!(Token::new(TokenKind::Identifier("foo".to_string()), 0, 0).is_identifier().is_ok());
}

fn token_lexes_to(input: &str, expected_kind: TokenKind) {
    with_input_lexes_to(input, vec![dummy_token(expected_kind)]);
}

fn with_input_lexes_to(input: &str, expected_tokens: Vec<Token>) {
    do_lexing_assertion(input, expected_tokens, false)
}

fn with_input_errors_to(input: &str, expected_msg: &str) {
    match Lexer::new(input) {
        Ok(_) => panic!("Expecting lexer to error, but working lexer was returned. Input: {}", input),
        Err(error) => assert_eq!(expected_msg, error.msg),
    }
}

fn with_input_lexes_to_assert_columns(input: &str, expected_tokens: Vec<Token>) {
    do_lexing_assertion(input, expected_tokens, true)
}

fn do_lexing_assertion(input: &str, expected_tokens: Vec<Token>, assert_refs: bool) {
    match Lexer::new(input) {
        Ok(mut lexer) => {
            for expected_token in expected_tokens {
                assert!(lexer.has_next());
                let token = lexer.next().expect("a token");
                assert_eq!(token.token_kind, expected_token.token_kind);
                if assert_refs {
                    assert_eq!(expected_token.source_ref.line, token.source_ref.line,
                        "Wrong line ref for token {:?} in source `{}`", expected_token.token_kind, input);
                    assert_eq!(expected_token.source_ref.column, token.source_ref.column,
                        "Wrong column ref for token {:?} in source `{}`", expected_token.token_kind, input);
                }
            }
            assert!(!lexer.has_next(), "lexer had more tokens after expected!")
        }
        Err(error) => panic!("Unexpected lexing error: {}", error.msg),
    }
}

fn token_at(kind: TokenKind, line: u32, column: u32) -> Token {
    Token::new(kind, line, column)
}

fn dummy_token(kind: TokenKind) -> Token {
    Token::new(kind, 0, 0)
}
