use endium::engine::lexer::Lexer;
use endium::engine::tokens::Token;
use endium::errors::{EndiumError, LexErrorKind};

fn lex(src: &str) -> Vec<Token> {
    Lexer::new(&String::from(src)).tokenize().expect("lexing should succeed")
}

fn lex_err(src: &str) -> EndiumError {
    Lexer::new(&String::from(src)).tokenize().expect_err("lexing should fail")
}

#[test]
fn optional_chaining_tokens() {
    assert_eq!(
        lex("a?.b"),
        vec![
            Token::Identifier("a".to_string()),
            Token::OptionalChaining,
            Token::Identifier("b".to_string()),
        ]
    );
}

#[test]
fn nullish_coalescing_tokens() {
    assert_eq!(
        lex("a ?? b"),
        vec![
            Token::Identifier("a".to_string()),
            Token::NullishCoalescing,
            Token::Identifier("b".to_string()),
        ]
    );
}

#[test]
fn template_string_segments() {
    assert_eq!(
        lex("`sum=${1+2}`"),
        vec![Token::TemplateString(vec![
            Token::String("sum=".to_string()),
            Token::TemplateExpr(vec![
                Token::Number("1".to_string()),
                Token::Plus,
                Token::Number("2".to_string()),
            ]),
        ])]
    );
}

#[test]
fn template_string_leading_expression_gets_empty_segment() {
    assert_eq!(
        lex("`${x}`"),
        vec![Token::TemplateString(vec![
            Token::String(String::new()),
            Token::TemplateExpr(vec![Token::Identifier("x".to_string())]),
        ])]
    );
}

#[test]
fn longest_match_equality_operators() {
    assert_eq!(
        lex("a === b == c = d != e !== f"),
        vec![
            Token::Identifier("a".to_string()),
            Token::StrictEqual,
            Token::Identifier("b".to_string()),
            Token::Equal,
            Token::Identifier("c".to_string()),
            Token::Assign,
            Token::Identifier("d".to_string()),
            Token::NotEqual,
            Token::Identifier("e".to_string()),
            Token::StrictNotEqual,
            Token::Identifier("f".to_string()),
        ]
    );
}

#[test]
fn longest_match_arithmetic_operators() {
    assert_eq!(
        lex("**= ** *= * ++ += + -- -= -"),
        vec![
            Token::ExponentAssign,
            Token::Exponent,
            Token::MultiplyAssign,
            Token::Multiply,
            Token::Increment,
            Token::PlusAssign,
            Token::Plus,
            Token::Decrement,
            Token::MinusAssign,
            Token::Minus,
        ]
    );
}

#[test]
fn shift_and_comparison_operators() {
    assert_eq!(
        lex(">>> >> >= > << <= <"),
        vec![
            Token::UnsignedRightShift,
            Token::RightShift,
            Token::GreaterThanOrEqual,
            Token::GreaterThan,
            Token::LeftShift,
            Token::LessThanOrEqual,
            Token::LessThan,
        ]
    );
}

#[test]
fn spread_and_dot() {
    assert_eq!(
        lex("...a.b"),
        vec![
            Token::Spread,
            Token::Identifier("a".to_string()),
            Token::Dot,
            Token::Identifier("b".to_string()),
        ]
    );
}

#[test]
fn logical_and_bitwise_operators() {
    assert_eq!(
        lex("&& & || | ^ ~ !"),
        vec![
            Token::LogicalAnd,
            Token::BitwiseAnd,
            Token::LogicalOr,
            Token::BitwiseOr,
            Token::BitwiseXor,
            Token::BitwiseNot,
            Token::LogicalNot,
        ]
    );
}

#[test]
fn keywords_and_identifiers() {
    assert_eq!(
        lex("const let var instanceof typeof frobnicate _x $y"),
        vec![
            Token::Const,
            Token::Let,
            Token::Var,
            Token::InstanceOf,
            Token::Typeof,
            Token::Identifier("frobnicate".to_string()),
            Token::Identifier("_x".to_string()),
            Token::Identifier("$y".to_string()),
        ]
    );
}

#[test]
fn literal_words() {
    assert_eq!(
        lex("true false null undefined"),
        vec![Token::True, Token::False, Token::Null, Token::Undefined]
    );
}

#[test]
fn string_literal_with_escapes() {
    assert_eq!(
        lex("'a\\nb\\t\\\\\\'' \"q\\\"\\0\""),
        vec![
            Token::String("a\nb\t\\'".to_string()),
            Token::String("q\"\0".to_string()),
        ]
    );
}

#[test]
fn numeric_literals() {
    assert_eq!(
        lex("5 3.25 1e5 2.5e-3 12n 1.2.3"),
        vec![
            Token::Number("5".to_string()),
            Token::Number("3.25".to_string()),
            Token::Number("1e5".to_string()),
            Token::Number("2.5e-3".to_string()),
            Token::BigNumber("12".to_string()),
            Token::Number("1.2".to_string()),
            Token::Dot,
            Token::Number("3".to_string()),
        ]
    );
}

#[test]
fn newlines_are_significant() {
    assert_eq!(
        lex("a\nb\r\nc"),
        vec![
            Token::Identifier("a".to_string()),
            Token::Newline,
            Token::Identifier("b".to_string()),
            Token::Newline,
            Token::Identifier("c".to_string()),
        ]
    );
}

#[test]
fn comments_are_kept_as_tokens() {
    assert_eq!(
        lex("x // rest\ny /* mid */ z"),
        vec![
            Token::Identifier("x".to_string()),
            Token::Comment(" rest".to_string()),
            Token::Newline,
            Token::Identifier("y".to_string()),
            Token::BlockComment(" mid ".to_string()),
            Token::Identifier("z".to_string()),
        ]
    );
}

#[test]
fn punctuation_tokens() {
    assert_eq!(
        lex("( ) { } [ ] , : ; ? => % %="),
        vec![
            Token::LeftParen,
            Token::RightParen,
            Token::LeftBrace,
            Token::RightBrace,
            Token::LeftBracket,
            Token::RightBracket,
            Token::Comma,
            Token::Colon,
            Token::Semicolon,
            Token::Ternary,
            Token::ArrowFunction,
            Token::Modulo,
            Token::ModuloAssign,
        ]
    );
}

#[test]
fn empty_input_gives_no_tokens() {
    assert_eq!(lex(""), vec![]);
}

#[test]
fn unterminated_string_is_an_error_at_the_quote() {
    match lex_err("ab \"xyz") {
        EndiumError::LexError { kind, line, column, offset } => {
            assert_eq!(kind, LexErrorKind::UnterminatedString);
            assert_eq!(line, 1);
            assert_eq!(column, 4);
            assert_eq!(offset, 3);
        }
        other => panic!("unexpected error {:?}", other),
    }
}

#[test]
fn unknown_character_is_an_error() {
    match lex_err("x\n@") {
        EndiumError::LexError { kind, line, column, offset } => {
            assert_eq!(kind, LexErrorKind::UnknownCharacter('@'));
            assert_eq!(line, 2);
            assert_eq!(column, 1);
            assert_eq!(offset, 2);
        }
        other => panic!("unexpected error {:?}", other),
    }
}

#[test]
fn unterminated_block_comment_is_an_error() {
    match lex_err("/* abc") {
        EndiumError::LexError { kind, .. } => {
            assert_eq!(kind, LexErrorKind::UnterminatedComment);
        }
        other => panic!("unexpected error {:?}", other),
    }
}

#[test]
fn unterminated_template_is_an_error() {
    match lex_err("`abc") {
        EndiumError::LexError { kind, .. } => {
            assert_eq!(kind, LexErrorKind::UnterminatedTemplate);
        }
        other => panic!("unexpected error {:?}", other),
    }
}

#[test]
fn match_token_looks_up_keywords() {
    let lexer = Lexer::new(&String::from(""));
    assert_eq!(lexer.match_token(&String::from("const")), Token::Const);
    assert_eq!(lexer.match_token(&String::from("await")), Token::Await);
    assert_eq!(
        lexer.match_token(&String::from("frob")),
        Token::Identifier("frob".to_string())
    );
    assert_eq!(lexer.match_token(&String::new()), Token::NoToken);
}

#[test]
fn match_token_scans_digit_led_lexemes() {
    let lexer = Lexer::new(&String::from(""));
    assert_eq!(
        lexer.match_token(&String::from("5")),
        Token::Number("5".to_string())
    );
    assert_eq!(
        lexer.match_token(&String::from("3.5")),
        Token::Number("3.5".to_string())
    );
    assert_eq!(
        lexer.match_token(&String::from("12n")),
        Token::BigNumber("12".to_string())
    );
    // the scan stops at the first character the number rules refuse
    assert_eq!(
        lexer.match_token(&String::from("3x")),
        Token::Number("3".to_string())
    );
}

#[test]
fn match_token_char_consumes_operators() {
    let mut lexer = Lexer::new(&String::from("++x"));
    assert_eq!(lexer.match_token_char('+'), Some(Token::Increment));
    assert_eq!(lexer.position, 2);
    let mut lexer2 = Lexer::new(&String::from("x"));
    assert_eq!(lexer2.match_token_char('x'), None);
    assert_eq!(lexer2.position, 0);
}

#[test]
fn utf8_offsets_count_bytes() {
    // 'é' is two bytes in UTF-8, so the byte offset of the stray '@' after
    // the three-character string literal is four, not three.
    match lex_err("'é'@") {
        EndiumError::LexError { kind, line, column, offset } => {
            assert_eq!(kind, LexErrorKind::UnknownCharacter('@'));
            assert_eq!(line, 1);
            assert_eq!(column, 4);
            assert_eq!(offset, 4);
        }
        other => panic!("unexpected error {:?}", other),
    }
}
