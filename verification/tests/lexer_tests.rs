use rlkc::lexer::{lex, LexError, Token};

fn ident(name: &str) -> Token {
    Token::Ident(name.to_string())
}

fn text(s: &str) -> Token {
    Token::StringLiteral(s.to_string())
}

#[test]
fn lex_empty_source_is_only_end_of_stream() {
    assert_eq!(lex(""), Ok(vec![Token::EOF]));
    assert_eq!(lex(" \t\r\n"), Ok(vec![Token::EOF]));
}

#[test]
fn lex_function_header() {
    assert_eq!(
        lex("func main(): int { return 42; }"),
        Ok(vec![
            Token::Func,
            ident("main"),
            Token::LParen,
            Token::RParen,
            Token::Colon,
            Token::IntType,
            Token::LBrace,
            Token::Return,
            Token::Number(42),
            Token::Semicolon,
            Token::RBrace,
            Token::EOF,
        ])
    );
}

#[test]
fn lex_keywords_and_type_names() {
    assert_eq!(
        lex("func let return if else int string"),
        Ok(vec![
            Token::Func,
            Token::Let,
            Token::Return,
            Token::If,
            Token::Else,
            Token::IntType,
            Token::StringType,
            Token::EOF,
        ])
    );
}

#[test]
fn lex_keywords_are_case_sensitive() {
    assert_eq!(
        lex("Func Int String IF lets"),
        Ok(vec![ident("Func"), ident("Int"), ident("String"), ident("IF"), ident("lets"), Token::EOF])
    );
}

#[test]
fn lex_punctuation_and_operators() {
    assert_eq!(
        lex("(){},:;+-*/><"),
        Ok(vec![
            Token::LParen,
            Token::RParen,
            Token::LBrace,
            Token::RBrace,
            Token::Comma,
            Token::Colon,
            Token::Semicolon,
            Token::Plus,
            Token::Minus,
            Token::Star,
            Token::Slash,
            Token::Greater,
            Token::Less,
            Token::EOF,
        ])
    );
}

#[test]
fn lex_equals_looks_one_character_ahead() {
    assert_eq!(lex("="), Ok(vec![Token::Assign, Token::EOF]));
    assert_eq!(lex("=="), Ok(vec![Token::EqualEqual, Token::EOF]));
    assert_eq!(lex("==="), Ok(vec![Token::EqualEqual, Token::Assign, Token::EOF]));
    assert_eq!(lex("= ="), Ok(vec![Token::Assign, Token::Assign, Token::EOF]));
    assert_eq!(lex("a!=b"), Ok(vec![ident("a"), Token::NotEqual, ident("b"), Token::EOF]));
}

#[test]
fn lex_bare_exclamation_mark_is_passed_over() {
    assert_eq!(lex("!"), Ok(vec![Token::EOF]));
    assert_eq!(lex("a ! b"), Ok(vec![ident("a"), ident("b"), Token::EOF]));
    assert_eq!(lex("!!="), Ok(vec![Token::NotEqual, Token::EOF]));
}

#[test]
fn lex_unrecognized_characters_are_passed_over() {
    assert_eq!(lex("a # b"), Ok(vec![ident("a"), ident("b"), Token::EOF]));
    assert_eq!(lex("1 @ 2 $ \u{e9}"), Ok(vec![Token::Number(1), Token::Number(2), Token::EOF]));
    assert_eq!(lex("[x]"), Ok(vec![ident("x"), Token::EOF]));
}

#[test]
fn lex_string_literal_is_taken_verbatim() {
    assert_eq!(lex("\"hi\""), Ok(vec![text("hi"), Token::EOF]));
    assert_eq!(lex("\"\""), Ok(vec![text(""), Token::EOF]));
    assert_eq!(lex("\"a\\nb\""), Ok(vec![text("a\\nb"), Token::EOF]));
    assert_eq!(lex("\"a b\n1+2 \u{e9}\"x"), Ok(vec![text("a b\n1+2 \u{e9}"), ident("x"), Token::EOF]));
}

#[test]
fn lex_unterminated_string_reads_to_the_end() {
    assert_eq!(lex("\"abc"), Ok(vec![text("abc"), Token::EOF]));
    assert_eq!(lex("x \""), Ok(vec![ident("x"), text(""), Token::EOF]));
}

#[test]
fn lex_numbers_are_maximal_digit_runs() {
    assert_eq!(lex("0"), Ok(vec![Token::Number(0), Token::EOF]));
    assert_eq!(lex("007"), Ok(vec![Token::Number(7), Token::EOF]));
    assert_eq!(lex("12ab"), Ok(vec![Token::Number(12), ident("ab"), Token::EOF]));
    assert_eq!(lex("1 23"), Ok(vec![Token::Number(1), Token::Number(23), Token::EOF]));
    assert_eq!(lex("-5"), Ok(vec![Token::Minus, Token::Number(5), Token::EOF]));
}

#[test]
fn lex_number_overflow_is_an_error() {
    assert_eq!(lex("9223372036854775807"), Ok(vec![Token::Number(i64::MAX), Token::EOF]));
    assert_eq!(lex("  9223372036854775808"), Err(LexError::NumberTooLarge { at: 2 }));
    assert_eq!(lex("x 99999999999999999999999999 y"), Err(LexError::NumberTooLarge { at: 2 }));
    assert_eq!(lex("0000000000000000000000000001"), Ok(vec![Token::Number(1), Token::EOF]));
}

#[test]
fn lex_identifiers() {
    assert_eq!(
        lex("_a a_1 __ x9y"),
        Ok(vec![ident("_a"), ident("a_1"), ident("__"), ident("x9y"), Token::EOF])
    );
}

#[test]
fn lex_let_statement() {
    assert_eq!(
        lex("let x: int = 1 + 2 * 3;"),
        Ok(vec![
            Token::Let,
            ident("x"),
            Token::Colon,
            Token::IntType,
            Token::Assign,
            Token::Number(1),
            Token::Plus,
            Token::Number(2),
            Token::Star,
            Token::Number(3),
            Token::Semicolon,
            Token::EOF,
        ])
    );
}

#[test]
fn lex_always_ends_with_one_end_of_stream_marker() {
    for source in ["", "a", "func f() {", "\"open", "1 2 3", "#"] {
        let tokens = lex(source).unwrap();
        assert_eq!(tokens.last(), Some(&Token::EOF));
        assert_eq!(tokens.iter().filter(|t| **t == Token::EOF).count(), 1);
    }
}

#[test]
fn token_same_compares_kind_and_payload() {
    assert!(Token::Func.same(&Token::Func));
    assert!(!Token::Func.same(&Token::Let));
    assert!(ident("a").same(&ident("a")));
    assert!(!ident("a").same(&ident("b")));
    assert!(!ident("a").same(&text("a")));
    assert!(Token::Number(3).same(&Token::Number(3)));
    assert!(!Token::Number(3).same(&Token::Number(4)));
    assert!(Token::EOF.same(&Token::EOF));
}
