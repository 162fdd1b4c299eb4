use tradeflow::lexer::{Lexer, LexError};
use tradeflow::token::TokenType;
use tradeflow::tokenize_dsl;

#[test]
fn tokenizes_a_small_workflow() {
    let tokens = tokenize_dsl("workflow \"W\" { step 1: print(x) }").expect("should lex");
    let types: Vec<TokenType> = tokens.iter().map(|t| t.token_type).collect();
    assert_eq!(
        types,
        vec![
            TokenType::Workflow,
            TokenType::String,
            TokenType::LeftBrace,
            TokenType::Step,
            TokenType::Number,
            TokenType::Colon,
            TokenType::Print,
            TokenType::LeftParen,
            TokenType::Identifier,
            TokenType::RightParen,
            TokenType::RightBrace,
            TokenType::Eof,
        ]
    );
}

#[test]
fn string_literal_keeps_body_and_strips_quotes() {
    let tokens = tokenize_dsl("\"hello world\"").expect("should lex");
    assert_eq!(tokens[0].token_type, TokenType::String);
    assert_eq!(tokens[0].lexeme, "\"hello world\"");
    assert_eq!(tokens[0].literal.as_deref(), Some("hello world"));
}

#[test]
fn single_quoted_string_is_accepted() {
    let tokens = tokenize_dsl("'abc'").expect("should lex");
    assert_eq!(tokens[0].token_type, TokenType::String);
    assert_eq!(tokens[0].literal.as_deref(), Some("abc"));
}

#[test]
fn mismatched_quote_does_not_close_a_string() {
    let result = tokenize_dsl("\"abc'");
    assert!(matches!(result, Err(LexError::UnterminatedString)));
}

#[test]
fn number_with_fraction_is_one_token() {
    let tokens = tokenize_dsl("1.5").expect("should lex");
    assert_eq!(tokens[0].token_type, TokenType::Number);
    assert_eq!(tokens[0].lexeme, "1.5");
    assert_eq!(tokens.len(), 2);
}

#[test]
fn number_before_property_stops_at_the_dot() {
    let tokens = tokenize_dsl("step 1.status").expect("should lex");
    let types: Vec<TokenType> = tokens.iter().map(|t| t.token_type).collect();
    assert_eq!(
        types,
        vec![TokenType::Step, TokenType::Number, TokenType::Dot, TokenType::Identifier,
            TokenType::Eof]
    );
    assert_eq!(tokens[1].lexeme, "1");
}

#[test]
fn newlines_advance_the_line_counter() {
    let tokens = tokenize_dsl("a\nb\n\nc").expect("should lex");
    assert_eq!(tokens[0].line, 1);
    assert_eq!(tokens[1].line, 2);
    assert_eq!(tokens[2].line, 4);
}

#[test]
fn newline_inside_string_advances_the_line_counter() {
    let tokens = tokenize_dsl("\"a\nb\" c").expect("should lex");
    assert_eq!(tokens[0].token_type, TokenType::String);
    assert_eq!(tokens[0].line, 2);
    assert_eq!(tokens[1].line, 2);
}

#[test]
fn unexpected_character_is_reported() {
    match tokenize_dsl("@") {
        Err(LexError::UnexpectedChar(c)) => {
            assert_eq!(c, '@');
            assert_eq!(LexError::UnexpectedChar(c).message(), "Unexpected character: @");
        },
        other => panic!("expected an unexpected-character error, got {:?}", other),
    }
}

#[test]
fn bang_alone_is_an_error_but_bang_equal_is_not() {
    assert!(matches!(tokenize_dsl("!"), Err(LexError::UnexpectedChar('!'))));
    let tokens = tokenize_dsl("!=").expect("should lex");
    assert_eq!(tokens[0].token_type, TokenType::NotEqual);
}

#[test]
fn all_operators_and_punctuation_lex() {
    let tokens = tokenize_dsl("+ = == != > < >= <= . ( ) { } : ; ,").expect("should lex");
    let types: Vec<TokenType> = tokens.iter().map(|t| t.token_type).collect();
    assert_eq!(
        types,
        vec![
            TokenType::Plus,
            TokenType::Equal,
            TokenType::EqualEqual,
            TokenType::NotEqual,
            TokenType::Greater,
            TokenType::Less,
            TokenType::GreaterEqual,
            TokenType::LessEqual,
            TokenType::Dot,
            TokenType::LeftParen,
            TokenType::RightParen,
            TokenType::LeftBrace,
            TokenType::RightBrace,
            TokenType::Colon,
            TokenType::Semicolon,
            TokenType::Comma,
            TokenType::Eof,
        ]
    );
}

#[test]
fn keywords_are_case_sensitive() {
    let tokens = tokenize_dsl("Workflow workflow PRINT print").expect("should lex");
    assert_eq!(tokens[0].token_type, TokenType::Identifier);
    assert_eq!(tokens[1].token_type, TokenType::Workflow);
    assert_eq!(tokens[2].token_type, TokenType::Identifier);
    assert_eq!(tokens[3].token_type, TokenType::Print);
}

#[test]
fn every_stream_ends_with_an_eof_token() {
    let tokens = tokenize_dsl("").expect("should lex");
    assert_eq!(tokens.len(), 1);
    assert_eq!(tokens[0].token_type, TokenType::Eof);
    assert_eq!(tokens[0].lexeme, "");
    let tokens = tokenize_dsl("   \t  ").expect("should lex");
    assert_eq!(tokens.len(), 1);
    assert_eq!(tokens[0].token_type, TokenType::Eof);
}

#[test]
fn lexer_is_reusable_through_new_instances() {
    let mut first = Lexer::new("let x = \"1\"");
    let mut second = Lexer::new("let x = \"1\"");
    let a = first.tokenize().expect("should lex");
    let b = second.tokenize().expect("should lex");
    assert_eq!(format!("{:?}", a), format!("{:?}", b));
}

#[test]
fn identifiers_allow_underscores_and_digits() {
    let tokens = tokenize_dsl("my_var_2 _lead").expect("should lex");
    assert_eq!(tokens[0].token_type, TokenType::Identifier);
    assert_eq!(tokens[0].lexeme, "my_var_2");
    assert_eq!(tokens[1].lexeme, "_lead");
}

#[test]
fn unicode_whitespace_is_skipped() {
    // no-break space, ogham space mark, em space, ideographic space
    let tokens = tokenize_dsl("a\u{00A0}b\u{1680}c\u{2003}d\u{3000}e").expect("should lex");
    let lexemes: Vec<&str> = tokens.iter().map(|t| t.lexeme.as_str()).collect();
    assert_eq!(lexemes, vec!["a", "b", "c", "d", "e", ""]);
    // the line counter moves only on '\n', not on other vertical whitespace
    let tokens = tokenize_dsl("a\u{2028}b\nc").expect("should lex");
    assert_eq!(tokens[0].line, 1);
    assert_eq!(tokens[1].line, 1);
    assert_eq!(tokens[2].line, 2);
}
