use vstd::prelude::*;

verus! {

/// The kind of a lexical token of the workflow language.
#[derive(Clone, Copy, Debug, PartialEq, Eq, Structural)]
pub enum TokenType {
    // Keywords
    Workflow,
    Step,
    Let,
    Var,
    Const,
    If,
    Else,
    Print,
    Log,
    Fetch,
    SendEmail,
    Notify,
    // Literals
    String,
    Number,
    Identifier,
    // Operators
    Plus,
    Equal,
    EqualEqual,
    NotEqual,
    Greater,
    Less,
    GreaterEqual,
    LessEqual,
    Dot,
    // Punctuation
    LeftParen,
    RightParen,
    LeftBrace,
    RightBrace,
    Colon,
    Semicolon,
    Comma,
    // Special
    Eof,
}

/// Mathematical model of a token: the lexeme and literal payload as
/// character sequences.
pub ghost struct TokenModel {
    pub token_type: TokenType,
    pub lexeme: Seq<char>,
    pub literal: Option<Seq<char>>,
    pub line: nat,
}

/// One lexical token: its kind, the source text it covers, an optional
/// literal payload (the body of a string literal), and the source line.
#[derive(Clone, Debug)]
pub struct Token {
    pub token_type: TokenType,
    pub lexeme: String,
    pub literal: Option<String>,
    pub line: usize,
}

impl View for Token {
    type V = TokenModel;

    open spec fn view(&self) -> TokenModel {
        TokenModel {
            token_type: self.token_type,
            lexeme: self.lexeme@,
            literal: match self.literal {
                Option::Some(s) => Option::Some(s@),
                Option::None => Option::None,
            },
            line: self.line as nat,
        }
    }
}

impl Token {
    pub fn new(token_type: TokenType, lexeme: &str, literal: Option<&str>, line: usize) -> (r:
        Token)
        ensures
            r@ == (TokenModel {
                token_type,
                lexeme: lexeme@,
                literal: match literal {
                    Option::Some(s) => Option::Some(s@),
                    Option::None => Option::None,
                },
                line: line as nat,
            }),
    {
        Token {
            token_type,
            lexeme: lexeme.to_owned(),
            literal: match literal {
                Option::Some(s) => Option::Some(s.to_owned()),
                Option::None => Option::None,
            },
            line,
        }
    }
}

} // verus!
