use vstd::prelude::*;
use crate::token::{Token, TokenModel, TokenType};
use crate::strutil::{
    is_digit, is_ident_start, is_ident_continue, is_space, digit_check, ident_start_check,
    ident_continue_check, space_check, chars_of, range_eq_str,
};
use crate::decimal::{digits_end, lemma_digits_end, lemma_digits_end_at};

verus! {

/// A lexical error: tokenization stops at the first one, with no partial
/// token stream.
#[derive(Clone, Copy, Debug, PartialEq, Eq, Structural)]
pub enum LexError {
    UnexpectedChar(char),
    UnterminatedString,
}

/// The report a lexical error carries.
pub open spec fn lex_err_msg(e: LexError) -> Seq<char> {
    match e {
        LexError::UnexpectedChar(c) => "Unexpected character: "@.push(c),
        LexError::UnterminatedString => "Unterminated string"@,
    }
}

/// Relies on std's String::push: appends exactly the one character.
#[verifier::external_body]
fn push_char(s: &mut String, c: char)
    ensures
        final(s)@ == old(s)@.push(c),
{
    s.push(c);
}

impl LexError {
    /// The error rendered for reporting.
    pub fn message(&self) -> (r: String)
        ensures
            r@ == lex_err_msg(*self),
    {
        match self {
            LexError::UnexpectedChar(c) => {
                let mut m = "Unexpected character: ".to_owned();
                push_char(&mut m, *c);
                m
            },
            LexError::UnterminatedString => "Unterminated string".to_owned(),
        }
    }
}

// ---------------------------------------------------------------------------
// The token grammar, as spec functions
// ---------------------------------------------------------------------------
/// The line counter after one more newline; it sticks at the largest
/// representable value rather than wrap.
pub open spec fn sp_next_line(line: nat) -> nat {
    if line < usize::MAX as nat {
        line + 1
    } else {
        line
    }
}

/// The line counter after scanning `s[i..j)`.
pub open spec fn line_adv(line: nat, s: Seq<char>, i: int, j: int) -> nat
    decreases j - i,
{
    if i >= j {
        line
    } else {
        line_adv(
            if s[i] == '\n' {
                sp_next_line(line)
            } else {
                line
            },
            s,
            i + 1,
            j,
        )
    }
}

pub proof fn lemma_line_adv_snoc(line: nat, s: Seq<char>, i: int, j: int)
    requires
        i <= j,
    ensures
        line_adv(line, s, i, j + 1) == if s[j] == '\n' {
            sp_next_line(line_adv(line, s, i, j))
        } else {
            line_adv(line, s, i, j)
        },
    decreases j - i,
{
    reveal_with_fuel(line_adv, 3);
    if i < j {
        lemma_line_adv_snoc(
            if s[i] == '\n' {
                sp_next_line(line)
            } else {
                line
            },
            s,
            i + 1,
            j,
        );
    }
}

/// First index at or after `i` that cannot continue an identifier, or the
/// length.
pub open spec fn ident_end(s: Seq<char>, i: int) -> int
    decreases s.len() - i,
{
    if i < s.len() && is_ident_continue(s[i]) {
        ident_end(s, i + 1)
    } else {
        i
    }
}

pub proof fn lemma_ident_end(s: Seq<char>, i: int)
    requires
        i <= s.len(),
    ensures
        i <= ident_end(s, i) <= s.len(),
        forall|j: int| i <= j < ident_end(s, i) ==> is_ident_continue(s[j]),
        ident_end(s, i) < s.len() ==> !is_ident_continue(s[ident_end(s, i)]),
    decreases s.len() - i,
{
    if i < s.len() && is_ident_continue(s[i]) {
        lemma_ident_end(s, i + 1);
    }
}

pub proof fn lemma_ident_end_at(s: Seq<char>, i: int, k: int)
    requires
        0 <= i <= k <= s.len(),
        forall|j: int| i <= j < k ==> is_ident_continue(s[j]),
        k < s.len() ==> !is_ident_continue(s[k]),
    ensures
        ident_end(s, i) == k,
    decreases s.len() - i,
{
    if i < s.len() && is_ident_continue(s[i]) {
        lemma_ident_end_at(s, i + 1, k);
    }
}

/// Index of the closing quote at or after `i`, or a value at or past the
/// length when the string is unterminated.
pub open spec fn str_body_end(s: Seq<char>, i: int, q: char) -> int
    decreases s.len() - i,
{
    if i >= s.len() {
        i
    } else if s[i] == q {
        i
    } else {
        str_body_end(s, i + 1, q)
    }
}

pub proof fn lemma_str_body_end(s: Seq<char>, i: int, q: char)
    requires
        i <= s.len(),
    ensures
        i <= str_body_end(s, i, q) <= s.len(),
        forall|j: int| i <= j < str_body_end(s, i, q) ==> s[j] != q,
        str_body_end(s, i, q) < s.len() ==> s[str_body_end(s, i, q)] == q,
    decreases s.len() - i,
{
    if i < s.len() && s[i] != q {
        lemma_str_body_end(s, i + 1, q);
    }
}

pub proof fn lemma_str_body_end_at(s: Seq<char>, i: int, k: int, q: char)
    requires
        0 <= i <= k <= s.len(),
        forall|j: int| i <= j < k ==> s[j] != q,
        k < s.len() ==> s[k] == q,
    ensures
        str_body_end(s, i, q) == k,
    decreases s.len() - i,
{
    if i < s.len() && s[i] != q {
        lemma_str_body_end_at(s, i + 1, k, q);
    }
}

/// The token type of an identifier lexeme: one of the fixed, case-sensitive
/// keywords, or a plain identifier.
pub open spec fn keyword_tt(s: Seq<char>) -> TokenType {
    if s == "workflow"@ {
        TokenType::Workflow
    } else if s == "step"@ {
        TokenType::Step
    } else if s == "let"@ {
        TokenType::Let
    } else if s == "var"@ {
        TokenType::Var
    } else if s == "const"@ {
        TokenType::Const
    } else if s == "if"@ {
        TokenType::If
    } else if s == "else"@ {
        TokenType::Else
    } else if s == "print"@ {
        TokenType::Print
    } else if s == "log"@ {
        TokenType::Log
    } else if s == "fetch"@ {
        TokenType::Fetch
    } else if s == "send_email"@ {
        TokenType::SendEmail
    } else if s == "notify"@ {
        TokenType::Notify
    } else {
        TokenType::Identifier
    }
}

/// A token without a literal payload.
pub open spec fn tok(token_type: TokenType, lexeme: Seq<char>, line: nat) -> TokenModel {
    TokenModel { token_type, lexeme, literal: Option::None, line }
}

/// A token with a literal payload.
pub open spec fn tok_lit(
    token_type: TokenType,
    lexeme: Seq<char>,
    literal: Seq<char>,
    line: nat,
) -> TokenModel {
    TokenModel { token_type, lexeme, literal: Option::Some(literal), line }
}

/// Prepends a token to the outcome of scanning the rest of the source; an
/// error swallows everything, so that no partial token stream survives it.
pub open spec fn prepend(t: TokenModel, rest: Result<Seq<TokenModel>, LexError>) -> Result<
    Seq<TokenModel>,
    LexError,
> {
    match rest {
        Result::Ok(ts) => Result::Ok(seq![t] + ts),
        Result::Err(e) => Result::Err(e),
    }
}

/// The token sequence of `src[i..]`, starting on the given line: one token
/// per scan step, ending in an end-of-input token, or the first lexical
/// error.
pub open spec fn sp_scan(src: Seq<char>, i: int, line: nat) -> Result<Seq<TokenModel>, LexError>
    decreases src.len() - i,
    via sp_scan_dec
{
    if i >= src.len() {
        Result::Ok(seq![tok(TokenType::Eof, Seq::empty(), line)])
    } else {
        let c = src[i];
        if c == '(' {
            prepend(tok(TokenType::LeftParen, src.subrange(i, i + 1), line), sp_scan(src, i + 1, line))
        } else if c == ')' {
            prepend(tok(TokenType::RightParen, src.subrange(i, i + 1), line), sp_scan(src, i + 1, line))
        } else if c == '{' {
            prepend(tok(TokenType::LeftBrace, src.subrange(i, i + 1), line), sp_scan(src, i + 1, line))
        } else if c == '}' {
            prepend(tok(TokenType::RightBrace, src.subrange(i, i + 1), line), sp_scan(src, i + 1, line))
        } else if c == ':' {
            prepend(tok(TokenType::Colon, src.subrange(i, i + 1), line), sp_scan(src, i + 1, line))
        } else if c == ';' {
            prepend(tok(TokenType::Semicolon, src.subrange(i, i + 1), line), sp_scan(src, i + 1, line))
        } else if c == ',' {
            prepend(tok(TokenType::Comma, src.subrange(i, i + 1), line), sp_scan(src, i + 1, line))
        } else if c == '.' {
            prepend(tok(TokenType::Dot, src.subrange(i, i + 1), line), sp_scan(src, i + 1, line))
        } else if c == '=' {
            if i + 1 < src.len() && src[i + 1] == '=' {
                prepend(tok(TokenType::EqualEqual, src.subrange(i, i + 2), line), sp_scan(src, i + 2, line))
            } else {
                prepend(tok(TokenType::Equal, src.subrange(i, i + 1), line), sp_scan(src, i + 1, line))
            }
        } else if c == '!' {
            if i + 1 < src.len() && src[i + 1] == '=' {
                prepend(tok(TokenType::NotEqual, src.subrange(i, i + 2), line), sp_scan(src, i + 2, line))
            } else {
                Result::Err(LexError::UnexpectedChar('!'))
            }
        } else if c == '<' {
            if i + 1 < src.len() && src[i + 1] == '=' {
                prepend(tok(TokenType::LessEqual, src.subrange(i, i + 2), line), sp_scan(src, i + 2, line))
            } else {
                prepend(tok(TokenType::Less, src.subrange(i, i + 1), line), sp_scan(src, i + 1, line))
            }
        } else if c == '>' {
            if i + 1 < src.len() && src[i + 1] == '=' {
                prepend(tok(TokenType::GreaterEqual, src.subrange(i, i + 2), line), sp_scan(src, i + 2, line))
            } else {
                prepend(tok(TokenType::Greater, src.subrange(i, i + 1), line), sp_scan(src, i + 1, line))
            }
        } else if c == '+' {
            prepend(tok(TokenType::Plus, src.subrange(i, i + 1), line), sp_scan(src, i + 1, line))
        } else if c == '"' || c == '\'' {
            let e = str_body_end(src, i + 1, c);
            if e >= src.len() {
                Result::Err(LexError::UnterminatedString)
            } else {
                let l2 = line_adv(line, src, i + 1, e);
                prepend(
                    tok_lit(TokenType::String, src.subrange(i, e + 1), src.subrange(i + 1, e), l2),
                    sp_scan(src, e + 1, l2),
                )
            }
        } else if is_digit(c) {
            let e1 = digits_end(src, i + 1);
            let e = if e1 < src.len() && src[e1] == '.' && e1 + 1 < src.len() && is_digit(
                src[e1 + 1],
            ) {
                digits_end(src, e1 + 2)
            } else {
                e1
            };
            prepend(
                tok_lit(TokenType::Number, src.subrange(i, e), src.subrange(i, e), line),
                sp_scan(src, e, line),
            )
        } else if is_ident_start(c) {
            let e = ident_end(src, i + 1);
            let lexeme = src.subrange(i, e);
            prepend(tok(keyword_tt(lexeme), lexeme, line), sp_scan(src, e, line))
        } else if is_space(c) {
            if c == '\n' {
                sp_scan(src, i + 1, sp_next_line(line))
            } else {
                sp_scan(src, i + 1, line)
            }
        } else {
            Result::Err(LexError::UnexpectedChar(c))
        }
    }
}

#[via_fn]
proof fn sp_scan_dec(src: Seq<char>, i: int, line: nat) {
    if i < src.len() {
        lemma_str_body_end(src, i + 1, src[i]);
        assert(str_body_end(src, i + 1, src[i]) >= i + 1);
        lemma_digits_end(src, i + 1);
        let e1 = digits_end(src, i + 1);
        assert(e1 >= i + 1);
        if e1 + 2 <= src.len() {
            lemma_digits_end(src, e1 + 2);
            assert(digits_end(src, e1 + 2) >= e1 + 2);
        }
        lemma_ident_end(src, i + 1);
        assert(ident_end(src, i + 1) >= i + 1);
    }
}


/// A token stream the scanner accepts is nonempty and ends with the
/// end-of-input token.
#[verifier::rlimit(60)]
pub proof fn lemma_scan_stream_ok(src: Seq<char>, i: int, line: nat)
    ensures
        match sp_scan(src, i, line) {
            Result::Ok(ms) => ms.len() > 0 && ms[ms.len() - 1].token_type == TokenType::Eof,
            Result::Err(_) => true,
        },
    decreases src.len() - i,
{
    if i < src.len() {
        let c = src[i];
        lemma_str_body_end(src, i + 1, c);
        lemma_digits_end(src, i + 1);
        let e1 = digits_end(src, i + 1);
        if e1 + 2 <= src.len() {
            lemma_digits_end(src, e1 + 2);
        }
        lemma_ident_end(src, i + 1);
        if c == '=' || c == '!' || c == '<' || c == '>' {
            if i + 1 < src.len() && src[i + 1] == '=' {
                lemma_scan_stream_ok(src, i + 2, line);
            } else {
                lemma_scan_stream_ok(src, i + 1, line);
            }
        } else if c == '"' || c == '\'' {
            let e = str_body_end(src, i + 1, c);
            if e < src.len() {
                lemma_scan_stream_ok(src, e + 1, line_adv(line, src, i + 1, e));
            }
        } else if is_digit(c) {
            let e = if e1 < src.len() && src[e1] == '.' && e1 + 1 < src.len() && is_digit(
                src[e1 + 1],
            ) {
                digits_end(src, e1 + 2)
            } else {
                e1
            };
            lemma_scan_stream_ok(src, e, line);
        } else if is_ident_start(c) {
            lemma_scan_stream_ok(src, ident_end(src, i + 1), line);
        } else if is_space(c) {
            if c == '\n' {
                lemma_scan_stream_ok(src, i + 1, sp_next_line(line));
            } else {
                lemma_scan_stream_ok(src, i + 1, line);
            }
        } else {
            lemma_scan_stream_ok(src, i + 1, line);
        }
    }
}

/// The token sequence of a whole source text, from its first character and
/// line one.
pub open spec fn sp_tokenize(src: Seq<char>) -> Result<Seq<TokenModel>, LexError> {
    sp_scan(src, 0, 1)
}

/// The models of a sequence of tokens.
pub open spec fn toks_model(v: Seq<Token>) -> Seq<TokenModel> {
    Seq::new(v.len(), |i: int| v[i]@)
}


// ---------------------------------------------------------------------------
// The lexer
// ---------------------------------------------------------------------------
/// Single-pass scanner over the source characters, with start and current
/// cursors and a line counter.
pub struct Lexer {
    source: String,
    chars: Vec<char>,
    tokens: Vec<Token>,
    current: usize,
    line: usize,
}

impl Lexer {
    /// The scanner's bookkeeping: the character vector spells the source
    /// string, and the cursor is inside it.
    pub closed spec fn wf(&self) -> bool {
        self.source@ == self.chars@ && self.current <= self.chars@.len()
    }

    /// The source text being scanned.
    pub closed spec fn src(&self) -> Seq<char> {
        self.chars@
    }

    /// The tokens produced so far.
    pub closed spec fn toks(&self) -> Seq<TokenModel> {
        toks_model(self.tokens@)
    }

    /// The cursor position.
    pub closed spec fn pos(&self) -> int {
        self.current as int
    }

    /// The current line.
    pub closed spec fn line_no(&self) -> nat {
        self.line as nat
    }

    pub fn new(source: &str) -> (r: Lexer)
        ensures
            r.wf(),
            r.src() == source@,
            r.pos() == 0,
            r.line_no() == 1,
            r.toks() == Seq::<TokenModel>::empty(),
    {
        let chars = chars_of(source);
        let r = Lexer {
            source: source.to_owned(),
            chars,
            tokens: Vec::new(),
            current: 0,
            line: 1,
        };
        proof {
            assert(r.toks() =~= Seq::<TokenModel>::empty());
        }
        r
    }

    fn is_at_end(&self) -> (r: bool)
        ensures
            r == (self.pos() >= self.src().len()),
    {
        self.current >= self.chars.len()
    }

    /// Turns the whole source into its token sequence, ending with an
    /// end-of-input token, or reports the first lexical error; on an error
    /// no token stream is handed out.
    pub fn tokenize(&mut self) -> (r: Result<Vec<Token>, LexError>)
        requires
            old(self).wf(),
            old(self).pos() == 0,
            old(self).line_no() == 1,
            old(self).toks() == Seq::<TokenModel>::empty(),
        ensures
            final(self).src() == old(self).src(),
            match (r, sp_tokenize(old(self).src())) {
                (Result::Ok(ts), Result::Ok(ms)) => toks_model(ts@) == ms,
                (Result::Err(e1), Result::Err(e2)) => e1 == e2,
                _ => false,
            },
    {
        while !self.is_at_end()
            invariant
                self.wf(),
                self.src() == old(self).src(),
                sp_scan(self.src(), 0, 1) == (match sp_scan(self.src(), self.pos(), self.line_no()) {
                    Result::Ok(ms) => Result::<Seq<TokenModel>, LexError>::Ok(self.toks() + ms),
                    Result::Err(e) => Result::<Seq<TokenModel>, LexError>::Err(e),
                }),
            decreases self.src().len() - self.pos(),
        {
            let ghost pre = *self;
            match self.scan_token() {
                Result::Ok(()) => {
                    proof {
                        let src = self.src();
                        let delta = self.toks().subrange(
                            pre.toks().len() as int,
                            self.toks().len() as int,
                        );
                        assert(self.toks() =~= pre.toks() + delta);
                        match sp_scan(src, self.pos(), self.line_no()) {
                            Result::Ok(ms) => {
                                assert(pre.toks() + (delta + ms) =~= (pre.toks() + delta) + ms);
                            },
                            Result::Err(_) => {},
                        }
                    }
                },
                Result::Err(e) => {
                    return Result::Err(e);
                },
            }
        }
        let t = Token::new(TokenType::Eof, "", Option::None, self.line);
        proof {
            reveal_strlit("");
            assert(""@ =~= Seq::<char>::empty());
            assert(t@ == tok(TokenType::Eof, Seq::<char>::empty(), self.line_no()));
        }
        let ghost before = self.tokens@;
        self.tokens.push(t);
        proof {
            assert(toks_model(self.tokens@) =~= toks_model(before).push(t@));
            assert(self.toks() =~= toks_model(before) + seq![t@]);
        }
        let mut out: Vec<Token> = Vec::new();
        core::mem::swap(&mut out, &mut self.tokens);
        Result::Ok(out)
    }

    fn add_token(&mut self, tt: TokenType, a: usize, b: usize)
        requires
            old(self).wf(),
            a <= b <= old(self).src().len(),
        ensures
            final(self).wf(),
            final(self).src() == old(self).src(),
            final(self).pos() == old(self).pos(),
            final(self).line_no() == old(self).line_no(),
            final(self).toks() == old(self).toks().push(
                tok(tt, old(self).src().subrange(a as int, b as int), old(self).line_no()),
            ),
    {
        let t = Token::new(tt, self.source.as_str().substring_char(a, b), Option::None, self.line);
        self.tokens.push(t);
        proof {
            assert(self.toks() =~= old(self).toks().push(
                tok(tt, old(self).src().subrange(a as int, b as int), old(self).line_no()),
            ));
        }
    }

    fn add_token_with_literal(&mut self, tt: TokenType, a: usize, b: usize, la: usize, lb: usize)
        requires
            old(self).wf(),
            a <= b <= old(self).src().len(),
            la <= lb <= old(self).src().len(),
        ensures
            final(self).wf(),
            final(self).src() == old(self).src(),
            final(self).pos() == old(self).pos(),
            final(self).line_no() == old(self).line_no(),
            final(self).toks() == old(self).toks().push(
                tok_lit(
                    tt,
                    old(self).src().subrange(a as int, b as int),
                    old(self).src().subrange(la as int, lb as int),
                    old(self).line_no(),
                ),
            ),
    {
        let lex = self.source.as_str().substring_char(a, b);
        let lit = self.source.as_str().substring_char(la, lb);
        let t = Token::new(tt, lex, Option::Some(lit), self.line);
        self.tokens.push(t);
        proof {
            assert(self.toks() =~= old(self).toks().push(
                tok_lit(
                    tt,
                    old(self).src().subrange(a as int, b as int),
                    old(self).src().subrange(la as int, lb as int),
                    old(self).line_no(),
                ),
            ));
        }
    }

    fn bump_line(&mut self)
        requires
            old(self).wf(),
        ensures
            final(self).wf(),
            final(self).src() == old(self).src(),
            final(self).pos() == old(self).pos(),
            final(self).toks() == old(self).toks(),
            final(self).line_no() == sp_next_line(old(self).line_no()),
    {
        if self.line < usize::MAX {
            self.line = self.line + 1;
        }
    }

    /// The keyword table: classifies an identifier lexeme.
    fn keyword_type(&self, a: usize, b: usize) -> (r: TokenType)
        requires
            self.wf(),
            a <= b <= self.src().len(),
        ensures
            r == keyword_tt(self.src().subrange(a as int, b as int)),
    {
        if range_eq_str(&self.chars, a, b, "workflow") {
            TokenType::Workflow
        } else if range_eq_str(&self.chars, a, b, "step") {
            TokenType::Step
        } else if range_eq_str(&self.chars, a, b, "let") {
            TokenType::Let
        } else if range_eq_str(&self.chars, a, b, "var") {
            TokenType::Var
        } else if range_eq_str(&self.chars, a, b, "const") {
            TokenType::Const
        } else if range_eq_str(&self.chars, a, b, "if") {
            TokenType::If
        } else if range_eq_str(&self.chars, a, b, "else") {
            TokenType::Else
        } else if range_eq_str(&self.chars, a, b, "print") {
            TokenType::Print
        } else if range_eq_str(&self.chars, a, b, "log") {
            TokenType::Log
        } else if range_eq_str(&self.chars, a, b, "fetch") {
            TokenType::Fetch
        } else if range_eq_str(&self.chars, a, b, "send_email") {
            TokenType::SendEmail
        } else if range_eq_str(&self.chars, a, b, "notify") {
            TokenType::Notify
        } else {
            TokenType::Identifier
        }
    }

    /// Scans a string literal whose opening quote stands at `i`; the body
    /// runs to the matching quote, and newlines inside it advance the line
    /// counter.
    fn string(&mut self, i: usize, q: char) -> (r: Result<(), LexError>)
        requires
            old(self).wf(),
            old(self).pos() == i + 1,
            i < old(self).src().len(),
            old(self).src()[i as int] == q,
        ensures
            final(self).wf(),
            final(self).src() == old(self).src(),
            match r {
                Result::Ok(()) => ({
                    let src = old(self).src();
                    let e = str_body_end(src, i + 1, q);
                    let l2 = line_adv(old(self).line_no(), src, i + 1, e);
                    e < src.len() && final(self).pos() == e + 1 && final(self).line_no() == l2
                        && final(self).toks() == old(self).toks().push(
                        tok_lit(
                            TokenType::String,
                            src.subrange(i as int, e + 1),
                            src.subrange(i as int + 1, e),
                            l2,
                        ),
                    )
                }),
                Result::Err(e) => e == LexError::UnterminatedString && str_body_end(
                    old(self).src(),
                    i + 1,
                    q,
                ) >= old(self).src().len() && final(self).toks() == old(self).toks()
                    && final(self).pos() == old(self).src().len() && final(self).line_no() == line_adv(
                    old(self).line_no(),
                    old(self).src(),
                    i + 1,
                    old(self).src().len() as int,
                ),
            },
    {
        let n = self.chars.len();
        proof {
            lemma_str_body_end(self.src(), i as int + 1, q);
        }
        while self.current < n && self.chars[self.current] != q
            invariant
                self.wf(),
                self.src() == old(self).src(),
                self.toks() == old(self).toks(),
                n == self.src().len(),
                i + 1 <= self.pos() <= n,
                forall|j: int| i + 1 <= j < self.pos() ==> self.src()[j] != q,
                self.line_no() == line_adv(old(self).line_no(), self.src(), i + 1, self.pos()),
            decreases n - self.pos(),
        {
            proof {
                lemma_line_adv_snoc(old(self).line_no(), self.src(), i as int + 1, self.pos());
            }
            if self.chars[self.current] == '\n' {
                self.bump_line();
            }
            self.current = self.current + 1;
        }
        proof {
            lemma_str_body_end_at(self.src(), i as int + 1, self.pos(), q);
        }
        if self.current >= n {
            return Result::Err(LexError::UnterminatedString);
        }
        let e = self.current;
        self.current = e + 1;
        self.add_token_with_literal(TokenType::String, i, e + 1, i + 1, e);
        Result::Ok(())
    }

    /// Scans a numeric literal whose first digit stands at `i`: digits, then
    /// optionally a point followed by at least one digit.
    fn number(&mut self, i: usize)
        requires
            old(self).wf(),
            old(self).pos() == i + 1,
            i < old(self).src().len(),
            is_digit(old(self).src()[i as int]),
        ensures
            final(self).wf(),
            final(self).src() == old(self).src(),
            final(self).line_no() == old(self).line_no(),
            ({
                let src = old(self).src();
                let e1 = digits_end(src, i + 1);
                let e = if e1 < src.len() && src[e1] == '.' && e1 + 1 < src.len() && is_digit(
                    src[e1 + 1],
                ) {
                    digits_end(src, e1 + 2)
                } else {
                    e1
                };
                final(self).pos() == e && i < e <= src.len() && final(self).toks()
                    == old(self).toks().push(
                    tok_lit(
                        TokenType::Number,
                        src.subrange(i as int, e),
                        src.subrange(i as int, e),
                        old(self).line_no(),
                    ),
                )
            }),
    {
        let n = self.chars.len();
        while self.current < n && digit_check(self.chars[self.current])
            invariant
                self.wf(),
                self.src() == old(self).src(),
                self.toks() == old(self).toks(),
                self.line_no() == old(self).line_no(),
                n == self.src().len(),
                i + 1 <= self.pos() <= n,
                forall|j: int| i + 1 <= j < self.pos() ==> is_digit(self.src()[j]),
            decreases n - self.pos(),
        {
            self.current = self.current + 1;
        }
        proof {
            lemma_digits_end_at(self.src(), i as int + 1, self.pos());
        }
        let e1 = self.current;
        if e1 < n && self.chars[e1] == '.' && e1 + 1 < n && digit_check(self.chars[e1 + 1]) {
            self.current = e1 + 2;
            while self.current < n && digit_check(self.chars[self.current])
                invariant
                    self.wf(),
                    self.src() == old(self).src(),
                    self.toks() == old(self).toks(),
                    self.line_no() == old(self).line_no(),
                    n == self.src().len(),
                    e1 + 2 <= self.pos() <= n,
                    forall|j: int| e1 + 2 <= j < self.pos() ==> is_digit(self.src()[j]),
                decreases n - self.pos(),
            {
                self.current = self.current + 1;
            }
            proof {
                lemma_digits_end_at(self.src(), e1 as int + 2, self.pos());
            }
        }
        let e = self.current;
        self.add_token_with_literal(TokenType::Number, i, e, i, e);
    }

    /// Scans an identifier or keyword whose first character stands at `i`.
    fn identifier(&mut self, i: usize)
        requires
            old(self).wf(),
            old(self).pos() == i + 1,
            i < old(self).src().len(),
            is_ident_start(old(self).src()[i as int]),
        ensures
            final(self).wf(),
            final(self).src() == old(self).src(),
            final(self).line_no() == old(self).line_no(),
            ({
                let src = old(self).src();
                let e = ident_end(src, i + 1);
                let lexeme = src.subrange(i as int, e);
                final(self).pos() == e && i < e <= src.len() && final(self).toks()
                    == old(self).toks().push(tok(keyword_tt(lexeme), lexeme, old(self).line_no()))
            }),
    {
        let n = self.chars.len();
        while self.current < n && ident_continue_check(self.chars[self.current])
            invariant
                self.wf(),
                self.src() == old(self).src(),
                self.toks() == old(self).toks(),
                self.line_no() == old(self).line_no(),
                n == self.src().len(),
                i + 1 <= self.pos() <= n,
                forall|j: int| i + 1 <= j < self.pos() ==> is_ident_continue(self.src()[j]),
            decreases n - self.pos(),
        {
            self.current = self.current + 1;
        }
        proof {
            lemma_ident_end_at(self.src(), i as int + 1, self.pos());
        }
        let e = self.current;
        let tt = self.keyword_type(i, e);
        self.add_token(tt, i, e);
    }

    /// Scans one token (or skips one whitespace character) at the cursor.
    fn scan_token(&mut self) -> (r: Result<(), LexError>)
        requires
            old(self).wf(),
            old(self).pos() < old(self).src().len(),
        ensures
            final(self).wf(),
            final(self).src() == old(self).src(),
            match r {
                Result::Ok(()) => ({
                    let told = old(self).toks();
                    let tnew = final(self).toks();
                    old(self).pos() < final(self).pos() <= final(self).src().len()
                        && tnew.len() >= told.len()
                        && tnew.subrange(0, told.len() as int) == told
                        && sp_scan(final(self).src(), old(self).pos(), old(self).line_no())
                        == (match sp_scan(final(self).src(), final(self).pos(), final(self).line_no()) {
                        Result::Ok(ms) => Result::<Seq<TokenModel>, LexError>::Ok(
                            tnew.subrange(told.len() as int, tnew.len() as int) + ms,
                        ),
                        Result::Err(e) => Result::<Seq<TokenModel>, LexError>::Err(e),
                    })
                }),
                Result::Err(e) => sp_scan(final(self).src(), old(self).pos(), old(self).line_no())
                    == Result::<Seq<TokenModel>, LexError>::Err(e)
                    && final(self).toks() == old(self).toks(),
            },
    {
        let n = self.chars.len();
        let i = self.current;
        let c = self.chars[i];
        self.current = i + 1;
        let ghost src = self.src();
        let ghost l0 = old(self).line_no();
        if c == '(' {
            self.add_token(TokenType::LeftParen, i, i + 1);
            proof {
                lemma_delta_one(old(self).toks(), self.toks());
            }
            Result::Ok(())
        } else if c == ')' {
            self.add_token(TokenType::RightParen, i, i + 1);
            proof {
                lemma_delta_one(old(self).toks(), self.toks());
            }
            Result::Ok(())
        } else if c == '{' {
            self.add_token(TokenType::LeftBrace, i, i + 1);
            proof {
                lemma_delta_one(old(self).toks(), self.toks());
            }
            Result::Ok(())
        } else if c == '}' {
            self.add_token(TokenType::RightBrace, i, i + 1);
            proof {
                lemma_delta_one(old(self).toks(), self.toks());
            }
            Result::Ok(())
        } else if c == ':' {
            self.add_token(TokenType::Colon, i, i + 1);
            proof {
                lemma_delta_one(old(self).toks(), self.toks());
            }
            Result::Ok(())
        } else if c == ';' {
            self.add_token(TokenType::Semicolon, i, i + 1);
            proof {
                lemma_delta_one(old(self).toks(), self.toks());
            }
            Result::Ok(())
        } else if c == ',' {
            self.add_token(TokenType::Comma, i, i + 1);
            proof {
                lemma_delta_one(old(self).toks(), self.toks());
            }
            Result::Ok(())
        } else if c == '.' {
            self.add_token(TokenType::Dot, i, i + 1);
            proof {
                lemma_delta_one(old(self).toks(), self.toks());
            }
            Result::Ok(())
        } else if c == '=' {
            if i + 1 < self.chars.len() && self.chars[i + 1] == '=' {
                self.current = i + 2;
                self.add_token(TokenType::EqualEqual, i, i + 2);
            } else {
                self.add_token(TokenType::Equal, i, i + 1);
            }
            proof {
                lemma_delta_one(old(self).toks(), self.toks());
            }
            Result::Ok(())
        } else if c == '!' {
            if i + 1 < self.chars.len() && self.chars[i + 1] == '=' {
                self.current = i + 2;
                self.add_token(TokenType::NotEqual, i, i + 2);
                proof {
                    lemma_delta_one(old(self).toks(), self.toks());
                }
                Result::Ok(())
            } else {
                Result::Err(LexError::UnexpectedChar('!'))
            }
        } else if c == '<' {
            if i + 1 < self.chars.len() && self.chars[i + 1] == '=' {
                self.current = i + 2;
                self.add_token(TokenType::LessEqual, i, i + 2);
            } else {
                self.add_token(TokenType::Less, i, i + 1);
            }
            proof {
                lemma_delta_one(old(self).toks(), self.toks());
            }
            Result::Ok(())
        } else if c == '>' {
            if i + 1 < self.chars.len() && self.chars[i + 1] == '=' {
                self.current = i + 2;
                self.add_token(TokenType::GreaterEqual, i, i + 2);
            } else {
                self.add_token(TokenType::Greater, i, i + 1);
            }
            proof {
                lemma_delta_one(old(self).toks(), self.toks());
            }
            Result::Ok(())
        } else if c == '+' {
            self.add_token(TokenType::Plus, i, i + 1);
            proof {
                lemma_delta_one(old(self).toks(), self.toks());
            }
            Result::Ok(())
        } else if c == '"' || c == '\'' {
            let r = self.string(i, c);
            proof {
                lemma_str_body_end(src, i as int + 1, c);
                if r is Ok {
                    lemma_delta_one(old(self).toks(), self.toks());
                }
            }
            r
        } else if digit_check(c) {
            self.number(i);
            proof {
                lemma_delta_one(old(self).toks(), self.toks());
            }
            Result::Ok(())
        } else if ident_start_check(c) {
            self.identifier(i);
            proof {
                lemma_delta_one(old(self).toks(), self.toks());
            }
            Result::Ok(())
        } else if space_check(c) {
            if c == '\n' {
                self.bump_line();
            }
            proof {
                assert(self.toks().subrange(0, old(self).toks().len() as int) =~= old(self).toks());
                assert(self.toks().subrange(
                    old(self).toks().len() as int,
                    self.toks().len() as int,
                ) =~= Seq::<TokenModel>::empty());
                if sp_scan(src, i as int + 1, self.line_no()) is Ok {
                    let ms = sp_scan(src, i as int + 1, self.line_no())->Ok_0;
                    assert(Seq::<TokenModel>::empty() + ms =~= ms);
                }
            }
            Result::Ok(())
        } else {
            Result::Err(LexError::UnexpectedChar(c))
        }
    }
}

/// A pushed token is the one-element difference between the new and old
/// token sequences.
proof fn lemma_delta_one(before: Seq<TokenModel>, after: Seq<TokenModel>)
    requires
        after.len() == before.len() + 1,
        forall|j: int| 0 <= j < before.len() ==> after[j] == before[j],
    ensures
        after.subrange(0, before.len() as int) == before,
        after.subrange(before.len() as int, after.len() as int) == seq![after[before.len() as int]],
        forall|ms: Seq<TokenModel>|
            #![trigger seq![after[before.len() as int]] + ms]
            after.subrange(before.len() as int, after.len() as int) + ms == seq![
                after[before.len() as int],
            ] + ms,
{
    assert(after.subrange(0, before.len() as int) =~= before);
    assert(after.subrange(before.len() as int, after.len() as int) =~= seq![
        after[before.len() as int],
    ]);
}


} // verus!
