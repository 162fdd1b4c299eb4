use vstd::prelude::*;
use crate::token::{Token, TokenModel, TokenType};
use crate::ast::{
    ExprModel, CommandModel, ConditionalModel, StepContentModel, StepModel, WorkflowModel,
    VarDeclModel, ProgramModel, Expression, Command, ConditionalStatement, StepContent, Step,
    Workflow, VariableDeclaration, Program, expr_model, exprs_model, command_model, cond_model,
    step_model, steps_model, workflow_model, workflows_model, vardecl_model,
    vardecls_model, program_model, lemma_steps_model_push, lemma_exprs_model_push,
    lemma_workflows_model_push, lemma_vardecls_model_push,
};
use crate::decimal::{sp_parse_dec, canon_dec, digs_val, parse_dec, canon_decimal};
use crate::lexer::toks_model;
use crate::strutil::is_digit;

verus! {

/// A parse error: the message naming the construct that was expected.
/// Parsing stops at the first one, with no partial syntax tree.
#[derive(Debug)]
pub struct ParseError {
    pub message: String,
}

// ---------------------------------------------------------------------------
// The grammar, as spec functions over token sequences
// ---------------------------------------------------------------------------
/// Whether the parser position stands at the end: past the tokens, or on the
/// end-of-input token.
pub open spec fn at_end(toks: Seq<TokenModel>, i: int) -> bool {
    i >= toks.len() || toks[i].token_type == TokenType::Eof
}

/// Whether the token at `i` exists and has the given type.
pub open spec fn peek_is(toks: Seq<TokenModel>, i: int, tt: TokenType) -> bool {
    !at_end(toks, i) && toks[i].token_type == tt
}

/// The literal payload of a token, or the empty string when it has none.
pub open spec fn lit_of(t: TokenModel) -> Seq<char> {
    match t.literal {
        Option::Some(l) => l,
        Option::None => Seq::empty(),
    }
}

/// A token type that may name a command: a plain identifier, or one of
/// the keywords that are themselves command names.
pub open spec fn is_command_name(tt: TokenType) -> bool {
    tt == TokenType::Identifier || tt == TokenType::Print || tt == TokenType::Log || tt
        == TokenType::Fetch || tt == TokenType::SendEmail || tt == TokenType::Notify
}

/// A token type that may stand between two primaries.
pub open spec fn is_binop(tt: TokenType) -> bool {
    tt == TokenType::Plus || tt == TokenType::EqualEqual || tt == TokenType::NotEqual || tt
        == TokenType::Greater || tt == TokenType::Less || tt == TokenType::GreaterEqual || tt
        == TokenType::LessEqual
}

/// The step id a numeric lexeme denotes: its integer part, clamped to the
/// range of `u32`; a negative number gives zero. A lexeme that does not read
/// as a decimal number at all denotes no id.
pub open spec fn step_id_of(lexeme: Seq<char>) -> Option<u32> {
    match sp_parse_dec(lexeme) {
        Option::Some(t) => Option::Some(
            if t.0 {
                0u32
            } else if digs_val(t.1) > u32::MAX {
                u32::MAX
            } else {
                digs_val(t.1) as u32
            },
        ),
        Option::None => Option::None,
    }
}

/// Parses one primary expression: a string or numeric literal, an
/// identifier with an optional property, or a step reference.
pub open spec fn sp_parse_primary(toks: Seq<TokenModel>, i: int) -> Result<
    (ExprModel, int),
    Seq<char>,
> {
    if peek_is(toks, i, TokenType::String) {
        Result::Ok((ExprModel::StringLiteral(lit_of(toks[i])), i + 1))
    } else if peek_is(toks, i, TokenType::Number) {
        if sp_parse_dec(toks[i].lexeme) is Some {
            Result::Ok((ExprModel::NumberLiteral(canon_dec(toks[i].lexeme)), i + 1))
        } else {
            Result::Err("Invalid number"@)
        }
    } else if peek_is(toks, i, TokenType::Identifier) {
        if peek_is(toks, i + 1, TokenType::Dot) {
            if peek_is(toks, i + 2, TokenType::Identifier) {
                Result::Ok(
                    (
                        ExprModel::PropertyAccess {
                            object: Box::new(ExprModel::Identifier(toks[i].lexeme)),
                            property: toks[i + 2].lexeme,
                        },
                        i + 3,
                    ),
                )
            } else {
                Result::Err("Expected property name"@)
            }
        } else {
            Result::Ok((ExprModel::Identifier(toks[i].lexeme), i + 1))
        }
    } else if peek_is(toks, i, TokenType::Step) {
        if peek_is(toks, i + 1, TokenType::Number) {
            match step_id_of(toks[i + 1].lexeme) {
                Option::None => Result::Err("Expected step number"@),
                Option::Some(id) => if peek_is(toks, i + 2, TokenType::Dot) {
                    if peek_is(toks, i + 3, TokenType::Identifier) {
                        Result::Ok(
                            (
                                ExprModel::StepReference {
                                    step_id: id,
                                    property: Option::Some(toks[i + 3].lexeme),
                                },
                                i + 4,
                            ),
                        )
                    } else {
                        Result::Err("Expected property name"@)
                    }
                } else {
                    Result::Ok(
                        (ExprModel::StepReference { step_id: id, property: Option::None }, i + 2),
                    )
                },
            }
        } else {
            Result::Err("Expected step number"@)
        }
    } else {
        Result::Err("Expected expression"@)
    }
}

/// Folds further `BINOP primary` pairs onto an already parsed left operand:
/// one precedence level, associating strictly left to right.
pub open spec fn sp_bin_rest(toks: Seq<TokenModel>, i: int, left: ExprModel) -> Result<
    (ExprModel, int),
    Seq<char>,
>
    decreases toks.len() - i,
{
    if !at_end(toks, i) && is_binop(toks[i].token_type) {
        match sp_parse_primary(toks, i + 1) {
            Result::Err(m) => Result::Err(m),
            Result::Ok((right, j)) => if j > i + 1 && j <= toks.len() {
                sp_bin_rest(
                    toks,
                    j,
                    ExprModel::BinaryExpression {
                        left: Box::new(left),
                        operator: toks[i].lexeme,
                        right: Box::new(right),
                    },
                )
            } else {
                // never reached: a successful sub-parse advances and stays
                // inside the tokens
                Result::Err(Seq::empty())
            },
        }
    } else {
        Result::Ok((left, i))
    }
}

/// Parses one expression: a primary followed by any number of
/// `BINOP primary` pairs.
pub open spec fn sp_parse_expression(toks: Seq<TokenModel>, i: int) -> Result<
    (ExprModel, int),
    Seq<char>,
> {
    match sp_parse_primary(toks, i) {
        Result::Err(m) => Result::Err(m),
        Result::Ok((left, j)) => sp_bin_rest(toks, j, left),
    }
}

/// Parses the comma-separated expressions of an argument list; an empty
/// list is recognized by the closing parenthesis alone.
pub open spec fn sp_expr_items(toks: Seq<TokenModel>, i: int) -> Result<
    (Seq<ExprModel>, int),
    Seq<char>,
>
    decreases toks.len() - i,
{
    match sp_parse_expression(toks, i) {
        Result::Err(m) => Result::Err(m),
        Result::Ok((e, j)) => if j > i && j <= toks.len() {
            if peek_is(toks, j, TokenType::Comma) {
                match sp_expr_items(toks, j + 1) {
                    Result::Err(m) => Result::Err(m),
                    Result::Ok((rest, k)) => Result::Ok((seq![e] + rest, k)),
                }
            } else {
                Result::Ok((seq![e], j))
            }
        } else {
            // never reached: a successful sub-parse advances and stays
            // inside the tokens
            Result::Err(Seq::empty())
        },
    }
}

pub open spec fn sp_parse_expression_list(toks: Seq<TokenModel>, i: int) -> Result<
    (Seq<ExprModel>, int),
    Seq<char>,
> {
    if peek_is(toks, i, TokenType::RightParen) {
        Result::Ok((Seq::empty(), i))
    } else {
        sp_expr_items(toks, i)
    }
}

/// Parses a command: a name, optionally followed by a parenthesized
/// argument list.
pub open spec fn sp_parse_command(toks: Seq<TokenModel>, i: int) -> Result<
    (CommandModel, int),
    Seq<char>,
> {
    if at_end(toks, i) || !is_command_name(toks[i].token_type) {
        Result::Err("Expected command name"@)
    } else {
        let name = toks[i].lexeme;
        if peek_is(toks, i + 1, TokenType::LeftParen) {
            match sp_parse_expression_list(toks, i + 2) {
                Result::Err(m) => Result::Err(m),
                Result::Ok((args, j)) => if peek_is(toks, j, TokenType::RightParen) {
                    Result::Ok((CommandModel { name, arguments: args }, j + 1))
                } else {
                    Result::Err("Expected ')'"@)
                },
            }
        } else {
            Result::Ok((CommandModel { name, arguments: Seq::empty() }, i + 1))
        }
    }
}

/// Parses a variable declaration: `let`, `var` or `const`, a name, `=`,
/// and the value expression.
pub open spec fn sp_parse_vardecl(toks: Seq<TokenModel>, i: int) -> Result<
    (VarDeclModel, int),
    Seq<char>,
> {
    let kw = if peek_is(toks, i, TokenType::Let) {
        Option::Some("let"@)
    } else if peek_is(toks, i, TokenType::Var) {
        Option::Some("var"@)
    } else if peek_is(toks, i, TokenType::Const) {
        Option::Some("const"@)
    } else {
        Option::None
    };
    match kw {
        Option::None => Result::Err("Expected variable declaration keyword"@),
        Option::Some(keyword) => if !peek_is(toks, i + 1, TokenType::Identifier) {
            Result::Err("Expected variable name"@)
        } else if !peek_is(toks, i + 2, TokenType::Equal) {
            Result::Err("Expected '=' after variable name"@)
        } else {
            match sp_parse_expression(toks, i + 3) {
                Result::Err(m) => Result::Err(m),
                Result::Ok((value, j)) => Result::Ok(
                    (VarDeclModel { keyword, name: toks[i + 1].lexeme, value }, j),
                ),
            }
        },
    }
}

/// Parses one step: `step`, its number, `:`, and a conditional or a
/// command.
pub open spec fn sp_parse_step(toks: Seq<TokenModel>, i: int) -> Result<(StepModel, int), Seq<char>>
    decreases toks.len() - i, 2int,
{
    if !peek_is(toks, i, TokenType::Step) {
        Result::Err("Expected 'step'"@)
    } else if !peek_is(toks, i + 1, TokenType::Number) {
        Result::Err("Expected step number"@)
    } else {
        match step_id_of(toks[i + 1].lexeme) {
            Option::None => Result::Err("Expected step number"@),
            Option::Some(id) => if !peek_is(toks, i + 2, TokenType::Colon) {
                Result::Err("Expected ':' after step number"@)
            } else {
                if peek_is(toks, i + 3, TokenType::If) {
                    match sp_parse_conditional(toks, i + 3) {
                        Result::Err(m) => Result::Err(m),
                        Result::Ok((c, j)) => Result::Ok(
                            (StepModel { id, content: StepContentModel::Conditional(c) }, j),
                        ),
                    }
                } else {
                    match sp_parse_command(toks, i + 3) {
                        Result::Err(m) => Result::Err(m),
                        Result::Ok((c, j)) => Result::Ok(
                            (StepModel { id, content: StepContentModel::Command(c) }, j),
                        ),
                    }
                }
            },
        }
    }
}

/// Parses the steps of a block, up to a closing brace or the end of the
/// tokens.
pub open spec fn sp_parse_steps(toks: Seq<TokenModel>, i: int) -> Result<
    (Seq<StepModel>, int),
    Seq<char>,
>
    decreases toks.len() - i, 3int,
{
    if at_end(toks, i) || toks[i].token_type == TokenType::RightBrace {
        Result::Ok((Seq::empty(), i))
    } else {
        match sp_parse_step(toks, i) {
            Result::Err(m) => Result::Err(m),
            Result::Ok((s, j)) => if j > i && j <= toks.len() {
                match sp_parse_steps(toks, j) {
                    Result::Err(m) => Result::Err(m),
                    Result::Ok((rest, k)) => Result::Ok((seq![s] + rest, k)),
                }
            } else {
                // never reached: a successful sub-parse advances and stays
                // inside the tokens
                Result::Err(Seq::empty())
            },
        }
    }
}

/// Parses a conditional: `if`, the parenthesized condition, the if-block,
/// and an optional else-block.
pub open spec fn sp_parse_conditional(toks: Seq<TokenModel>, i: int) -> Result<
    (ConditionalModel, int),
    Seq<char>,
>
    decreases toks.len() - i, 1int,
{
    if !peek_is(toks, i, TokenType::If) {
        Result::Err("Expected 'if'"@)
    } else if !peek_is(toks, i + 1, TokenType::LeftParen) {
        Result::Err("Expected '(' after 'if'"@)
    } else {
        match sp_parse_expression(toks, i + 2) {
            Result::Err(m) => Result::Err(m),
            Result::Ok((cond, j)) => if j > i + 1 && j <= toks.len() {
                if !peek_is(toks, j, TokenType::RightParen) {
                    Result::Err("Expected ')' after condition"@)
                } else if !peek_is(toks, j + 1, TokenType::LeftBrace) {
                    Result::Err("Expected '{' after condition"@)
                } else {
                    match sp_parse_steps(toks, j + 2) {
                        Result::Err(m) => Result::Err(m),
                        Result::Ok((if_steps, k)) => if k < j + 2 {
                            // never reached: a successful sub-parse does not
                            // move backwards
                            Result::Err(Seq::empty())
                        } else if !peek_is(toks, k, TokenType::RightBrace) {
                            Result::Err("Expected '}' after if block"@)
                        } else if peek_is(toks, k + 1, TokenType::Else) {
                            if !peek_is(toks, k + 2, TokenType::LeftBrace) {
                                Result::Err("Expected '{' after 'else'"@)
                            } else {
                                match sp_parse_steps(toks, k + 3) {
                                    Result::Err(m) => Result::Err(m),
                                    Result::Ok((else_steps, l)) => if !peek_is(
                                        toks,
                                        l,
                                        TokenType::RightBrace,
                                    ) {
                                        Result::Err("Expected '}' after else block"@)
                                    } else {
                                        Result::Ok(
                                            (
                                                ConditionalModel {
                                                    condition: cond,
                                                    if_steps,
                                                    else_steps: Option::Some(else_steps),
                                                },
                                                l + 1,
                                            ),
                                        )
                                    },
                                }
                            }
                        } else {
                            Result::Ok(
                                (
                                    ConditionalModel {
                                        condition: cond,
                                        if_steps,
                                        else_steps: Option::None,
                                    },
                                    k + 1,
                                ),
                            )
                        },
                    }
                }
            } else {
                // never reached: a successful sub-parse advances and stays
                // inside the tokens
                Result::Err(Seq::empty())
            },
        }
    }
}

/// Parses a workflow: `workflow`, its name, and a braced block of steps.
pub open spec fn sp_parse_workflow(toks: Seq<TokenModel>, i: int) -> Result<
    (WorkflowModel, int),
    Seq<char>,
>
    decreases toks.len() - i, 4int,
{
    if !peek_is(toks, i, TokenType::Workflow) {
        Result::Err("Expected 'workflow'"@)
    } else if !peek_is(toks, i + 1, TokenType::String) {
        Result::Err("Expected workflow name"@)
    } else if !peek_is(toks, i + 2, TokenType::LeftBrace) {
        Result::Err("Expected '{' after workflow name"@)
    } else {
        match sp_parse_steps(toks, i + 3) {
            Result::Err(m) => Result::Err(m),
            Result::Ok((steps, j)) => if !peek_is(toks, j, TokenType::RightBrace) {
                Result::Err("Expected '}' after workflow body"@)
            } else {
                Result::Ok((WorkflowModel { name: lit_of(toks[i + 1]), steps }, j + 1))
            },
        }
    }
}

/// Parses a whole program: any interleaving of workflows and top-level
/// variable declarations, to the end of the tokens.
pub open spec fn sp_parse_program(toks: Seq<TokenModel>, i: int) -> Result<
    (ProgramModel, int),
    Seq<char>,
>
    decreases toks.len() - i, 5int,
{
    if at_end(toks, i) {
        Result::Ok((ProgramModel { workflows: Seq::empty(), variables: Seq::empty() }, i))
    } else if toks[i].token_type == TokenType::Workflow {
        match sp_parse_workflow(toks, i) {
            Result::Err(m) => Result::Err(m),
            Result::Ok((w, j)) => if j > i && j <= toks.len() {
                match sp_parse_program(toks, j) {
                    Result::Err(m) => Result::Err(m),
                    Result::Ok((p, k)) => Result::Ok(
                        (
                            ProgramModel {
                                workflows: seq![w] + p.workflows,
                                variables: p.variables,
                            },
                            k,
                        ),
                    ),
                }
            } else {
                // never reached: a successful sub-parse advances and stays
                // inside the tokens
                Result::Err(Seq::empty())
            },
        }
    } else if toks[i].token_type == TokenType::Let || toks[i].token_type == TokenType::Var
        || toks[i].token_type == TokenType::Const {
        match sp_parse_vardecl(toks, i) {
            Result::Err(m) => Result::Err(m),
            Result::Ok((d, j)) => if j > i && j <= toks.len() {
                match sp_parse_program(toks, j) {
                    Result::Err(m) => Result::Err(m),
                    Result::Ok((p, k)) => Result::Ok(
                        (
                            ProgramModel {
                                workflows: p.workflows,
                                variables: seq![d] + p.variables,
                            },
                            k,
                        ),
                    ),
                }
            } else {
                // never reached: a successful sub-parse advances and stays
                // inside the tokens
                Result::Err(Seq::empty())
            },
        }
    } else {
        Result::Err("Expected workflow or variable declaration"@)
    }
}

// ---------------------------------------------------------------------------
// The parser
// ---------------------------------------------------------------------------
/// A well-formed token stream: nonempty and ending with the end-of-input
/// token, as the lexer always produces it.
pub open spec fn stream_ok(toks: Seq<TokenModel>) -> bool {
    toks.len() > 0 && toks[toks.len() - 1].token_type == TokenType::Eof
}

/// Recursive descent with one token of lookahead and no backtracking.
pub struct Parser {
    tokens: Vec<Token>,
    current: usize,
}

impl Parser {
    /// The models of the tokens being parsed.
    pub closed spec fn toks(&self) -> Seq<TokenModel> {
        toks_model(self.tokens@)
    }

    /// The cursor position.
    pub closed spec fn pos(&self) -> int {
        self.current as int
    }

    /// The parser's bookkeeping: a well-formed stream, with the cursor on a
    /// token.
    pub open spec fn ready(&self) -> bool {
        stream_ok(self.toks()) && self.pos() < self.toks().len()
    }

    pub fn new(tokens: Vec<Token>) -> (r: Parser)
        ensures
            r.toks() == toks_model(tokens@),
            r.pos() == 0,
    {
        Parser { tokens, current: 0 }
    }

    fn is_at_end(&self) -> (r: bool)
        requires
            self.ready(),
        ensures
            r == at_end(self.toks(), self.pos()),
    {
        self.current >= self.tokens.len() || self.tokens[self.current].token_type == TokenType::Eof
    }

    fn peek_type(&self) -> (r: TokenType)
        requires
            self.ready(),
        ensures
            r == self.toks()[self.pos()].token_type,
    {
        self.tokens[self.current].token_type
    }

    fn check(&self, tt: TokenType) -> (r: bool)
        requires
            self.ready(),
        ensures
            r == peek_is(self.toks(), self.pos(), tt),
    {
        !self.is_at_end() && self.tokens[self.current].token_type == tt
    }

    fn check_binop(&self) -> (r: bool)
        requires
            self.ready(),
        ensures
            r == (!at_end(self.toks(), self.pos()) && is_binop(
                self.toks()[self.pos()].token_type,
            )),
    {
        if self.is_at_end() {
            false
        } else {
            let tt = self.tokens[self.current].token_type;
            tt == TokenType::Plus || tt == TokenType::EqualEqual || tt == TokenType::NotEqual || tt
                == TokenType::Greater || tt == TokenType::Less || tt == TokenType::GreaterEqual
                || tt == TokenType::LessEqual
        }
    }

    fn advance(&mut self)
        requires
            old(self).ready(),
        ensures
            final(self).ready(),
            final(self).toks() == old(self).toks(),
            final(self).pos() == if at_end(old(self).toks(), old(self).pos()) {
                old(self).pos()
            } else {
                old(self).pos() + 1
            },
    {
        let n = self.tokens.len();
        if self.current < n && self.tokens[self.current].token_type != TokenType::Eof {
            self.current = self.current + 1;
        }
    }

    fn consume(&mut self, tt: TokenType, msg: &str) -> (r: Result<(), ParseError>)
        requires
            old(self).ready(),
        ensures
            final(self).ready(),
            final(self).toks() == old(self).toks(),
            match r {
                Result::Ok(()) => peek_is(old(self).toks(), old(self).pos(), tt) && final(self).pos() == old(self).pos() + 1,
                Result::Err(e) => !peek_is(old(self).toks(), old(self).pos(), tt) && e.message@
                    == msg@ && final(self).pos() == old(self).pos(),
            },
    {
        if self.check(tt) {
            self.advance();
            Result::Ok(())
        } else {
            Result::Err(ParseError { message: msg.to_owned() })
        }
    }

    fn consume_string(&mut self, msg: &str) -> (r: Result<String, ParseError>)
        requires
            old(self).ready(),
        ensures
            final(self).ready(),
            final(self).toks() == old(self).toks(),
            match r {
                Result::Ok(v) => peek_is(old(self).toks(), old(self).pos(), TokenType::String)
                    && v@ == lit_of(old(self).toks()[old(self).pos()]) && final(self).pos() == old(self).pos() + 1,
                Result::Err(e) => !peek_is(old(self).toks(), old(self).pos(), TokenType::String)
                    && e.message@ == msg@ && final(self).pos() == old(self).pos(),
            },
    {
        if self.check(TokenType::String) {
            let v = match &self.tokens[self.current].literal {
                Option::Some(l) => l.clone(),
                Option::None => String::new(),
            };
            self.advance();
            Result::Ok(v)
        } else {
            Result::Err(ParseError { message: msg.to_owned() })
        }
    }

    fn consume_identifier(&mut self, msg: &str) -> (r: Result<String, ParseError>)
        requires
            old(self).ready(),
        ensures
            final(self).ready(),
            final(self).toks() == old(self).toks(),
            match r {
                Result::Ok(v) => peek_is(old(self).toks(), old(self).pos(), TokenType::Identifier)
                    && v@ == old(self).toks()[old(self).pos()].lexeme && final(self).pos() == old(self).pos() + 1,
                Result::Err(e) => !peek_is(
                    old(self).toks(),
                    old(self).pos(),
                    TokenType::Identifier,
                ) && e.message@ == msg@ && final(self).pos() == old(self).pos(),
            },
    {
        if self.check(TokenType::Identifier) {
            let v = self.tokens[self.current].lexeme.clone();
            self.advance();
            Result::Ok(v)
        } else {
            Result::Err(ParseError { message: msg.to_owned() })
        }
    }

    /// Reads a step id from a number token: the integer part of its lexeme,
    /// clamped to `u32`.
    fn consume_number(&mut self, msg: &str) -> (r: Result<u32, ParseError>)
        requires
            old(self).ready(),
        ensures
            final(self).ready(),
            final(self).toks() == old(self).toks(),
            match r {
                Result::Ok(id) => peek_is(old(self).toks(), old(self).pos(), TokenType::Number)
                    && step_id_of(old(self).toks()[old(self).pos()].lexeme) == Option::Some(id)
                    && final(self).pos() == old(self).pos() + 1,
                Result::Err(e) => e.message@ == msg@ && (!peek_is(
                    old(self).toks(),
                    old(self).pos(),
                    TokenType::Number,
                ) || step_id_of(old(self).toks()[old(self).pos()].lexeme) is None),
            },
    {
        if self.check(TokenType::Number) {
            let lexeme = self.tokens[self.current].lexeme.clone();
            self.advance();
            match parse_dec(lexeme.as_str()) {
                Option::None => Result::Err(ParseError { message: msg.to_owned() }),
                Option::Some(parts) => {
                    if parts.neg {
                        Result::Ok(0)
                    } else {
                        Result::Ok(clamp_id(&parts.int_digits))
                    }
                },
            }
        } else {
            Result::Err(ParseError { message: msg.to_owned() })
        }
    }

    fn parse_primary(&mut self) -> (r: Result<Expression, ParseError>)
        requires
            old(self).ready(),
        ensures
            final(self).ready(),
            final(self).toks() == old(self).toks(),
            match (r, sp_parse_primary(old(self).toks(), old(self).pos())) {
                (Result::Ok(e), Result::Ok((em, j))) => expr_model(e) == em && final(self).pos()
                    == j && old(self).pos() < j <= old(self).toks().len(),
                (Result::Err(e), Result::Err(m)) => e.message@ == m,
                _ => false,
            },
    {
        if self.check(TokenType::String) {
            let v = match &self.tokens[self.current].literal {
                Option::Some(l) => l.clone(),
                Option::None => String::new(),
            };
            self.advance();
            Result::Ok(Expression::string(v.as_str()))
        } else if self.check(TokenType::Number) {
            let lexeme = self.tokens[self.current].lexeme.clone();
            self.advance();
            match parse_dec(lexeme.as_str()) {
                Option::None => Result::Err(
                    ParseError { message: "Invalid number".to_owned() },
                ),
                Option::Some(_) => {
                    let canon = canon_decimal(lexeme.as_str());
                    Result::Ok(Expression::number(canon.as_str()))
                },
            }
        } else if self.check(TokenType::Identifier) {
            let name = self.tokens[self.current].lexeme.clone();
            self.advance();
            if self.check(TokenType::Dot) {
                self.advance();
                match self.consume_identifier("Expected property name") {
                    Result::Err(e) => Result::Err(e),
                    Result::Ok(property) => Result::Ok(
                        Expression::property_access(
                            Expression::identifier(name.as_str()),
                            property.as_str(),
                        ),
                    ),
                }
            } else {
                Result::Ok(Expression::identifier(name.as_str()))
            }
        } else if self.check(TokenType::Step) {
            self.advance();
            match self.consume_number("Expected step number") {
                Result::Err(e) => Result::Err(e),
                Result::Ok(step_id) => {
                    if self.check(TokenType::Dot) {
                        self.advance();
                        match self.consume_identifier("Expected property name") {
                            Result::Err(e) => Result::Err(e),
                            Result::Ok(property) => Result::Ok(
                                Expression::step_reference(
                                    step_id,
                                    Option::Some(property.as_str()),
                                ),
                            ),
                        }
                    } else {
                        Result::Ok(Expression::step_reference(step_id, Option::None))
                    }
                },
            }
        } else {
            Result::Err(ParseError { message: "Expected expression".to_owned() })
        }
    }

    #[verifier::loop_isolation(false)]
    fn parse_binary_expression(&mut self) -> (r: Result<Expression, ParseError>)
        requires
            old(self).ready(),
        ensures
            final(self).ready(),
            final(self).toks() == old(self).toks(),
            match (r, sp_parse_expression(old(self).toks(), old(self).pos())) {
                (Result::Ok(e), Result::Ok((em, j))) => expr_model(e) == em && final(self).pos()
                    == j && old(self).pos() < j <= old(self).toks().len(),
                (Result::Err(e), Result::Err(m)) => e.message@ == m,
                _ => false,
            },
    {
        let ghost toks = old(self).toks();
        let ghost p0 = old(self).pos();
        let mut left = match self.parse_primary() {
            Result::Err(e) => {
                return Result::Err(e);
            },
            Result::Ok(e) => e,
        };
        while self.check_binop()
            invariant
                self.ready(),
                self.toks() == toks,
                p0 < self.pos() <= toks.len(),
                sp_parse_expression(toks, p0) == sp_bin_rest(toks, self.pos(), expr_model(left)),
            decreases toks.len() - self.pos(),
        {
            let operator = self.tokens[self.current].lexeme.clone();
            proof {
                assert(operator@ == toks[self.pos()].lexeme);
            }
            self.advance();
            let right = match self.parse_primary() {
                Result::Err(e) => {
                    return Result::Err(e);
                },
                Result::Ok(e) => e,
            };
            left = Expression::binary(left, operator.as_str(), right);
        }
        Result::Ok(left)
    }

    fn parse_expression(&mut self) -> (r: Result<Expression, ParseError>)
        requires
            old(self).ready(),
        ensures
            final(self).ready(),
            final(self).toks() == old(self).toks(),
            match (r, sp_parse_expression(old(self).toks(), old(self).pos())) {
                (Result::Ok(e), Result::Ok((em, j))) => expr_model(e) == em && final(self).pos()
                    == j && old(self).pos() < j <= old(self).toks().len(),
                (Result::Err(e), Result::Err(m)) => e.message@ == m,
                _ => false,
            },
    {
        self.parse_binary_expression()
    }

    #[verifier::loop_isolation(false)]
    fn parse_expression_list(&mut self) -> (r: Result<Vec<Expression>, ParseError>)
        requires
            old(self).ready(),
        ensures
            final(self).ready(),
            final(self).toks() == old(self).toks(),
            match (r, sp_parse_expression_list(old(self).toks(), old(self).pos())) {
                (Result::Ok(v), Result::Ok((args, j))) => exprs_model(v@) == args && final(self).pos() == j && old(self).pos() <= j <= old(self).toks().len(),
                (Result::Err(e), Result::Err(m)) => e.message@ == m,
                _ => false,
            },
    {
        let ghost toks = old(self).toks();
        let ghost p0 = old(self).pos();
        let mut expressions: Vec<Expression> = Vec::new();
        if self.check(TokenType::RightParen) {
            proof {
                assert(exprs_model(expressions@) =~= Seq::<ExprModel>::empty());
            }
            return Result::Ok(expressions);
        }
        loop
            invariant
                self.ready(),
                self.toks() == toks,
                p0 <= self.pos() <= toks.len(),
                sp_expr_items(toks, p0) == (match sp_expr_items(toks, self.pos()) {
                    Result::Ok((rest, k)) => Result::<(Seq<ExprModel>, int), Seq<char>>::Ok(
                        (exprs_model(expressions@) + rest, k),
                    ),
                    Result::Err(m) => Result::<(Seq<ExprModel>, int), Seq<char>>::Err(m),
                }),
                !peek_is(toks, p0, TokenType::RightParen),
            decreases toks.len() - self.pos(),
        {
            let ghost cur = self.pos();
            let ghost acc0 = expressions@;
            let e = match self.parse_expression() {
                Result::Err(e) => {
                    return Result::Err(e);
                },
                Result::Ok(e) => e,
            };
            expressions.push(e);
            proof {
                lemma_exprs_model_push(acc0, e);
            }
            if self.check(TokenType::Comma) {
                self.advance();
                proof {
                    match sp_expr_items(toks, self.pos()) {
                        Result::Ok((rest, k)) => {
                            assert(exprs_model(acc0) + (seq![expr_model(e)] + rest)
                                =~= exprs_model(expressions@) + rest);
                        },
                        Result::Err(_) => {},
                    }
                }
            } else {
                proof {
                    assert(exprs_model(acc0) + seq![expr_model(e)] =~= exprs_model(
                        expressions@,
                    ));
                    assert(exprs_model(expressions@) + Seq::<ExprModel>::empty() =~= exprs_model(
                        expressions@,
                    ));
                }
                return Result::Ok(expressions);
            }
        }
    }

    fn parse_command(&mut self) -> (r: Result<Command, ParseError>)
        requires
            old(self).ready(),
        ensures
            final(self).ready(),
            final(self).toks() == old(self).toks(),
            match (r, sp_parse_command(old(self).toks(), old(self).pos())) {
                (Result::Ok(c), Result::Ok((cm, j))) => command_model(c) == cm && final(self).pos() == j && old(self).pos() < j <= old(self).toks().len(),
                (Result::Err(e), Result::Err(m)) => e.message@ == m,
                _ => false,
            },
    {
        if self.is_at_end() {
            return Result::Err(ParseError { message: "Expected command name".to_owned() });
        }
        let tt = self.peek_type();
        if !(tt == TokenType::Identifier || tt == TokenType::Print || tt == TokenType::Log || tt
            == TokenType::Fetch || tt == TokenType::SendEmail || tt == TokenType::Notify) {
            return Result::Err(ParseError { message: "Expected command name".to_owned() });
        }
        let name = self.tokens[self.current].lexeme.clone();
        self.advance();
        if self.check(TokenType::LeftParen) {
            match self.consume(TokenType::LeftParen, "Expected '('") {
                Result::Err(e) => {
                    return Result::Err(e);
                },
                Result::Ok(()) => (),
            }
            let arguments = match self.parse_expression_list() {
                Result::Err(e) => {
                    return Result::Err(e);
                },
                Result::Ok(v) => v,
            };
            match self.consume(TokenType::RightParen, "Expected ')'") {
                Result::Err(e) => {
                    return Result::Err(e);
                },
                Result::Ok(()) => (),
            }
            Result::Ok(Command { name, arguments })
        } else {
            let arguments: Vec<Expression> = Vec::new();
            proof {
                assert(exprs_model(arguments@) =~= Seq::<ExprModel>::empty());
            }
            Result::Ok(Command { name, arguments })
        }
    }

    fn parse_variable_declaration(&mut self) -> (r: Result<VariableDeclaration, ParseError>)
        requires
            old(self).ready(),
        ensures
            final(self).ready(),
            final(self).toks() == old(self).toks(),
            match (r, sp_parse_vardecl(old(self).toks(), old(self).pos())) {
                (Result::Ok(d), Result::Ok((dm, j))) => vardecl_model(d) == dm && final(self).pos() == j && old(self).pos() < j <= old(self).toks().len(),
                (Result::Err(e), Result::Err(m)) => e.message@ == m,
                _ => false,
            },
    {
        let tt = self.peek_type();
        let at_end_now = self.is_at_end();
        let keyword: &str = if !at_end_now && tt == TokenType::Let {
            "let"
        } else if !at_end_now && tt == TokenType::Var {
            "var"
        } else if !at_end_now && tt == TokenType::Const {
            "const"
        } else {
            return Result::Err(
                ParseError { message: "Expected variable declaration keyword".to_owned() },
            );
        };
        self.advance();
        let name = match self.consume_identifier("Expected variable name") {
            Result::Err(e) => {
                return Result::Err(e);
            },
            Result::Ok(v) => v,
        };
        match self.consume(TokenType::Equal, "Expected '=' after variable name") {
            Result::Err(e) => {
                return Result::Err(e);
            },
            Result::Ok(()) => (),
        }
        let value = match self.parse_expression() {
            Result::Err(e) => {
                return Result::Err(e);
            },
            Result::Ok(v) => v,
        };
        Result::Ok(VariableDeclaration { keyword: keyword.to_owned(), name, value })
    }

    fn parse_step(&mut self) -> (r: Result<Step, ParseError>)
        requires
            old(self).ready(),
        ensures
            final(self).ready(),
            final(self).toks() == old(self).toks(),
            match (r, sp_parse_step(old(self).toks(), old(self).pos())) {
                (Result::Ok(st), Result::Ok((sm, j))) => step_model(st) == sm && final(self).pos() == j && old(self).pos() < j <= old(self).toks().len(),
                (Result::Err(e), Result::Err(m)) => e.message@ == m,
                _ => false,
            },
        decreases old(self).toks().len() - old(self).pos(), 2int,
    {
        match self.consume(TokenType::Step, "Expected 'step'") {
            Result::Err(e) => {
                return Result::Err(e);
            },
            Result::Ok(()) => (),
        }
        let id = match self.consume_number("Expected step number") {
            Result::Err(e) => {
                return Result::Err(e);
            },
            Result::Ok(v) => v,
        };
        match self.consume(TokenType::Colon, "Expected ':' after step number") {
            Result::Err(e) => {
                return Result::Err(e);
            },
            Result::Ok(()) => (),
        }
        if self.check(TokenType::If) {
            match self.parse_conditional_statement() {
                Result::Err(e) => Result::Err(e),
                Result::Ok(c) => Result::Ok(Step { id, content: StepContent::Conditional(c) }),
            }
        } else {
            match self.parse_command() {
                Result::Err(e) => Result::Err(e),
                Result::Ok(c) => Result::Ok(Step { id, content: StepContent::Command(c) }),
            }
        }
    }

    /// Parses steps up to a closing brace or the end of the tokens.
    #[verifier::loop_isolation(false)]
    fn parse_steps(&mut self) -> (r: Result<Vec<Step>, ParseError>)
        requires
            old(self).ready(),
        ensures
            final(self).ready(),
            final(self).toks() == old(self).toks(),
            match (r, sp_parse_steps(old(self).toks(), old(self).pos())) {
                (Result::Ok(v), Result::Ok((sm, j))) => steps_model(v@) == sm && final(self).pos() == j && old(self).pos() <= j <= old(self).toks().len(),
                (Result::Err(e), Result::Err(m)) => e.message@ == m,
                _ => false,
            },
        decreases old(self).toks().len() - old(self).pos(), 3int,
    {
        let ghost toks = old(self).toks();
        let ghost p0 = old(self).pos();
        let mut steps: Vec<Step> = Vec::new();
        while !self.check(TokenType::RightBrace) && !self.is_at_end()
            invariant
                self.ready(),
                self.toks() == toks,
                p0 <= self.pos() <= toks.len(),
                sp_parse_steps(toks, p0) == (match sp_parse_steps(toks, self.pos()) {
                    Result::Ok((rest, k)) => Result::<(Seq<StepModel>, int), Seq<char>>::Ok(
                        (steps_model(steps@) + rest, k),
                    ),
                    Result::Err(m) => Result::<(Seq<StepModel>, int), Seq<char>>::Err(m),
                }),
            decreases toks.len() - self.pos(),
        {
            let ghost acc0 = steps@;
            let st = match self.parse_step() {
                Result::Err(e) => {
                    return Result::Err(e);
                },
                Result::Ok(v) => v,
            };
            steps.push(st);
            proof {
                lemma_steps_model_push(acc0, st);
                match sp_parse_steps(toks, self.pos()) {
                    Result::Ok((rest, k)) => {
                        assert(steps_model(acc0) + (seq![step_model(st)] + rest) =~= steps_model(
                            steps@,
                        ) + rest);
                    },
                    Result::Err(_) => {},
                }
            }
        }
        proof {
            assert(steps_model(steps@) + Seq::<StepModel>::empty() =~= steps_model(steps@));
        }
        Result::Ok(steps)
    }

    fn parse_conditional_statement(&mut self) -> (r: Result<ConditionalStatement, ParseError>)
        requires
            old(self).ready(),
        ensures
            final(self).ready(),
            final(self).toks() == old(self).toks(),
            match (r, sp_parse_conditional(old(self).toks(), old(self).pos())) {
                (Result::Ok(c), Result::Ok((cm, j))) => cond_model(c) == cm && final(self).pos()
                    == j && old(self).pos() < j <= old(self).toks().len(),
                (Result::Err(e), Result::Err(m)) => e.message@ == m,
                _ => false,
            },
        decreases old(self).toks().len() - old(self).pos(), 1int,
    {
        match self.consume(TokenType::If, "Expected 'if'") {
            Result::Err(e) => {
                return Result::Err(e);
            },
            Result::Ok(()) => (),
        }
        match self.consume(TokenType::LeftParen, "Expected '(' after 'if'") {
            Result::Err(e) => {
                return Result::Err(e);
            },
            Result::Ok(()) => (),
        }
        let condition = match self.parse_expression() {
            Result::Err(e) => {
                return Result::Err(e);
            },
            Result::Ok(v) => v,
        };
        match self.consume(TokenType::RightParen, "Expected ')' after condition") {
            Result::Err(e) => {
                return Result::Err(e);
            },
            Result::Ok(()) => (),
        }
        match self.consume(TokenType::LeftBrace, "Expected '{' after condition") {
            Result::Err(e) => {
                return Result::Err(e);
            },
            Result::Ok(()) => (),
        }
        let if_steps = match self.parse_steps() {
            Result::Err(e) => {
                return Result::Err(e);
            },
            Result::Ok(v) => v,
        };
        match self.consume(TokenType::RightBrace, "Expected '}' after if block") {
            Result::Err(e) => {
                return Result::Err(e);
            },
            Result::Ok(()) => (),
        }
        if self.check(TokenType::Else) {
            self.advance();
            match self.consume(TokenType::LeftBrace, "Expected '{' after 'else'") {
                Result::Err(e) => {
                    return Result::Err(e);
                },
                Result::Ok(()) => (),
            }
            let else_steps = match self.parse_steps() {
                Result::Err(e) => {
                    return Result::Err(e);
                },
                Result::Ok(v) => v,
            };
            match self.consume(TokenType::RightBrace, "Expected '}' after else block") {
                Result::Err(e) => {
                    return Result::Err(e);
                },
                Result::Ok(()) => (),
            }
            Result::Ok(
                ConditionalStatement { condition, if_steps, else_steps: Option::Some(else_steps) },
            )
        } else {
            Result::Ok(ConditionalStatement { condition, if_steps, else_steps: Option::None })
        }
    }

    fn parse_workflow(&mut self) -> (r: Result<Workflow, ParseError>)
        requires
            old(self).ready(),
        ensures
            final(self).ready(),
            final(self).toks() == old(self).toks(),
            match (r, sp_parse_workflow(old(self).toks(), old(self).pos())) {
                (Result::Ok(w), Result::Ok((wm, j))) => workflow_model(w) == wm && final(self).pos() == j && old(self).pos() < j <= old(self).toks().len(),
                (Result::Err(e), Result::Err(m)) => e.message@ == m,
                _ => false,
            },
    {
        match self.consume(TokenType::Workflow, "Expected 'workflow'") {
            Result::Err(e) => {
                return Result::Err(e);
            },
            Result::Ok(()) => (),
        }
        let name = match self.consume_string("Expected workflow name") {
            Result::Err(e) => {
                return Result::Err(e);
            },
            Result::Ok(v) => v,
        };
        match self.consume(TokenType::LeftBrace, "Expected '{' after workflow name") {
            Result::Err(e) => {
                return Result::Err(e);
            },
            Result::Ok(()) => (),
        }
        let steps = match self.parse_steps() {
            Result::Err(e) => {
                return Result::Err(e);
            },
            Result::Ok(v) => v,
        };
        match self.consume(TokenType::RightBrace, "Expected '}' after workflow body") {
            Result::Err(e) => {
                return Result::Err(e);
            },
            Result::Ok(()) => (),
        }
        Result::Ok(Workflow { name, steps })
    }

    /// Parses the whole token stream into a program: workflows and
    /// top-level variable declarations in any order, each kept in source
    /// order; the first failure ends parsing with no partial tree.
    #[verifier::loop_isolation(false)]
    pub fn parse(&mut self) -> (r: Result<Program, ParseError>)
        requires
            old(self).ready(),
        ensures
            final(self).toks() == old(self).toks(),
            match (r, sp_parse_program(old(self).toks(), old(self).pos())) {
                (Result::Ok(p), Result::Ok((pm, j))) => program_model(p) == pm && final(self).pos() == j,
                (Result::Err(e), Result::Err(m)) => e.message@ == m,
                _ => false,
            },
    {
        let ghost toks = old(self).toks();
        let ghost p0 = old(self).pos();
        let mut workflows: Vec<Workflow> = Vec::new();
        let mut variables: Vec<VariableDeclaration> = Vec::new();
        while !self.is_at_end()
            invariant
                self.ready(),
                self.toks() == toks,
                p0 <= self.pos() <= toks.len(),
                sp_parse_program(toks, p0) == (match sp_parse_program(toks, self.pos()) {
                    Result::Ok((p, k)) => Result::<(ProgramModel, int), Seq<char>>::Ok(
                        (
                            ProgramModel {
                                workflows: workflows_model(workflows@) + p.workflows,
                                variables: vardecls_model(variables@) + p.variables,
                            },
                            k,
                        ),
                    ),
                    Result::Err(m) => Result::<(ProgramModel, int), Seq<char>>::Err(m),
                }),
            decreases toks.len() - self.pos(),
        {
            let tt = self.peek_type();
            if tt == TokenType::Workflow {
                let ghost acc0 = workflows@;
                let w = match self.parse_workflow() {
                    Result::Err(e) => {
                        return Result::Err(e);
                    },
                    Result::Ok(v) => v,
                };
                workflows.push(w);
                proof {
                    lemma_workflows_model_push(acc0, w);
                    match sp_parse_program(toks, self.pos()) {
                        Result::Ok((p, k)) => {
                            assert(workflows_model(acc0) + (seq![workflow_model(w)] + p.workflows)
                                =~= workflows_model(workflows@) + p.workflows);
                        },
                        Result::Err(_) => {},
                    }
                }
            } else if tt == TokenType::Let || tt == TokenType::Var || tt == TokenType::Const {
                let ghost acc0 = variables@;
                let d = match self.parse_variable_declaration() {
                    Result::Err(e) => {
                        return Result::Err(e);
                    },
                    Result::Ok(v) => v,
                };
                variables.push(d);
                proof {
                    lemma_vardecls_model_push(acc0, d);
                    match sp_parse_program(toks, self.pos()) {
                        Result::Ok((p, k)) => {
                            assert(vardecls_model(acc0) + (seq![vardecl_model(d)] + p.variables)
                                =~= vardecls_model(variables@) + p.variables);
                        },
                        Result::Err(_) => {},
                    }
                }
            } else {
                return Result::Err(
                    ParseError { message: "Expected workflow or variable declaration".to_owned() },
                );
            }
        }
        proof {
            assert(workflows_model(workflows@) + Seq::<WorkflowModel>::empty() =~= workflows_model(
                workflows@,
            ));
            assert(vardecls_model(variables@) + Seq::<VarDeclModel>::empty() =~= vardecls_model(
                variables@,
            ));
        }
        Result::Ok(Program { workflows, variables })
    }
}

/// The integer value of a digit string, clamped to the range of `u32`.
fn clamp_id(ints: &Vec<char>) -> (r: u32)
    requires
        crate::decimal::all_digits(ints@),
    ensures
        r as nat == if digs_val(ints@) > u32::MAX as nat {
            u32::MAX as nat
        } else {
            digs_val(ints@)
        },
{
    let mut acc: u64 = 0;
    let mut i: usize = 0;
    while i < ints.len()
        invariant
            crate::decimal::all_digits(ints@),
            i <= ints@.len(),
            acc <= 0xFFFFFFFF * 10 + 9,
            digs_val(ints@.subrange(0, i as int)) <= u32::MAX as nat ==> acc as nat == digs_val(
                ints@.subrange(0, i as int),
            ),
            digs_val(ints@.subrange(0, i as int)) > u32::MAX as nat ==> acc > u32::MAX as u64,
        decreases ints@.len() - i,
    {
        let ghost pre = ints@.subrange(0, i as int);
        let c = ints[i];
        proof {
            assert(is_digit(ints@[i as int]));
        }
        let d = (c as u32) - 48;
        if acc <= u32::MAX as u64 {
            acc = acc * 10 + (d as u64);
        }
        i = i + 1;
        proof {
            let now = ints@.subrange(0, i as int);
            assert(now.drop_last() =~= pre);
            assert(now.last() == ints@[i - 1]);
            assert(digs_val(now) == digs_val(pre) * 10 + crate::decimal::digit_val(ints@[i - 1]));
        }
    }
    proof {
        assert(ints@.subrange(0, ints@.len() as int) =~= ints@);
    }
    if acc > u32::MAX as u64 {
        u32::MAX
    } else {
        acc as u32
    }
}

} // verus!
