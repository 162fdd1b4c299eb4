pub mod ast;
pub mod decimal;
pub mod executor;
pub mod lexer;
pub mod parser;
pub mod state;
pub mod strutil;
pub mod token;

use vstd::prelude::*;
use crate::ast::{
    Program, ProgramModel, program_model, StepModel, StepContentModel, WorkflowModel, Step,
    step_model, steps_model, workflows_model, lemma_steps_model_index,
    lemma_workflows_model_index,
};
use crate::decimal::{dec_str, u32_to_string};
use crate::strutil::str_eq;
use crate::executor::{
    Executor, RuntimeError, RunErrModel, err_model, run_err_msg, sp_exec_program,
};
use crate::lexer::{Lexer, LexError, lex_err_msg, sp_tokenize, toks_model, lemma_scan_stream_ok};
use crate::parser::{Parser, ParseError, sp_parse_program};
use crate::state::EState;
use crate::token::Token;

verus! {

/// Any error of the three phases: lexing, parsing or execution.
#[derive(Debug)]
pub enum DslError {
    Lex(LexError),
    Parse(ParseError),
    Runtime(RuntimeError),
}

/// Model of a pipeline error.
pub ghost enum DslErrModel {
    Lex(LexError),
    Parse(Seq<char>),
    Runtime(RunErrModel),
}

pub open spec fn dsl_err_model(e: DslError) -> DslErrModel {
    match e {
        DslError::Lex(le) => DslErrModel::Lex(le),
        DslError::Parse(pe) => DslErrModel::Parse(pe.message@),
        DslError::Runtime(re) => DslErrModel::Runtime(err_model(re)),
    }
}

/// The report a pipeline error carries.
pub open spec fn dsl_err_msg(e: DslErrModel) -> Seq<char> {
    match e {
        DslErrModel::Lex(le) => lex_err_msg(le),
        DslErrModel::Parse(m) => m,
        DslErrModel::Runtime(re) => run_err_msg(re),
    }
}

impl DslError {
    /// The error rendered for reporting.
    pub fn message(&self) -> (r: String)
        ensures
            r@ == dsl_err_msg(dsl_err_model(*self)),
    {
        match self {
            DslError::Lex(le) => le.message(),
            DslError::Parse(pe) => pe.message.clone(),
            DslError::Runtime(re) => re.message(),
        }
    }
}

/// What parsing a source text yields: its syntax tree, or the first
/// lexical or syntactic error.
pub open spec fn sp_parse_pipeline(src: Seq<char>) -> Result<ProgramModel, DslErrModel> {
    match sp_tokenize(src) {
        Result::Err(e) => Result::Err(DslErrModel::Lex(e)),
        Result::Ok(ms) => match sp_parse_program(ms, 0) {
            Result::Err(m) => Result::Err(DslErrModel::Parse(m)),
            Result::Ok((pm, _)) => Result::Ok(pm),
        },
    }
}

/// What running a source text yields: the final state of a fresh executor,
/// and the error that stopped the pipeline, if one did. A lexical or parse
/// error leaves the executor untouched; a runtime error keeps the trace
/// and results produced before it.
pub open spec fn sp_run_pipeline(src: Seq<char>) -> (EState, Option<DslErrModel>) {
    match sp_parse_pipeline(src) {
        Result::Err(e) => (EState::init(), Option::Some(e)),
        Result::Ok(pm) => {
            let run = sp_exec_program(pm, EState::init());
            (
                run.state,
                match run.err {
                    Option::Some(re) => Option::Some(DslErrModel::Runtime(re)),
                    Option::None => Option::None,
                },
            )
        },
    }
}

/// Tokenizes a source text.
pub fn tokenize_dsl(dsl_code: &str) -> (r: Result<Vec<Token>, LexError>)
    ensures
        match (r, sp_tokenize(dsl_code@)) {
            (Result::Ok(ts), Result::Ok(ms)) => toks_model(ts@) == ms,
            (Result::Err(e1), Result::Err(e2)) => e1 == e2,
            _ => false,
        },
{
    let mut lexer = Lexer::new(dsl_code);
    lexer.tokenize()
}

/// Parses a source text into its syntax tree, without executing it.
pub fn parse_dsl(dsl_code: &str) -> (r: Result<Program, DslError>)
    ensures
        match (r, sp_parse_pipeline(dsl_code@)) {
            (Result::Ok(p), Result::Ok(pm)) => program_model(p) == pm,
            (Result::Err(e), Result::Err(m)) => dsl_err_model(e) == m,
            _ => false,
        },
{
    let mut lexer = Lexer::new(dsl_code);
    let tokens = match lexer.tokenize() {
        Result::Err(e) => {
            return Result::Err(DslError::Lex(e));
        },
        Result::Ok(t) => t,
    };
    proof {
        lemma_scan_stream_ok(dsl_code@, 0, 1);
    }
    let mut parser = Parser::new(tokens);
    match parser.parse() {
        Result::Err(e) => Result::Err(DslError::Parse(e)),
        Result::Ok(p) => Result::Ok(p),
    }
}

/// Whether a source text is a well-formed program.
pub fn validate_dsl(dsl_code: &str) -> (r: bool)
    ensures
        r == sp_parse_pipeline(dsl_code@) is Ok,
{
    match parse_dsl(dsl_code) {
        Result::Ok(_) => true,
        Result::Err(_) => false,
    }
}

/// Tokenizes, parses and executes a source text on a fresh executor, and
/// hands the executor back with its trace and step results, beside the
/// error that stopped the pipeline, if one did.
pub fn run_dsl(dsl_code: &str) -> (r: (Executor, Option<DslError>))
    ensures
        ({
            let (st, err) = sp_run_pipeline(dsl_code@);
            r.0.st() == st && (match (r.1, err) {
                (Option::None, Option::None) => true,
                (Option::Some(e), Option::Some(m)) => dsl_err_model(e) == m,
                _ => false,
            })
        }),
{
    let mut executor = Executor::new();
    let mut lexer = Lexer::new(dsl_code);
    let tokens = match lexer.tokenize() {
        Result::Err(e) => {
            return (executor, Option::Some(DslError::Lex(e)));
        },
        Result::Ok(t) => t,
    };
    proof {
        lemma_scan_stream_ok(dsl_code@, 0, 1);
    }
    let mut parser = Parser::new(tokens);
    let ast = match parser.parse() {
        Result::Err(e) => {
            return (executor, Option::Some(DslError::Parse(e)));
        },
        Result::Ok(p) => p,
    };
    match executor.execute(&ast) {
        Result::Err(e) => (executor, Option::Some(DslError::Runtime(e))),
        Result::Ok(()) => (executor, Option::None),
    }
}


/// The human-readable note for one step: a short description of what the
/// step does, by its command name.
pub open spec fn sp_step_note(s: StepModel) -> Seq<char> {
    let head = "Step "@ + dec_str(s.id as nat);
    match s.content {
        StepContentModel::Command(c) => if c.name == "input"@ {
            head + ": Collect user input"@
        } else if c.name == "generate"@ {
            head + ": Generate AI content"@
        } else if c.name == "output"@ {
            head + ": Export results"@
        } else if c.name == "fetch"@ {
            head + ": Fetch data from URL"@
        } else if c.name == "transform"@ {
            head + ": Transform data"@
        } else if c.name == "validate"@ {
            head + ": Validate input"@
        } else {
            head + ": Execute "@ + c.name
        },
        StepContentModel::Conditional(_) => head + ": Conditional logic"@,
    }
}

/// The notes of a step sequence, in order.
pub open spec fn sp_step_notes(ss: Seq<StepModel>) -> Seq<Seq<char>>
    decreases ss.len(),
{
    if ss.len() == 0 {
        Seq::empty()
    } else {
        seq![sp_step_note(ss[0])] + sp_step_notes(ss.subrange(1, ss.len() as int))
    }
}

/// The notes of every workflow's steps, in workflow order.
pub open spec fn sp_program_notes(ws: Seq<WorkflowModel>) -> Seq<Seq<char>>
    decreases ws.len(),
{
    if ws.len() == 0 {
        Seq::empty()
    } else {
        sp_step_notes(ws[0].steps) + sp_program_notes(ws.subrange(1, ws.len() as int))
    }
}

/// Lines joined by single newlines.
pub open spec fn sp_join_lines(lines: Seq<Seq<char>>) -> Seq<char>
    decreases lines.len(),
{
    if lines.len() == 0 {
        Seq::empty()
    } else if lines.len() == 1 {
        lines[0]
    } else {
        lines[0] + "\n"@ + sp_join_lines(lines.subrange(1, lines.len() as int))
    }
}

proof fn lemma_join_lines_push(lines: Seq<Seq<char>>, x: Seq<char>)
    ensures
        sp_join_lines(lines.push(x)) == if lines.len() == 0 {
            x
        } else {
            (sp_join_lines(lines) + "\n"@ + x)
        },
    decreases lines.len(),
{
    let p = lines.push(x);
    if lines.len() == 0 {
        assert(p.len() == 1);
        assert(p[0] == x);
    } else {
        assert(p.subrange(1, p.len() as int) =~= lines.subrange(1, lines.len() as int).push(x));
        lemma_join_lines_push(lines.subrange(1, lines.len() as int), x);
        if lines.len() == 1 {
            assert(sp_join_lines(lines.subrange(1, lines.len() as int))
                == Seq::<char>::empty());
            assert(sp_join_lines(p) == p[0] + "\n"@ + x);
            assert(sp_join_lines(lines) == lines[0]);
        } else {
            assert(sp_join_lines(p) == p[0] + "\n"@ + (sp_join_lines(
                lines.subrange(1, lines.len() as int),
            ) + "\n"@ + x));
            assert(p[0] + "\n"@ + (sp_join_lines(lines.subrange(1, lines.len() as int)) + "\n"@
                + x) =~= (lines[0] + "\n"@ + sp_join_lines(
                lines.subrange(1, lines.len() as int),
            )) + "\n"@ + x);
        }
    }
}

proof fn lemma_step_notes_push(ss: Seq<StepModel>, x: StepModel)
    ensures
        sp_step_notes(ss.push(x)) == sp_step_notes(ss).push(sp_step_note(x)),
    decreases ss.len(),
{
    let p = ss.push(x);
    if ss.len() == 0 {
        assert(p.subrange(1, 1) =~= Seq::<StepModel>::empty());
        assert(sp_step_notes(Seq::<StepModel>::empty()) =~= Seq::<Seq<char>>::empty());
        assert(p[0] == x);
        assert(sp_step_notes(p) == seq![sp_step_note(x)] + sp_step_notes(p.subrange(1, 1)));
        assert(sp_step_notes(p) =~= sp_step_notes(ss).push(sp_step_note(x)));
    } else {
        assert(p.subrange(1, p.len() as int) =~= ss.subrange(1, ss.len() as int).push(x));
        lemma_step_notes_push(ss.subrange(1, ss.len() as int), x);
        assert(p[0] == ss[0]);
        assert(sp_step_notes(ss) == seq![sp_step_note(ss[0])] + sp_step_notes(
            ss.subrange(1, ss.len() as int),
        ));
        assert(sp_step_notes(p) =~= sp_step_notes(ss).push(sp_step_note(x)));
    }
}

/// The note one step gets in a human-readable summary.
fn step_note(step: &Step) -> (r: String)
    ensures
        r@ == sp_step_note(step_model(*step)),
{
    let mut head = "Step ".to_owned();
    let ds = u32_to_string(step.id);
    head.append(ds.as_str());
    match &step.content {
        crate::ast::StepContent::Command(c) => {
            let name = c.name.as_str();
            if str_eq(name, "input") {
                head.append(": Collect user input");
            } else if str_eq(name, "generate") {
                head.append(": Generate AI content");
            } else if str_eq(name, "output") {
                head.append(": Export results");
            } else if str_eq(name, "fetch") {
                head.append(": Fetch data from URL");
            } else if str_eq(name, "transform") {
                head.append(": Transform data");
            } else if str_eq(name, "validate") {
                head.append(": Validate input");
            } else {
                head.append(": Execute ");
                head.append(name);
            }
        },
        crate::ast::StepContent::Conditional(_) => {
            head.append(": Conditional logic");
        },
    }
    head
}

/// The fixed list of command names the executor's handler table knows or
/// reserves.
pub fn get_supported_commands() -> (r: Vec<String>)
    ensures
        r.deep_view() =~= seq![
            "fetch"@,
            "summarize"@,
            "send_email"@,
            "analyze"@,
            "filter"@,
            "transform"@,
            "store"@,
            "notify"@,
            "print"@,
            "log"@,
            "input"@,
            "generate"@,
            "output"@,
            "validate"@,
        ],
{
    let mut r: Vec<String> = Vec::new();
    r.push("fetch".to_owned());
    r.push("summarize".to_owned());
    r.push("send_email".to_owned());
    r.push("analyze".to_owned());
    r.push("filter".to_owned());
    r.push("transform".to_owned());
    r.push("store".to_owned());
    r.push("notify".to_owned());
    r.push("print".to_owned());
    r.push("log".to_owned());
    r.push("input".to_owned());
    r.push("generate".to_owned());
    r.push("output".to_owned());
    r.push("validate".to_owned());
    r
}

/// Parses a source text and describes each step of each workflow in one
/// human-readable line, joined by newlines.
#[verifier::loop_isolation(false)]
pub fn generate_human_steps(dsl_code: &str) -> (r: Result<String, DslError>)
    ensures
        match (r, sp_parse_pipeline(dsl_code@)) {
            (Result::Ok(text), Result::Ok(pm)) => text@ == sp_join_lines(
                sp_program_notes(pm.workflows),
            ),
            (Result::Err(e), Result::Err(m)) => dsl_err_model(e) == m,
            _ => false,
        },
{
    let ast = match parse_dsl(dsl_code) {
        Result::Err(e) => {
            return Result::Err(e);
        },
        Result::Ok(p) => p,
    };
    let ghost wm = workflows_model(ast.workflows@);
    proof {
        lemma_workflows_model_index(ast.workflows@);
    }
    let mut notes: Vec<String> = Vec::new();
    let mut i: usize = 0;
    while i < ast.workflows.len()
        invariant
            i <= ast.workflows@.len(),
            notes.deep_view() == sp_program_notes(wm.subrange(0, i as int)),
        decreases ast.workflows@.len() - i,
    {
        let ghost outer0 = notes.deep_view();
        let workflow = &ast.workflows[i];
        let ghost sm = steps_model(workflow.steps@);
        proof {
            lemma_steps_model_index(workflow.steps@);
        }
        let mut j: usize = 0;
        while j < workflow.steps.len()
            invariant
                j <= workflow.steps@.len(),
                sm == steps_model(workflow.steps@),
                sm.len() == workflow.steps@.len(),
                forall|q: int| 0 <= q < sm.len() ==> sm[q] == step_model(workflow.steps@[q]),
                notes.deep_view() == outer0 + sp_step_notes(sm.subrange(0, j as int)),
            decreases workflow.steps@.len() - j,
        {
            let ghost inner0 = notes.deep_view();
            let note = step_note(&workflow.steps[j]);
            notes.push(note);
            j = j + 1;
            proof {
                assert(sm.subrange(0, j as int) =~= sm.subrange(0, j - 1).push(sm[j - 1]));
                lemma_step_notes_push(sm.subrange(0, j - 1), sm[j - 1]);
                assert(notes.deep_view() =~= inner0.push(note@));
                assert(notes.deep_view() =~= outer0 + sp_step_notes(sm.subrange(0, j as int)));
            }
        }
        i = i + 1;
        proof {
            assert(sm.subrange(0, sm.len() as int) =~= sm);
            lemma_program_notes_snoc(wm, i as int);
            assert(notes.deep_view() =~= sp_program_notes(wm.subrange(0, i as int)));
        }
    }
    proof {
        assert(wm.subrange(0, wm.len() as int) =~= wm);
    }
    let mut out = String::new();
    let mut k: usize = 0;
    proof {
        assert(notes.deep_view().subrange(0, 0) =~= Seq::<Seq<char>>::empty());
    }
    while k < notes.len()
        invariant
            k <= notes@.len(),
            out@ == sp_join_lines(notes.deep_view().subrange(0, k as int)),
        decreases notes@.len() - k,
    {
        if k > 0 {
            out.append("\n");
        }
        out.append(notes[k].as_str());
        proof {
            let dv = notes.deep_view();
            assert(dv.subrange(0, (k + 1) as int) =~= dv.subrange(0, k as int).push(
                dv[k as int],
            ));
            lemma_join_lines_push(dv.subrange(0, k as int), dv[k as int]);
            assert(dv[k as int] == notes@[k as int]@);
        }
        k = k + 1;
    }
    proof {
        assert(notes.deep_view().subrange(0, notes@.len() as int) =~= notes.deep_view());
    }
    Result::Ok(out)
}

proof fn lemma_program_notes_snoc(ws: Seq<WorkflowModel>, i: int)
    requires
        0 < i <= ws.len(),
    ensures
        sp_program_notes(ws.subrange(0, i)) == sp_program_notes(ws.subrange(0, i - 1))
            + sp_step_notes(ws[i - 1].steps),
    decreases i,
{
    if i == 1 {
        let p = ws.subrange(0, 1);
        assert(p.subrange(1, 1) =~= Seq::<WorkflowModel>::empty());
        assert(p[0] == ws[0]);
        assert(sp_program_notes(Seq::<WorkflowModel>::empty()) =~= Seq::<Seq<char>>::empty());
        assert(sp_program_notes(p) == sp_step_notes(p[0].steps) + sp_program_notes(
            p.subrange(1, 1),
        ));
        assert(sp_program_notes(p) =~= Seq::<Seq<char>>::empty() + sp_step_notes(ws[0].steps));
        assert(sp_program_notes(ws.subrange(0, 0)) =~= Seq::<Seq<char>>::empty());
        assert(sp_program_notes(p) =~= sp_program_notes(ws.subrange(0, 0)) + sp_step_notes(
            ws[0].steps,
        ));
    } else {
        let p = ws.subrange(0, i);
        let q = ws.subrange(0, i - 1);
        assert(p.subrange(1, p.len() as int) =~= ws.subrange(1, ws.len() as int).subrange(
            0,
            i - 1,
        ));
        assert(q.subrange(1, q.len() as int) =~= ws.subrange(1, ws.len() as int).subrange(
            0,
            i - 2,
        ));
        lemma_program_notes_snoc(ws.subrange(1, ws.len() as int), i - 1);
        assert(p[0] == ws[0]);
        assert(q[0] == ws[0]);
        assert(ws.subrange(1, ws.len() as int)[i - 2] == ws[i - 1]);
        assert(sp_step_notes(p[0].steps) + (sp_program_notes(
            ws.subrange(1, ws.len() as int).subrange(0, i - 2),
        ) + sp_step_notes(ws[i - 1].steps)) =~= (sp_step_notes(q[0].steps) + sp_program_notes(
            ws.subrange(1, ws.len() as int).subrange(0, i - 2),
        )) + sp_step_notes(ws[i - 1].steps));
    }
}

/// Tokenizing and parsing read nothing but the source text: equal sources
/// always yield structurally equal token sequences and syntax trees, and
/// running them produces identical outcomes.
pub proof fn lemma_pipeline_deterministic(s1: Seq<char>, s2: Seq<char>)
    requires
        s1 == s2,
    ensures
        sp_tokenize(s1) == sp_tokenize(s2),
        sp_parse_pipeline(s1) == sp_parse_pipeline(s2),
        sp_run_pipeline(s1) == sp_run_pipeline(s2),
{
}

} // verus!
