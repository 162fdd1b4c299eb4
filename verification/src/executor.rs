use vstd::prelude::*;
use crate::ast::{
    ExprModel, CommandModel, ConditionalModel, StepContentModel, StepModel, WorkflowModel,
    VarDeclModel, ProgramModel, Expression, Command, ConditionalStatement, StepContent, Step,
    Workflow, VariableDeclaration, Program, expr_model, exprs_model, command_model, cond_model,
    step_model, steps_model, workflow_model, workflows_model, vardecl_model,
    vardecls_model, program_model, lemma_steps_model_index, lemma_exprs_model_index,
    lemma_workflows_model_index, lemma_vardecls_model_index,
};

use crate::state::{
    StepResult, ResultModel, res_model, EState, env_of, results_of, lemma_env_last_match,
    lemma_env_no_match, lemma_results_last_match, lemma_results_no_match,
};
use crate::decimal::{dec_str, dec_lt, u32_to_string, bool_to_string, dec_cmp, DecOrder};
use crate::strutil::{str_eq, join_spaced, sp_join};

verus! {

// ---------------------------------------------------------------------------
// Runtime errors
// ---------------------------------------------------------------------------
/// A fatal evaluation error: it aborts the whole program's execution, after
/// whatever trace lines and step results were already produced.
#[derive(Debug)]
pub enum RuntimeError {
    UndefinedVariable(String),
    StepNotFound(u32),
    UnknownBinaryOperator(String),
    UnknownComparisonOperator(String),
}

/// Model of a runtime error, over character sequences.
pub ghost enum RunErrModel {
    UndefinedVariable(Seq<char>),
    StepNotFound(u32),
    UnknownBinaryOperator(Seq<char>),
    UnknownComparisonOperator(Seq<char>),
}

pub open spec fn err_model(e: RuntimeError) -> RunErrModel {
    match e {
        RuntimeError::UndefinedVariable(n) => RunErrModel::UndefinedVariable(n@),
        RuntimeError::StepNotFound(id) => RunErrModel::StepNotFound(id),
        RuntimeError::UnknownBinaryOperator(op) => RunErrModel::UnknownBinaryOperator(op@),
        RuntimeError::UnknownComparisonOperator(op) => RunErrModel::UnknownComparisonOperator(op@),
    }
}

/// The report a runtime error carries.
pub open spec fn run_err_msg(e: RunErrModel) -> Seq<char> {
    match e {
        RunErrModel::UndefinedVariable(n) => "Undefined variable: "@ + n,
        RunErrModel::StepNotFound(id) => "Step "@ + dec_str(id as nat) + " not found"@,
        RunErrModel::UnknownBinaryOperator(op) => "Unknown binary operator: "@ + op,
        RunErrModel::UnknownComparisonOperator(op) => "Unknown comparison operator: "@ + op,
    }
}

impl RuntimeError {
    /// The error rendered for reporting.
    pub fn message(&self) -> (r: String)
        ensures
            r@ == run_err_msg(err_model(*self)),
    {
        match self {
            RuntimeError::UndefinedVariable(n) => {
                let mut m = "Undefined variable: ".to_owned();
                m.append(n.as_str());
                m
            },
            RuntimeError::StepNotFound(id) => {
                let mut m = "Step ".to_owned();
                let ds = u32_to_string(*id);
                m.append(ds.as_str());
                m.append(" not found");
                m
            },
            RuntimeError::UnknownBinaryOperator(op) => {
                let mut m = "Unknown binary operator: ".to_owned();
                m.append(op.as_str());
                m
            },
            RuntimeError::UnknownComparisonOperator(op) => {
                let mut m = "Unknown comparison operator: ".to_owned();
                m.append(op.as_str());
                m
            },
        }
    }
}

/// The outcome of running part of a program: the state afterwards, and the
/// fatal error that stopped the run, if one did.
pub ghost struct ERun {
    pub state: EState,
    pub err: Option<RunErrModel>,
}

// ---------------------------------------------------------------------------
// Expression evaluation
// ---------------------------------------------------------------------------
/// What a step reference reads from a recorded result: status, data,
/// message or success by name, and data for no or an unrecognized name.
pub open spec fn ref_read(res: ResultModel, property: Option<Seq<char>>) -> Seq<char> {
    match property {
        Option::Some(p) => if p == "status"@ {
            dec_str(res.status as nat)
        } else if p == "data"@ {
            res.data
        } else if p == "message"@ {
            res.message
        } else if p == "success"@ {
            if res.success {
                "true"@
            } else {
                "false"@
            }
        } else {
            res.data
        },
        Option::None => res.data,
    }
}

/// The string value of an expression in a given state. Evaluation is pure:
/// it reads the environment and the result table and changes neither.
pub open spec fn sp_eval(e: ExprModel, st: EState) -> Result<Seq<char>, RunErrModel>
    decreases e,
{
    match e {
        ExprModel::StringLiteral(v) => Result::Ok(v),
        ExprModel::NumberLiteral(v) => Result::Ok(v),
        ExprModel::Identifier(n) => if st.env.contains_key(n) {
            Result::Ok(st.env[n])
        } else {
            Result::Err(RunErrModel::UndefinedVariable(n))
        },
        ExprModel::BinaryExpression { left, operator, right } => match sp_eval(*left, st) {
            Result::Err(m) => Result::Err(m),
            Result::Ok(lv) => match sp_eval(*right, st) {
                Result::Err(m) => Result::Err(m),
                Result::Ok(rv) => if operator == "+"@ {
                    Result::Ok(lv + rv)
                } else {
                    Result::Err(RunErrModel::UnknownBinaryOperator(operator))
                },
            },
        },
        ExprModel::PropertyAccess { object, property } => match sp_eval(*object, st) {
            Result::Err(m) => Result::Err(m),
            Result::Ok(ov) => Result::Ok(ov + "."@ + property),
        },
        ExprModel::StepReference { step_id, property } => if st.results.contains_key(step_id) {
            Result::Ok(ref_read(st.results[step_id], property))
        } else {
            Result::Err(RunErrModel::StepNotFound(step_id))
        },
    }
}

/// The values of an argument list, evaluated left to right; the first
/// error aborts.
pub open spec fn sp_eval_args(args: Seq<ExprModel>, st: EState) -> Result<
    Seq<Seq<char>>,
    RunErrModel,
>
    decreases args,
{
    if args.len() == 0 {
        Result::Ok(Seq::empty())
    } else {
        match sp_eval(args[0], st) {
            Result::Err(m) => Result::Err(m),
            Result::Ok(v) => match sp_eval_args(args.subrange(1, args.len() as int), st) {
                Result::Err(m) => Result::Err(m),
                Result::Ok(rest) => Result::Ok(seq![v] + rest),
            },
        }
    }
}

/// A string counts as true unless it is empty, "0" or "false".
pub open spec fn sp_truthy(v: Seq<char>) -> bool {
    v != ""@ && v != "0"@ && v != "false"@
}

/// The truth value of a condition. A binary expression compares its two
/// evaluated operands: as strings under `==` and `!=`, and as decimal
/// numbers under the order operators, an unparsable operand counting as
/// zero. Any other expression is evaluated and tested for truthiness.
pub open spec fn sp_eval_condition(e: ExprModel, st: EState) -> Result<bool, RunErrModel> {
    match e {
        ExprModel::BinaryExpression { left, operator, right } => match sp_eval(*left, st) {
            Result::Err(m) => Result::Err(m),
            Result::Ok(lv) => match sp_eval(*right, st) {
                Result::Err(m) => Result::Err(m),
                Result::Ok(rv) => if operator == "=="@ {
                    Result::Ok(lv == rv)
                } else if operator == "!="@ {
                    Result::Ok(lv != rv)
                } else if operator == ">"@ {
                    Result::Ok(dec_lt(rv, lv))
                } else if operator == "<"@ {
                    Result::Ok(dec_lt(lv, rv))
                } else if operator == ">="@ {
                    Result::Ok(!dec_lt(lv, rv))
                } else if operator == "<="@ {
                    Result::Ok(!dec_lt(rv, lv))
                } else {
                    Result::Err(RunErrModel::UnknownComparisonOperator(operator))
                },
            },
        },
        _ => match sp_eval(e, st) {
            Result::Err(m) => Result::Err(m),
            Result::Ok(v) => Result::Ok(sp_truthy(v)),
        },
    }
}

// ---------------------------------------------------------------------------
// Command dispatch
// ---------------------------------------------------------------------------
/// The argument at an index, or a default when the list is shorter.
pub open spec fn arg_or(args: Seq<Seq<char>>, i: int, dflt: Seq<char>) -> Seq<char> {
    if i < args.len() {
        args[i]
    } else {
        dflt
    }
}

/// What a command does with its evaluated arguments: the step result it
/// records and the trace line it emits. Every handler is a pure function of
/// the argument list; a name absent from the table yields a failed result
/// with status 400, not a fatal error.
pub open spec fn sp_dispatch(name: Seq<char>, args: Seq<Seq<char>>) -> (ResultModel, Seq<char>) {
    if name == "print"@ {
        (
            ResultModel {
                success: true,
                data: sp_join(args),
                status: 200,
                message: "Print executed successfully"@,
            },
            "Print: "@ + sp_join(args),
        )
    } else if name == "log"@ {
        (
            ResultModel {
                success: true,
                data: sp_join(args),
                status: 200,
                message: "Log executed successfully"@,
            },
            "Log: "@ + sp_join(args),
        )
    } else if name == "fetch"@ {
        (
            ResultModel {
                success: true,
                data: "{\"data\": \"Sample data from "@ + arg_or(
                    args,
                    0,
                    "https://api.example.com"@,
                ) + "\"}"@,
                status: 200,
                message: "Fetch completed successfully"@,
            },
            "Fetch: "@ + arg_or(args, 0, "https://api.example.com"@),
        )
    } else if name == "send_email"@ {
        (
            ResultModel {
                success: true,
                data: "Email sent to "@ + arg_or(args, 0, "user@example.com"@),
                status: 200,
                message: "Email sent successfully"@,
            },
            "Send Email: "@ + arg_or(args, 0, "user@example.com"@) + " - "@ + arg_or(
                args,
                1,
                "Notification"@,
            ),
        )
    } else if name == "notify"@ {
        (
            ResultModel {
                success: true,
                data: sp_join(args),
                status: 200,
                message: "Notification sent successfully"@,
            },
            "Notify: "@ + sp_join(args),
        )
    } else if name == "input"@ {
        (
            ResultModel {
                success: true,
                data: "{\"variable\": \""@ + arg_or(args, 0, "user_input"@) + "\", \"type\": \""@
                    + arg_or(args, 1, "text"@) + "\", \"placeholder\": \""@ + arg_or(
                    args,
                    2,
                    "Enter value"@,
                ) + "\"}"@,
                status: 200,
                message: "Input collected successfully"@,
            },
            "Input: Collect '"@ + arg_or(args, 0, "user_input"@) + "' as "@ + arg_or(
                args,
                1,
                "text"@,
            ) + " ("@ + arg_or(args, 2, "Enter value"@) + ")"@,
        )
    } else if name == "generate"@ {
        (
            ResultModel {
                success: true,
                data: "{\"content\": \"Generated content for: "@ + arg_or(
                    args,
                    0,
                    "Generate content"@,
                ) + "\", \"model\": \""@ + arg_or(args, 1, "mistral-small-latest"@)
                    + "\", \"temperature\": \""@ + arg_or(args, 2, "0.7"@) + "\"}"@,
                status: 200,
                message: "Content generated successfully"@,
            },
            "Generate: Using "@ + arg_or(args, 1, "mistral-small-latest"@) + " (temp: "@ + arg_or(
                args,
                2,
                "0.7"@,
            ) + ") with prompt: '"@ + arg_or(args, 0, "Generate content"@) + "'"@,
        )
    } else if name == "output"@ {
        (
            ResultModel {
                success: true,
                data: "{\"exported\": \""@ + arg_or(args, 0, "data"@) + "\", \"format\": \""@
                    + arg_or(args, 1, "text"@) + "\", \"file\": \""@ + arg_or(args, 2, "output"@)
                    + "\"}"@,
                status: 200,
                message: "Output exported successfully"@,
            },
            "Output: Export "@ + arg_or(args, 0, "data"@) + " as "@ + arg_or(args, 1, "text"@)
                + " to "@ + arg_or(args, 2, "output"@),
        )
    } else if name == "transform"@ {
        (
            ResultModel {
                success: true,
                data: "{\"transformed\": \""@ + arg_or(args, 0, "data"@) + "\", \"type\": \""@
                    + arg_or(args, 1, "format"@) + "\"}"@,
                status: 200,
                message: "Data transformed successfully"@,
            },
            "Transform: Apply "@ + arg_or(args, 1, "format"@) + " to "@ + arg_or(args, 0, "data"@),
        )
    } else if name == "validate"@ {
        (
            ResultModel {
                success: true,
                data: "{\"validated\": \""@ + arg_or(args, 0, "data"@) + "\", \"type\": \""@
                    + arg_or(args, 1, "required"@) + "\", \"valid\": true}"@,
                status: 200,
                message: "Validation completed successfully"@,
            },
            "Validate: Check "@ + arg_or(args, 0, "data"@) + " for "@ + arg_or(
                args,
                1,
                "required"@,
            ),
        )
    } else {
        (
            ResultModel {
                success: false,
                data: ""@,
                status: 400,
                message: "Unknown command: "@ + name,
            },
            "Unknown command: "@ + name,
        )
    }
}

// ---------------------------------------------------------------------------
// Program execution
// ---------------------------------------------------------------------------
/// Runs one command step: evaluates its arguments, dispatches, and records
/// the result under the step's id, overwriting any prior result for it.
pub open spec fn sp_exec_command(id: u32, c: CommandModel, st: EState) -> ERun {
    match sp_eval_args(c.arguments, st) {
        Result::Err(m) => ERun { state: st, err: Option::Some(m) },
        Result::Ok(vals) => {
            let (res, line) = sp_dispatch(c.name, vals);
            ERun {
                state: EState {
                    env: st.env,
                    results: st.results.insert(id, res),
                    trace: st.trace.push(line),
                },
                err: Option::None,
            }
        },
    }
}

/// Runs one step: traces it, then runs its command or conditional.
pub open spec fn sp_exec_step(s: StepModel, st: EState) -> ERun
    decreases s, 0int,
{
    let st1 = EState {
        env: st.env,
        results: st.results,
        trace: st.trace.push("Step "@ + dec_str(s.id as nat)),
    };
    match s.content {
        StepContentModel::Command(c) => sp_exec_command(s.id, c, st1),
        StepContentModel::Conditional(c) => sp_exec_conditional(c, st1),
    }
}

/// Runs a conditional: evaluates the condition, then the if-branch steps
/// when it is true, else the else-branch steps when present.
pub open spec fn sp_exec_conditional(c: ConditionalModel, st: EState) -> ERun
    decreases c, 1int,
{
    match sp_eval_condition(c.condition, st) {
        Result::Err(m) => ERun { state: st, err: Option::Some(m) },
        Result::Ok(true) => {
            let st1 = EState {
                env: st.env,
                results: st.results,
                trace: st.trace.push("Condition is true, executing if block"@),
            };
            sp_exec_steps(c.if_steps, st1)
        },
        Result::Ok(false) => {
            let st1 = EState {
                env: st.env,
                results: st.results,
                trace: st.trace.push("Condition is false"@),
            };
            match c.else_steps {
                Option::Some(es) => {
                    let st2 = EState {
                        env: st1.env,
                        results: st1.results,
                        trace: st1.trace.push("Executing else block"@),
                    };
                    sp_exec_steps(es, st2)
                },
                Option::None => ERun { state: st1, err: Option::None },
            }
        },
    }
}

/// Runs steps in order, stopping at the first fatal error.
pub open spec fn sp_exec_steps(ss: Seq<StepModel>, st: EState) -> ERun
    decreases ss, 2int,
{
    if ss.len() == 0 {
        ERun { state: st, err: Option::None }
    } else {
        let r = sp_exec_step(ss[0], st);
        match r.err {
            Option::Some(_) => r,
            Option::None => sp_exec_steps(ss.subrange(1, ss.len() as int), r.state),
        }
    }
}

/// Runs one variable declaration: evaluates the value and binds it,
/// overwriting any prior binding of the name.
pub open spec fn sp_exec_var(d: VarDeclModel, st: EState) -> ERun {
    match sp_eval(d.value, st) {
        Result::Err(m) => ERun { state: st, err: Option::Some(m) },
        Result::Ok(v) => ERun {
            state: EState {
                env: st.env.insert(d.name, v),
                results: st.results,
                trace: st.trace.push("Variable '"@ + d.name + "' = '"@ + v + "'"@),
            },
            err: Option::None,
        },
    }
}

pub open spec fn sp_exec_vars(ds: Seq<VarDeclModel>, st: EState) -> ERun
    decreases ds,
{
    if ds.len() == 0 {
        ERun { state: st, err: Option::None }
    } else {
        let r = sp_exec_var(ds[0], st);
        match r.err {
            Option::Some(_) => r,
            Option::None => sp_exec_vars(ds.subrange(1, ds.len() as int), r.state),
        }
    }
}

/// Runs one workflow: traces its name, then runs its steps in order.
pub open spec fn sp_exec_workflow(w: WorkflowModel, st: EState) -> ERun {
    let st1 = EState {
        env: st.env,
        results: st.results,
        trace: st.trace.push("Executing workflow: "@ + w.name),
    };
    sp_exec_steps(w.steps, st1)
}

pub open spec fn sp_exec_workflows(ws: Seq<WorkflowModel>, st: EState) -> ERun
    decreases ws,
{
    if ws.len() == 0 {
        ERun { state: st, err: Option::None }
    } else {
        let r = sp_exec_workflow(ws[0], st);
        match r.err {
            Option::Some(_) => r,
            Option::None => sp_exec_workflows(ws.subrange(1, ws.len() as int), r.state),
        }
    }
}

/// Runs a whole program: all top-level variable declarations in declaration
/// order, then each workflow in declaration order. A fatal error aborts the
/// run, keeping the trace and results produced before it.
pub open spec fn sp_exec_program(p: ProgramModel, st: EState) -> ERun {
    let r = sp_exec_vars(p.variables, st);
    match r.err {
        Option::Some(_) => r,
        Option::None => sp_exec_workflows(p.workflows, r.state),
    }
}

// ---------------------------------------------------------------------------
// The executor
// ---------------------------------------------------------------------------
/// Tree-walking evaluator over one program: owns the variable environment,
/// the step-result table and the trace for one run.
pub struct Executor {
    variables: Vec<(String, String)>,
    step_results: Vec<(u32, StepResult)>,
    trace: Vec<String>,
}

impl Executor {
    /// The state of this run: environment, result table and trace.
    pub closed spec fn st(&self) -> EState {
        EState {
            env: env_of(self.variables@),
            results: results_of(self.step_results@),
            trace: self.trace.deep_view(),
        }
    }

    /// A fresh executor with an empty environment, an empty result table
    /// and an empty trace.
    pub fn new() -> (r: Executor)
        ensures
            r.st() == EState::init(),
    {
        let r = Executor { variables: Vec::new(), step_results: Vec::new(), trace: Vec::new() };
        proof {
            assert(r.trace.deep_view() =~= Seq::<Seq<char>>::empty());
        }
        r
    }

    /// The trace produced so far, one human-readable line per event.
    pub fn trace_lines(&self) -> (r: &Vec<String>)
        ensures
            r.deep_view() == self.st().trace,
    {
        &self.trace
    }

    /// The current value of a variable, if one is bound.
    pub fn get_variable(&self, name: &str) -> (r: Option<String>)
        ensures
            match r {
                Option::Some(v) => self.st().env.contains_key(name@) && v@ == self.st().env[name@],
                Option::None => !self.st().env.contains_key(name@),
            },
    {
        let mut i: usize = self.variables.len();
        while i > 0
            invariant
                i <= self.variables@.len(),
                forall|j: int| i <= j < self.variables@.len() ==> self.variables@[j].0@ != name@,
            decreases i,
        {
            i = i - 1;
            if str_eq(self.variables[i].0.as_str(), name) {
                proof {
                    lemma_env_last_match(self.variables@, name@, i as int);
                }
                return Option::Some(self.variables[i].1.clone());
            }
        }
        proof {
            lemma_env_no_match(self.variables@, name@);
        }
        Option::None
    }

    /// The recorded result of a step, if the step has executed.
    pub fn get_step_result(&self, step_id: u32) -> (r: Option<&StepResult>)
        ensures
            match r {
                Option::Some(res) => self.st().results.contains_key(step_id) && res_model(*res)
                    == self.st().results[step_id],
                Option::None => !self.st().results.contains_key(step_id),
            },
    {
        let mut i: usize = self.step_results.len();
        while i > 0
            invariant
                i <= self.step_results@.len(),
                forall|j: int|
                    i <= j < self.step_results@.len() ==> self.step_results@[j].0 != step_id,
            decreases i,
        {
            i = i - 1;
            if self.step_results[i].0 == step_id {
                proof {
                    lemma_results_last_match(self.step_results@, step_id, i as int);
                }
                return Option::Some(&self.step_results[i].1);
            }
        }
        proof {
            lemma_results_no_match(self.step_results@, step_id);
        }
        Option::None
    }

    fn push_trace(&mut self, line: String)
        ensures
            final(self).st() == (EState {
                env: old(self).st().env,
                results: old(self).st().results,
                trace: old(self).st().trace.push(line@),
            }),
    {
        self.trace.push(line);
        proof {
            assert(self.trace.deep_view() =~= old(self).trace.deep_view().push(
                self.trace@[self.trace@.len() - 1]@,
            ));
        }
    }

    fn set_var(&mut self, name: String, value: String)
        ensures
            final(self).st() == (EState {
                env: old(self).st().env.insert(name@, value@),
                results: old(self).st().results,
                trace: old(self).st().trace,
            }),
    {
        let ghost before = self.variables@;
        self.variables.push((name, value));
        proof {
            assert(self.variables@.drop_last() =~= before);
        }
    }

    fn set_result(&mut self, step_id: u32, result: StepResult)
        ensures
            final(self).st() == (EState {
                env: old(self).st().env,
                results: old(self).st().results.insert(step_id, res_model(result)),
                trace: old(self).st().trace,
            }),
    {
        let ghost before = self.step_results@;
        self.step_results.push((step_id, result));
        proof {
            assert(self.step_results@.drop_last() =~= before);
        }
    }

    /// Evaluates an expression to its string value. Evaluation is pure: it
    /// reads the environment and the result table and mutates neither.
    pub fn evaluate_expression(&self, expression: &Expression) -> (r: Result<String, RuntimeError>)
        ensures
            match (r, sp_eval(expr_model(*expression), self.st())) {
                (Result::Ok(v), Result::Ok(m)) => v@ == m,
                (Result::Err(e), Result::Err(m)) => err_model(e) == m,
                _ => false,
            },
        decreases *expression,
    {
        match expression {
            Expression::StringLiteral(value) => Result::Ok(value.clone()),
            Expression::NumberLiteral(value) => Result::Ok(value.clone()),
            Expression::Identifier(name) => {
                match self.get_variable(name.as_str()) {
                    Option::Some(v) => Result::Ok(v),
                    Option::None => Result::Err(RuntimeError::UndefinedVariable(name.clone())),
                }
            },
            Expression::BinaryExpression { left, operator, right } => {
                let lv = match self.evaluate_expression(&**left) {
                    Result::Err(e) => {
                        return Result::Err(e);
                    },
                    Result::Ok(v) => v,
                };
                let rv = match self.evaluate_expression(&**right) {
                    Result::Err(e) => {
                        return Result::Err(e);
                    },
                    Result::Ok(v) => v,
                };
                if str_eq(operator.as_str(), "+") {
                    let mut out = lv;
                    out.append(rv.as_str());
                    Result::Ok(out)
                } else {
                    Result::Err(RuntimeError::UnknownBinaryOperator(operator.clone()))
                }
            },
            Expression::PropertyAccess { object, property } => {
                let ov = match self.evaluate_expression(&**object) {
                    Result::Err(e) => {
                        return Result::Err(e);
                    },
                    Result::Ok(v) => v,
                };
                let mut out = ov;
                out.append(".");
                out.append(property.as_str());
                Result::Ok(out)
            },
            Expression::StepReference { step_id, property } => {
                match self.get_step_result(*step_id) {
                    Option::None => Result::Err(RuntimeError::StepNotFound(*step_id)),
                    Option::Some(result) => {
                        match property {
                            Option::Some(p) => {
                                if str_eq(p.as_str(), "status") {
                                    Result::Ok(u32_to_string(result.status))
                                } else if str_eq(p.as_str(), "data") {
                                    Result::Ok(result.data.clone())
                                } else if str_eq(p.as_str(), "message") {
                                    Result::Ok(result.message.clone())
                                } else if str_eq(p.as_str(), "success") {
                                    Result::Ok(bool_to_string(result.success))
                                } else {
                                    Result::Ok(result.data.clone())
                                }
                            },
                            Option::None => Result::Ok(result.data.clone()),
                        }
                    },
                }
            },
        }
    }

    /// Evaluates a condition to a truth value, comparing binary operands as
    /// strings or as decimal numbers by operator.
    pub fn evaluate_condition(&self, condition: &Expression) -> (r: Result<bool, RuntimeError>)
        ensures
            match (r, sp_eval_condition(expr_model(*condition), self.st())) {
                (Result::Ok(b), Result::Ok(m)) => b == m,
                (Result::Err(e), Result::Err(m)) => err_model(e) == m,
                _ => false,
            },
    {
        match condition {
            Expression::BinaryExpression { left, operator, right } => {
                let lv = match self.evaluate_expression(&**left) {
                    Result::Err(e) => {
                        return Result::Err(e);
                    },
                    Result::Ok(v) => v,
                };
                let rv = match self.evaluate_expression(&**right) {
                    Result::Err(e) => {
                        return Result::Err(e);
                    },
                    Result::Ok(v) => v,
                };
                if str_eq(operator.as_str(), "==") {
                    Result::Ok(str_eq(lv.as_str(), rv.as_str()))
                } else if str_eq(operator.as_str(), "!=") {
                    Result::Ok(!str_eq(lv.as_str(), rv.as_str()))
                } else if str_eq(operator.as_str(), ">") {
                    Result::Ok(dec_cmp(rv.as_str(), lv.as_str()) == DecOrder::Less)
                } else if str_eq(operator.as_str(), "<") {
                    Result::Ok(dec_cmp(lv.as_str(), rv.as_str()) == DecOrder::Less)
                } else if str_eq(operator.as_str(), ">=") {
                    Result::Ok(!(dec_cmp(lv.as_str(), rv.as_str()) == DecOrder::Less))
                } else if str_eq(operator.as_str(), "<=") {
                    Result::Ok(!(dec_cmp(rv.as_str(), lv.as_str()) == DecOrder::Less))
                } else {
                    Result::Err(RuntimeError::UnknownComparisonOperator(operator.clone()))
                }
            },
            _ => {
                let v = match self.evaluate_expression(condition) {
                    Result::Err(e) => {
                        return Result::Err(e);
                    },
                    Result::Ok(v) => v,
                };
                let truthy = !str_eq(v.as_str(), "") && !str_eq(v.as_str(), "0") && !str_eq(
                    v.as_str(),
                    "false",
                );
                Result::Ok(truthy)
            },
        }
    }

    /// Evaluates a command's arguments left to right; the first error
    /// aborts.
    fn evaluate_arguments(&self, arguments: &Vec<Expression>) -> (r: Result<
        Vec<String>,
        RuntimeError,
    >)
        ensures
            match (r, sp_eval_args(exprs_model(arguments@), self.st())) {
                (Result::Ok(v), Result::Ok(m)) => v.deep_view() == m,
                (Result::Err(e), Result::Err(m)) => err_model(e) == m,
                _ => false,
            },
    {
        let ghost am = exprs_model(arguments@);
        proof {
            lemma_exprs_model_index(arguments@);
        }
        proof {
            assert(am.subrange(0, am.len() as int) =~= am);
            assert(Seq::<Seq<char>>::empty() + (match sp_eval_args(am, self.st()) {
                Result::Ok(m) => m,
                Result::Err(_) => Seq::<Seq<char>>::empty(),
            }) =~= (match sp_eval_args(am, self.st()) {
                Result::Ok(m) => m,
                Result::Err(_) => Seq::<Seq<char>>::empty(),
            }));
        }
        let mut vals: Vec<String> = Vec::new();
        let mut i: usize = 0;
        while i < arguments.len()
            invariant
                am == exprs_model(arguments@),
                am.len() == arguments@.len(),
                forall|j: int| 0 <= j < am.len() ==> am[j] == expr_model(arguments@[j]),
                i <= arguments@.len(),
                sp_eval_args(am, self.st()) == (match sp_eval_args(
                    am.subrange(i as int, am.len() as int),
                    self.st(),
                ) {
                    Result::Ok(rest) => Result::<Seq<Seq<char>>, RunErrModel>::Ok(
                        vals.deep_view() + rest,
                    ),
                    Result::Err(m) => Result::<Seq<Seq<char>>, RunErrModel>::Err(m),
                }),
            decreases arguments@.len() - i,
        {
            let ghost sub = am.subrange(i as int, am.len() as int);
            let v = match self.evaluate_expression(&arguments[i]) {
                Result::Err(e) => {
                    return Result::Err(e);
                },
                Result::Ok(v) => v,
            };
            let ghost vals0 = vals.deep_view();
            vals.push(v);
            i = i + 1;
            proof {
                assert(sub[0] == am[i - 1]);
                assert(sub.subrange(1, sub.len() as int) =~= am.subrange(i as int, am.len() as int));
                assert(vals.deep_view() =~= vals0.push(v@));
                match sp_eval_args(am.subrange(i as int, am.len() as int), self.st()) {
                    Result::Ok(rest) => {
                        assert(vals0 + (seq![v@] + rest) =~= vals.deep_view() + rest);
                    },
                    Result::Err(_) => {},
                }
            }
        }
        proof {
            assert(am.subrange(am.len() as int, am.len() as int) =~= Seq::<ExprModel>::empty());
            assert(vals.deep_view() + Seq::<Seq<char>>::empty() =~= vals.deep_view());
        }
        Result::Ok(vals)
    }

    /// Dispatches one command: evaluates its arguments, runs the named
    /// simulated handler, and records the step result under the step's id,
    /// overwriting any prior result. An unknown command records a failed
    /// result with status 400 and execution goes on.
    fn execute_command(&mut self, step_id: u32, command: &Command) -> (r: Result<
        (),
        RuntimeError,
    >)
        ensures
            ({
                let run = sp_exec_command(step_id, command_model(*command), old(self).st());
                final(self).st() == run.state && (match (r, run.err) {
                    (Result::Ok(()), Option::None) => true,
                    (Result::Err(e), Option::Some(m)) => err_model(e) == m,
                    _ => false,
                })
            }),
    {
        let vals = match self.evaluate_arguments(&command.arguments) {
            Result::Err(e) => {
                return Result::Err(e);
            },
            Result::Ok(v) => v,
        };
        let name = command.name.as_str();
        if str_eq(name, "print") {
            let joined = join_spaced(&vals);
            let mut line = "Print: ".to_owned();
            line.append(joined.as_str());
            self.set_result(
                step_id,
                StepResult::new(true, joined, 200, "Print executed successfully".to_owned()),
            );
            self.push_trace(line);
        } else if str_eq(name, "log") {
            let joined = join_spaced(&vals);
            let mut line = "Log: ".to_owned();
            line.append(joined.as_str());
            self.set_result(
                step_id,
                StepResult::new(true, joined, 200, "Log executed successfully".to_owned()),
            );
            self.push_trace(line);
        } else if str_eq(name, "fetch") {
            let url = arg_get(&vals, 0, "https://api.example.com");
            let mut data = "{\"data\": \"Sample data from ".to_owned();
            data.append(url.as_str());
            data.append("\"}");
            let mut line = "Fetch: ".to_owned();
            line.append(url.as_str());
            self.set_result(
                step_id,
                StepResult::new(true, data, 200, "Fetch completed successfully".to_owned()),
            );
            self.push_trace(line);
        } else if str_eq(name, "send_email") {
            let to = arg_get(&vals, 0, "user@example.com");
            let subject = arg_get(&vals, 1, "Notification");
            let mut data = "Email sent to ".to_owned();
            data.append(to.as_str());
            let mut line = "Send Email: ".to_owned();
            line.append(to.as_str());
            line.append(" - ");
            line.append(subject.as_str());
            self.set_result(
                step_id,
                StepResult::new(true, data, 200, "Email sent successfully".to_owned()),
            );
            self.push_trace(line);
        } else if str_eq(name, "notify") {
            let joined = join_spaced(&vals);
            let mut line = "Notify: ".to_owned();
            line.append(joined.as_str());
            self.set_result(
                step_id,
                StepResult::new(true, joined, 200, "Notification sent successfully".to_owned()),
            );
            self.push_trace(line);
        } else if str_eq(name, "input") {
            let variable_name = arg_get(&vals, 0, "user_input");
            let input_type = arg_get(&vals, 1, "text");
            let placeholder = arg_get(&vals, 2, "Enter value");
            let mut data = "{\"variable\": \"".to_owned();
            data.append(variable_name.as_str());
            data.append("\", \"type\": \"");
            data.append(input_type.as_str());
            data.append("\", \"placeholder\": \"");
            data.append(placeholder.as_str());
            data.append("\"}");
            let mut line = "Input: Collect '".to_owned();
            line.append(variable_name.as_str());
            line.append("' as ");
            line.append(input_type.as_str());
            line.append(" (");
            line.append(placeholder.as_str());
            line.append(")");
            self.set_result(
                step_id,
                StepResult::new(true, data, 200, "Input collected successfully".to_owned()),
            );
            self.push_trace(line);
        } else if str_eq(name, "generate") {
            let prompt = arg_get(&vals, 0, "Generate content");
            let model = arg_get(&vals, 1, "mistral-small-latest");
            let temperature = arg_get(&vals, 2, "0.7");
            let mut data = "{\"content\": \"Generated content for: ".to_owned();
            data.append(prompt.as_str());
            data.append("\", \"model\": \"");
            data.append(model.as_str());
            data.append("\", \"temperature\": \"");
            data.append(temperature.as_str());
            data.append("\"}");
            let mut line = "Generate: Using ".to_owned();
            line.append(model.as_str());
            line.append(" (temp: ");
            line.append(temperature.as_str());
            line.append(") with prompt: '");
            line.append(prompt.as_str());
            line.append("'");
            self.set_result(
                step_id,
                StepResult::new(true, data, 200, "Content generated successfully".to_owned()),
            );
            self.push_trace(line);
        } else if str_eq(name, "output") {
            let data_ref = arg_get(&vals, 0, "data");
            let format_kind = arg_get(&vals, 1, "text");
            let filename = arg_get(&vals, 2, "output");
            let mut data = "{\"exported\": \"".to_owned();
            data.append(data_ref.as_str());
            data.append("\", \"format\": \"");
            data.append(format_kind.as_str());
            data.append("\", \"file\": \"");
            data.append(filename.as_str());
            data.append("\"}");
            let mut line = "Output: Export ".to_owned();
            line.append(data_ref.as_str());
            line.append(" as ");
            line.append(format_kind.as_str());
            line.append(" to ");
            line.append(filename.as_str());
            self.set_result(
                step_id,
                StepResult::new(true, data, 200, "Output exported successfully".to_owned()),
            );
            self.push_trace(line);
        } else if str_eq(name, "transform") {
            let data_ref = arg_get(&vals, 0, "data");
            let transformation = arg_get(&vals, 1, "format");
            let mut data = "{\"transformed\": \"".to_owned();
            data.append(data_ref.as_str());
            data.append("\", \"type\": \"");
            data.append(transformation.as_str());
            data.append("\"}");
            let mut line = "Transform: Apply ".to_owned();
            line.append(transformation.as_str());
            line.append(" to ");
            line.append(data_ref.as_str());
            self.set_result(
                step_id,
                StepResult::new(true, data, 200, "Data transformed successfully".to_owned()),
            );
            self.push_trace(line);
        } else if str_eq(name, "validate") {
            let data_ref = arg_get(&vals, 0, "data");
            let validation_type = arg_get(&vals, 1, "required");
            let mut data = "{\"validated\": \"".to_owned();
            data.append(data_ref.as_str());
            data.append("\", \"type\": \"");
            data.append(validation_type.as_str());
            data.append("\", \"valid\": true}");
            let mut line = "Validate: Check ".to_owned();
            line.append(data_ref.as_str());
            line.append(" for ");
            line.append(validation_type.as_str());
            self.set_result(
                step_id,
                StepResult::new(true, data, 200, "Validation completed successfully".to_owned()),
            );
            self.push_trace(line);
        } else {
            let mut message = "Unknown command: ".to_owned();
            message.append(name);
            let mut line = "Unknown command: ".to_owned();
            line.append(name);
            self.set_result(step_id, StepResult::new(false, "".to_owned(), 400, message));
            self.push_trace(line);
        }
        Result::Ok(())
    }

    /// Runs one step: traces it, then runs its command or conditional.
    fn execute_step(&mut self, step: &Step) -> (r: Result<(), RuntimeError>)
        ensures
            ({
                let run = sp_exec_step(step_model(*step), old(self).st());
                final(self).st() == run.state && (match (r, run.err) {
                    (Result::Ok(()), Option::None) => true,
                    (Result::Err(e), Option::Some(m)) => err_model(e) == m,
                    _ => false,
                })
            }),
        decreases *step, 0int,
    {
        let mut line = "Step ".to_owned();
        let ds = u32_to_string(step.id);
        line.append(ds.as_str());
        self.push_trace(line);
        match &step.content {
            StepContent::Command(command) => self.execute_command(step.id, command),
            StepContent::Conditional(conditional) => self.execute_conditional(conditional),
        }
    }

    /// Runs the steps of a block in order, stopping at the first fatal
    /// error.
    #[verifier::loop_isolation(false)]
    fn execute_steps(&mut self, steps: &Vec<Step>) -> (r: Result<(), RuntimeError>)
        ensures
            ({
                let run = sp_exec_steps(steps_model(steps@), old(self).st());
                final(self).st() == run.state && (match (r, run.err) {
                    (Result::Ok(()), Option::None) => true,
                    (Result::Err(e), Option::Some(m)) => err_model(e) == m,
                    _ => false,
                })
            }),
        decreases steps@, 2int,
    {
        let ghost sm = steps_model(steps@);
        let ghost target = sp_exec_steps(sm, old(self).st());
        proof {
            lemma_steps_model_index(steps@);
            assert(sm.subrange(0, sm.len() as int) =~= sm);
        }
        let mut i: usize = 0;
        while i < steps.len()
            invariant
                i <= steps@.len(),
                sp_exec_steps(sm.subrange(i as int, sm.len() as int), self.st()) == target,
            decreases steps@.len() - i,
        {
            let ghost sub = sm.subrange(i as int, sm.len() as int);
            match self.execute_step(&steps[i]) {
                Result::Err(e) => {
                    proof {
                        assert(sub[0] == step_model(steps@[i as int]));
                    }
                    return Result::Err(e);
                },
                Result::Ok(()) => (),
            }
            i = i + 1;
            proof {
                assert(sub[0] == step_model(steps@[i - 1]));
                assert(sub.subrange(1, sub.len() as int) =~= sm.subrange(
                    i as int,
                    sm.len() as int,
                ));
            }
        }
        proof {
            assert(sm.subrange(sm.len() as int, sm.len() as int) =~= Seq::<StepModel>::empty());
        }
        Result::Ok(())
    }

    /// Runs a conditional: evaluates the condition, then the if-branch when
    /// it is true, else the else-branch when present.
    fn execute_conditional(&mut self, conditional: &ConditionalStatement) -> (r: Result<
        (),
        RuntimeError,
    >)
        ensures
            ({
                let run = sp_exec_conditional(cond_model(*conditional), old(self).st());
                final(self).st() == run.state && (match (r, run.err) {
                    (Result::Ok(()), Option::None) => true,
                    (Result::Err(e), Option::Some(m)) => err_model(e) == m,
                    _ => false,
                })
            }),
        decreases *conditional, 1int,
    {
        let taken = match self.evaluate_condition(&conditional.condition) {
            Result::Err(e) => {
                return Result::Err(e);
            },
            Result::Ok(b) => b,
        };
        if taken {
            self.push_trace("Condition is true, executing if block".to_owned());
            self.execute_steps(&conditional.if_steps)
        } else {
            self.push_trace("Condition is false".to_owned());
            match &conditional.else_steps {
                Option::Some(else_steps) => {
                    self.push_trace("Executing else block".to_owned());
                    self.execute_steps(else_steps)
                },
                Option::None => Result::Ok(()),
            }
        }
    }

    /// Runs one variable declaration: evaluates the value and binds it,
    /// overwriting any prior binding of the name.
    fn execute_variable(&mut self, variable: &VariableDeclaration) -> (r: Result<
        (),
        RuntimeError,
    >)
        ensures
            ({
                let run = sp_exec_var(vardecl_model(*variable), old(self).st());
                final(self).st() == run.state && (match (r, run.err) {
                    (Result::Ok(()), Option::None) => true,
                    (Result::Err(e), Option::Some(m)) => err_model(e) == m,
                    _ => false,
                })
            }),
    {
        let value = match self.evaluate_expression(&variable.value) {
            Result::Err(e) => {
                return Result::Err(e);
            },
            Result::Ok(v) => v,
        };
        let mut line = "Variable '".to_owned();
        line.append(variable.name.as_str());
        line.append("' = '");
        line.append(value.as_str());
        line.append("'");
        self.set_var(variable.name.clone(), value);
        self.push_trace(line);
        Result::Ok(())
    }

    /// Runs one workflow: traces its name, then its steps in order.
    fn execute_workflow(&mut self, workflow: &Workflow) -> (r: Result<(), RuntimeError>)
        ensures
            ({
                let run = sp_exec_workflow(workflow_model(*workflow), old(self).st());
                final(self).st() == run.state && (match (r, run.err) {
                    (Result::Ok(()), Option::None) => true,
                    (Result::Err(e), Option::Some(m)) => err_model(e) == m,
                    _ => false,
                })
            }),
    {
        let mut line = "Executing workflow: ".to_owned();
        line.append(workflow.name.as_str());
        self.push_trace(line);
        self.execute_steps(&workflow.steps)
    }

    /// Runs a whole program: all top-level variable declarations in
    /// declaration order, then each workflow in declaration order. The
    /// first fatal error aborts the run; the trace and the step results
    /// produced before it stay available for inspection.
    #[verifier::loop_isolation(false)]
    pub fn execute(&mut self, program: &Program) -> (r: Result<(), RuntimeError>)
        ensures
            ({
                let run = sp_exec_program(program_model(*program), old(self).st());
                final(self).st() == run.state && (match (r, run.err) {
                    (Result::Ok(()), Option::None) => true,
                    (Result::Err(e), Option::Some(m)) => err_model(e) == m,
                    _ => false,
                })
            }),
    {
        let ghost dm = vardecls_model(program.variables@);
        let ghost vtarget = sp_exec_vars(dm, old(self).st());
        proof {
            lemma_vardecls_model_index(program.variables@);
            assert(dm.subrange(0, dm.len() as int) =~= dm);
        }
        let mut i: usize = 0;
        while i < program.variables.len()
            invariant
                i <= program.variables@.len(),
                sp_exec_vars(dm.subrange(i as int, dm.len() as int), self.st()) == vtarget,
            decreases program.variables@.len() - i,
        {
            let ghost sub = dm.subrange(i as int, dm.len() as int);
            match self.execute_variable(&program.variables[i]) {
                Result::Err(e) => {
                    proof {
                        assert(sub[0] == vardecl_model(program.variables@[i as int]));
                    }
                    return Result::Err(e);
                },
                Result::Ok(()) => (),
            }
            i = i + 1;
            proof {
                assert(sub[0] == vardecl_model(program.variables@[i - 1]));
                assert(sub.subrange(1, sub.len() as int) =~= dm.subrange(
                    i as int,
                    dm.len() as int,
                ));
            }
        }
        proof {
            assert(dm.subrange(dm.len() as int, dm.len() as int) =~= Seq::<VarDeclModel>::empty());
        }
        let ghost wm = workflows_model(program.workflows@);
        let ghost wtarget = sp_exec_workflows(wm, self.st());
        proof {
            lemma_workflows_model_index(program.workflows@);
            assert(wm.subrange(0, wm.len() as int) =~= wm);
        }
        let mut k: usize = 0;
        while k < program.workflows.len()
            invariant
                k <= program.workflows@.len(),
                sp_exec_workflows(wm.subrange(k as int, wm.len() as int), self.st()) == wtarget,
            decreases program.workflows@.len() - k,
        {
            let ghost sub = wm.subrange(k as int, wm.len() as int);
            match self.execute_workflow(&program.workflows[k]) {
                Result::Err(e) => {
                    proof {
                        assert(sub[0] == workflow_model(program.workflows@[k as int]));
                    }
                    return Result::Err(e);
                },
                Result::Ok(()) => (),
            }
            k = k + 1;
            proof {
                assert(sub[0] == workflow_model(program.workflows@[k - 1]));
                assert(sub.subrange(1, sub.len() as int) =~= wm.subrange(
                    k as int,
                    wm.len() as int,
                ));
            }
        }
        proof {
            assert(wm.subrange(wm.len() as int, wm.len() as int) =~= Seq::<WorkflowModel>::empty());
        }
        Result::Ok(())
    }
}

/// The argument at an index, or the given default when the list is shorter.
fn arg_get(vals: &Vec<String>, i: usize, dflt: &str) -> (r: String)
    ensures
        r@ == arg_or(vals.deep_view(), i as int, dflt@),
{
    if i < vals.len() {
        vals[i].clone()
    } else {
        dflt.to_owned()
    }
}

// ---------------------------------------------------------------------------
// Laws of the executor
// ---------------------------------------------------------------------------
/// The plain reporting commands print, log and notify all record the
/// space-joined evaluated arguments as their data, with success and
/// status 200.
pub proof fn lemma_simple_commands(name: Seq<char>, args: Seq<Seq<char>>)
    requires
        name == "print"@ || name == "log"@ || name == "notify"@,
    ensures
        sp_dispatch(name, args).0.data == sp_join(args),
        sp_dispatch(name, args).0.success,
        sp_dispatch(name, args).0.status == 200,
{
    reveal_strlit("print");
    reveal_strlit("log");
    reveal_strlit("notify");
    reveal_strlit("fetch");
    reveal_strlit("send_email");
    assert("print"@.len() == 5);
    assert("log"@.len() == 3);
    assert("notify"@.len() == 6);
    assert("fetch"@.len() == 5);
    assert("send_email"@.len() == 10);
    if name == "notify"@ {
        assert(name != "print"@);
        assert(name != "log"@);
        assert(name != "fetch"@);
        assert(name != "send_email"@);
    }
}

/// A command name outside the handler table is recoverable, not fatal: once
/// its arguments evaluate, the step records a failed result with status 400
/// naming the command, and execution goes on.
pub proof fn lemma_unknown_command_recoverable(name: Seq<char>, args: Seq<Seq<char>>)
    requires
        name != "print"@,
        name != "log"@,
        name != "fetch"@,
        name != "send_email"@,
        name != "notify"@,
        name != "input"@,
        name != "generate"@,
        name != "output"@,
        name != "transform"@,
        name != "validate"@,
    ensures
        sp_dispatch(name, args).0 == (ResultModel {
            success: false,
            data: ""@,
            status: 400,
            message: "Unknown command: "@ + name,
        }),
        forall|id: u32, c: CommandModel, st: EState|
            c.name == name && sp_eval_args(c.arguments, st) is Ok ==> (#[trigger] sp_exec_command(
                id,
                c,
                st,
            )).err is None,
{
}

/// A literal expression evaluates to its own text, in every state: neither
/// the environment nor the result table takes part, and evaluation mutates
/// nothing.
pub proof fn lemma_eval_literal(v: Seq<char>, st1: EState, st2: EState)
    ensures
        sp_eval(ExprModel::StringLiteral(v), st1) == Result::<Seq<char>, RunErrModel>::Ok(v),
        sp_eval(ExprModel::NumberLiteral(v), st1) == Result::<Seq<char>, RunErrModel>::Ok(v),
        sp_eval(ExprModel::StringLiteral(v), st1) == sp_eval(ExprModel::StringLiteral(v), st2),
        sp_eval(ExprModel::NumberLiteral(v), st1) == sp_eval(ExprModel::NumberLiteral(v), st2),
{
}

/// A workflow with no steps executes as a no-op: it leaves the environment
/// and the result table untouched and only traces its own name.
pub proof fn lemma_empty_workflow_no_op(w: WorkflowModel, st: EState)
    requires
        w.steps.len() == 0,
    ensures
        sp_exec_workflow(w, st).err is None,
        sp_exec_workflow(w, st).state == (EState {
            env: st.env,
            results: st.results,
            trace: st.trace.push("Executing workflow: "@ + w.name),
        }),
{
}

} // verus!
