use vstd::prelude::*;

verus! {

// ---------------------------------------------------------------------------
// Mathematical models of the syntax tree
// ---------------------------------------------------------------------------
/// Model of an expression, over character sequences.
pub ghost enum ExprModel {
    StringLiteral(Seq<char>),
    NumberLiteral(Seq<char>),
    Identifier(Seq<char>),
    BinaryExpression { left: Box<ExprModel>, operator: Seq<char>, right: Box<ExprModel> },
    PropertyAccess { object: Box<ExprModel>, property: Seq<char> },
    StepReference { step_id: u32, property: Option<Seq<char>> },
}

pub ghost struct CommandModel {
    pub name: Seq<char>,
    pub arguments: Seq<ExprModel>,
}

pub ghost struct ConditionalModel {
    pub condition: ExprModel,
    pub if_steps: Seq<StepModel>,
    pub else_steps: Option<Seq<StepModel>>,
}

pub ghost enum StepContentModel {
    Command(CommandModel),
    Conditional(ConditionalModel),
}

pub ghost struct StepModel {
    pub id: u32,
    pub content: StepContentModel,
}

pub ghost struct WorkflowModel {
    pub name: Seq<char>,
    pub steps: Seq<StepModel>,
}

pub ghost struct VarDeclModel {
    pub keyword: Seq<char>,
    pub name: Seq<char>,
    pub value: ExprModel,
}

pub ghost struct ProgramModel {
    pub workflows: Seq<WorkflowModel>,
    pub variables: Seq<VarDeclModel>,
}

// ---------------------------------------------------------------------------
// The syntax tree the parser builds and the executor walks
// ---------------------------------------------------------------------------
/// An expression of the workflow language. A numeric literal is kept in its
/// canonical decimal text form.
#[derive(Debug)]
pub enum Expression {
    StringLiteral(String),
    NumberLiteral(String),
    Identifier(String),
    BinaryExpression { left: Box<Expression>, operator: String, right: Box<Expression> },
    PropertyAccess { object: Box<Expression>, property: String },
    StepReference { step_id: u32, property: Option<String> },
}

/// A command: a name and its argument expressions.
#[derive(Debug)]
pub struct Command {
    pub name: String,
    pub arguments: Vec<Expression>,
}

/// A conditional: a condition, the if-branch steps, and optional else-branch
/// steps.
#[derive(Debug)]
pub struct ConditionalStatement {
    pub condition: Expression,
    pub if_steps: Vec<Step>,
    pub else_steps: Option<Vec<Step>>,
}

/// What a step does: run a command, or branch on a condition.
#[derive(Debug)]
pub enum StepContent {
    Command(Command),
    Conditional(ConditionalStatement),
}

/// One numbered step of a workflow.
#[derive(Debug)]
pub struct Step {
    pub id: u32,
    pub content: StepContent,
}

/// A named workflow: an ordered sequence of steps.
#[derive(Debug)]
pub struct Workflow {
    pub name: String,
    pub steps: Vec<Step>,
}

/// A top-level variable declaration; the keyword (`let`, `var` or `const`)
/// is recorded but not semantically enforced.
#[derive(Debug)]
pub struct VariableDeclaration {
    pub keyword: String,
    pub name: String,
    pub value: Expression,
}

/// A whole program: its top-level variable declarations and its workflows,
/// each in declaration order.
#[derive(Debug)]
pub struct Program {
    pub workflows: Vec<Workflow>,
    pub variables: Vec<VariableDeclaration>,
}

// ---------------------------------------------------------------------------
// From tree to model
// ---------------------------------------------------------------------------
pub open spec fn expr_model(e: Expression) -> ExprModel
    decreases e,
{
    match e {
        Expression::StringLiteral(s) => ExprModel::StringLiteral(s@),
        Expression::NumberLiteral(s) => ExprModel::NumberLiteral(s@),
        Expression::Identifier(s) => ExprModel::Identifier(s@),
        Expression::BinaryExpression { left, operator, right } => ExprModel::BinaryExpression {
            left: Box::new(expr_model(*left)),
            operator: operator@,
            right: Box::new(expr_model(*right)),
        },
        Expression::PropertyAccess { object, property } => ExprModel::PropertyAccess {
            object: Box::new(expr_model(*object)),
            property: property@,
        },
        Expression::StepReference { step_id, property } => ExprModel::StepReference {
            step_id,
            property: match property {
                Option::Some(p) => Option::Some(p@),
                Option::None => Option::None,
            },
        },
    }
}

pub open spec fn exprs_model(v: Seq<Expression>) -> Seq<ExprModel>
    decreases v,
{
    if v.len() == 0 {
        Seq::empty()
    } else {
        seq![expr_model(v[0])] + exprs_model(v.subrange(1, v.len() as int))
    }
}

pub open spec fn command_model(c: Command) -> CommandModel {
    CommandModel { name: c.name@, arguments: exprs_model(c.arguments@) }
}

pub open spec fn step_model(s: Step) -> StepModel
    decreases s,
{
    StepModel { id: s.id, content: content_model(s.content) }
}

pub open spec fn content_model(c: StepContent) -> StepContentModel
    decreases c,
{
    match c {
        StepContent::Command(cmd) => StepContentModel::Command(command_model(cmd)),
        StepContent::Conditional(cond) => StepContentModel::Conditional(cond_model(cond)),
    }
}

pub open spec fn cond_model(c: ConditionalStatement) -> ConditionalModel
    decreases c,
{
    ConditionalModel {
        condition: expr_model(c.condition),
        if_steps: steps_model(c.if_steps@),
        else_steps: match c.else_steps {
            Option::Some(v) => Option::Some(steps_model(v@)),
            Option::None => Option::None,
        },
    }
}

pub open spec fn steps_model(v: Seq<Step>) -> Seq<StepModel>
    decreases v,
{
    if v.len() == 0 {
        Seq::empty()
    } else {
        seq![step_model(v[0])] + steps_model(v.subrange(1, v.len() as int))
    }
}

pub open spec fn workflow_model(w: Workflow) -> WorkflowModel {
    WorkflowModel { name: w.name@, steps: steps_model(w.steps@) }
}

pub open spec fn workflows_model(v: Seq<Workflow>) -> Seq<WorkflowModel>
    decreases v,
{
    if v.len() == 0 {
        Seq::empty()
    } else {
        seq![workflow_model(v[0])] + workflows_model(v.subrange(1, v.len() as int))
    }
}

pub open spec fn vardecl_model(d: VariableDeclaration) -> VarDeclModel {
    VarDeclModel { keyword: d.keyword@, name: d.name@, value: expr_model(d.value) }
}

pub open spec fn vardecls_model(v: Seq<VariableDeclaration>) -> Seq<VarDeclModel>
    decreases v,
{
    if v.len() == 0 {
        Seq::empty()
    } else {
        seq![vardecl_model(v[0])] + vardecls_model(v.subrange(1, v.len() as int))
    }
}

pub open spec fn program_model(p: Program) -> ProgramModel {
    ProgramModel {
        workflows: workflows_model(p.workflows@),
        variables: vardecls_model(p.variables@),
    }
}

/// The model of a step sequence is the sequence of the steps' models.
pub proof fn lemma_steps_model_index(v: Seq<Step>)
    ensures
        steps_model(v).len() == v.len(),
        forall|i: int| 0 <= i < v.len() ==> steps_model(v)[i] == step_model(v[i]),
    decreases v,
{
    if v.len() > 0 {
        lemma_steps_model_index(v.subrange(1, v.len() as int));
    }
}

/// The model of an expression sequence is the sequence of the expressions'
/// models.
pub proof fn lemma_exprs_model_index(v: Seq<Expression>)
    ensures
        exprs_model(v).len() == v.len(),
        forall|i: int| 0 <= i < v.len() ==> exprs_model(v)[i] == expr_model(v[i]),
    decreases v,
{
    if v.len() > 0 {
        lemma_exprs_model_index(v.subrange(1, v.len() as int));
    }
}

pub proof fn lemma_workflows_model_index(v: Seq<Workflow>)
    ensures
        workflows_model(v).len() == v.len(),
        forall|i: int| 0 <= i < v.len() ==> workflows_model(v)[i] == workflow_model(v[i]),
    decreases v,
{
    if v.len() > 0 {
        lemma_workflows_model_index(v.subrange(1, v.len() as int));
    }
}

pub proof fn lemma_vardecls_model_index(v: Seq<VariableDeclaration>)
    ensures
        vardecls_model(v).len() == v.len(),
        forall|i: int| 0 <= i < v.len() ==> vardecls_model(v)[i] == vardecl_model(v[i]),
    decreases v,
{
    if v.len() > 0 {
        lemma_vardecls_model_index(v.subrange(1, v.len() as int));
    }
}

/// Appending to a step sequence appends to its model.
pub proof fn lemma_steps_model_push(v: Seq<Step>, s: Step)
    ensures
        steps_model(v.push(s)) == steps_model(v).push(step_model(s)),
{
    lemma_steps_model_index(v.push(s));
    lemma_steps_model_index(v);
    assert(steps_model(v.push(s)) =~= steps_model(v).push(step_model(s)));
}

pub proof fn lemma_exprs_model_push(v: Seq<Expression>, e: Expression)
    ensures
        exprs_model(v.push(e)) == exprs_model(v).push(expr_model(e)),
{
    lemma_exprs_model_index(v.push(e));
    lemma_exprs_model_index(v);
    assert(exprs_model(v.push(e)) =~= exprs_model(v).push(expr_model(e)));
}

pub proof fn lemma_workflows_model_push(v: Seq<Workflow>, w: Workflow)
    ensures
        workflows_model(v.push(w)) == workflows_model(v).push(workflow_model(w)),
{
    lemma_workflows_model_index(v.push(w));
    lemma_workflows_model_index(v);
    assert(workflows_model(v.push(w)) =~= workflows_model(v).push(workflow_model(w)));
}

pub proof fn lemma_vardecls_model_push(v: Seq<VariableDeclaration>, d: VariableDeclaration)
    ensures
        vardecls_model(v.push(d)) == vardecls_model(v).push(vardecl_model(d)),
{
    lemma_vardecls_model_index(v.push(d));
    lemma_vardecls_model_index(v);
    assert(vardecls_model(v.push(d)) =~= vardecls_model(v).push(vardecl_model(d)));
}

impl Expression {
    /// A string literal expression.
    pub fn string(value: &str) -> (r: Self)
        ensures
            expr_model(r) == ExprModel::StringLiteral(value@),
    {
        Expression::StringLiteral(value.to_owned())
    }

    /// A numeric literal expression; the value is its decimal text.
    pub fn number(value: &str) -> (r: Self)
        ensures
            expr_model(r) == ExprModel::NumberLiteral(value@),
    {
        Expression::NumberLiteral(value.to_owned())
    }

    /// A variable reference.
    pub fn identifier(name: &str) -> (r: Self)
        ensures
            expr_model(r) == ExprModel::Identifier(name@),
    {
        Expression::Identifier(name.to_owned())
    }

    /// A binary expression.
    pub fn binary(left: Expression, operator: &str, right: Expression) -> (r: Self)
        ensures
            expr_model(r) == (ExprModel::BinaryExpression {
                left: Box::new(expr_model(left)),
                operator: operator@,
                right: Box::new(expr_model(right)),
            }),
    {
        Expression::BinaryExpression {
            left: Box::new(left),
            operator: operator.to_owned(),
            right: Box::new(right),
        }
    }

    /// A property access on an evaluated object value.
    pub fn property_access(object: Expression, property: &str) -> (r: Self)
        ensures
            expr_model(r) == (ExprModel::PropertyAccess {
                object: Box::new(expr_model(object)),
                property: property@,
            }),
    {
        Expression::PropertyAccess { object: Box::new(object), property: property.to_owned() }
    }

    /// A reference to the recorded result of an earlier step.
    pub fn step_reference(step_id: u32, property: Option<&str>) -> (r: Self)
        ensures
            expr_model(r) == (ExprModel::StepReference {
                step_id,
                property: match property {
                    Option::Some(p) => Option::Some(p@),
                    Option::None => Option::None,
                },
            }),
    {
        Expression::StepReference {
            step_id,
            property: match property {
                Option::Some(p) => Option::Some(p.to_owned()),
                Option::None => Option::None,
            },
        }
    }
}

} // verus!
