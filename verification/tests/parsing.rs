use tradeflow::ast::{Expression, StepContent};
use tradeflow::parse_dsl;
use tradeflow::parser::Parser;
use tradeflow::tokenize_dsl;

#[test]
fn command_without_parentheses_has_no_arguments() {
    let program = parse_dsl("workflow \"W\" { step 1: notify }").expect("should parse");
    match &program.workflows[0].steps[0].content {
        StepContent::Command(c) => {
            assert_eq!(c.name, "notify");
            assert_eq!(c.arguments.len(), 0);
        },
        other => panic!("expected a command, got {:?}", other),
    }
}

#[test]
fn keyword_command_names_parse() {
    for name in ["print", "log", "fetch", "send_email", "notify", "input", "generate"] {
        let source = format!("workflow \"W\" {{ step 1: {}(\"a\") }}", name);
        let program = parse_dsl(&source).expect("should parse");
        match &program.workflows[0].steps[0].content {
            StepContent::Command(c) => assert_eq!(&c.name, name),
            other => panic!("expected a command, got {:?}", other),
        }
    }
}

#[test]
fn binary_chain_associates_left_to_right() {
    let program = parse_dsl("let x = \"a\" + \"b\" + \"c\"").expect("should parse");
    match &program.variables[0].value {
        Expression::BinaryExpression { left, operator, right } => {
            assert_eq!(operator, "+");
            assert!(matches!(&**right, Expression::StringLiteral(s) if s == "c"));
            match &**left {
                Expression::BinaryExpression { left, operator, right } => {
                    assert_eq!(operator, "+");
                    assert!(matches!(&**left, Expression::StringLiteral(s) if s == "a"));
                    assert!(matches!(&**right, Expression::StringLiteral(s) if s == "b"));
                },
                other => panic!("expected a nested binary expression, got {:?}", other),
            }
        },
        other => panic!("expected a binary expression, got {:?}", other),
    }
}

#[test]
fn comparison_chain_is_structurally_valid() {
    // one precedence level: a == b == c parses as (a == b) == c
    let program = parse_dsl("let x = \"a\" == \"b\" == \"c\"").expect("should parse");
    match &program.variables[0].value {
        Expression::BinaryExpression { left, operator, .. } => {
            assert_eq!(operator, "==");
            assert!(matches!(&**left, Expression::BinaryExpression { .. }));
        },
        other => panic!("expected a binary expression, got {:?}", other),
    }
}

#[test]
fn step_reference_with_and_without_property() {
    let program = parse_dsl("let x = step 3.data\nlet y = step 4").expect("should parse");
    assert!(matches!(
        &program.variables[0].value,
        Expression::StepReference { step_id: 3, property: Some(p) } if p == "data"
    ));
    assert!(matches!(
        &program.variables[1].value,
        Expression::StepReference { step_id: 4, property: None }
    ));
}

#[test]
fn identifier_property_access_parses() {
    let program = parse_dsl("let x = obj.field").expect("should parse");
    match &program.variables[0].value {
        Expression::PropertyAccess { object, property } => {
            assert!(matches!(&**object, Expression::Identifier(n) if n == "obj"));
            assert_eq!(property, "field");
        },
        other => panic!("expected a property access, got {:?}", other),
    }
}

#[test]
fn conditional_with_else_parses_both_branches() {
    let source = "workflow \"W\" { step 1: if (\"x\") { step 2: notify } else { step 3: log step 4: log } }";
    let program = parse_dsl(source).expect("should parse");
    match &program.workflows[0].steps[0].content {
        StepContent::Conditional(c) => {
            assert_eq!(c.if_steps.len(), 1);
            let else_steps = c.else_steps.as_ref().expect("else branch expected");
            assert_eq!(else_steps.len(), 2);
            assert_eq!(else_steps[1].id, 4);
        },
        other => panic!("expected a conditional, got {:?}", other),
    }
}

#[test]
fn conditional_without_else_has_none() {
    let source = "workflow \"W\" { step 1: if (\"x\") { step 2: notify } }";
    let program = parse_dsl(source).expect("should parse");
    match &program.workflows[0].steps[0].content {
        StepContent::Conditional(c) => assert!(c.else_steps.is_none()),
        other => panic!("expected a conditional, got {:?}", other),
    }
}

#[test]
fn multiple_workflows_and_variables_keep_order() {
    let source = "let a = \"1\"\nworkflow \"X\" {}\nlet b = \"2\"\nworkflow \"Y\" {}";
    let program = parse_dsl(source).expect("should parse");
    assert_eq!(program.workflows.len(), 2);
    assert_eq!(program.workflows[0].name, "X");
    assert_eq!(program.workflows[1].name, "Y");
    assert_eq!(program.variables.len(), 2);
    assert_eq!(program.variables[0].name, "a");
    assert_eq!(program.variables[1].name, "b");
}

#[test]
fn missing_colon_after_step_number_is_reported() {
    let err = parse_dsl("workflow \"W\" { step 1 notify }").unwrap_err();
    assert_eq!(err.message(), "Expected ':' after step number");
}

#[test]
fn missing_closing_parenthesis_is_reported() {
    let err = parse_dsl("workflow \"W\" { step 1: print(\"a\" }").unwrap_err();
    assert_eq!(err.message(), "Expected ')'");
}

#[test]
fn step_id_with_fraction_truncates() {
    let tokens = tokenize_dsl("workflow \"W\" { step 1.5: notify }").expect("should lex");
    let mut parser = Parser::new(tokens);
    // "1.5" lexes as one number token, and the id keeps its integer part
    let program = parser.parse().expect("should parse");
    assert_eq!(program.workflows[0].steps[0].id, 1);
}

#[test]
fn parser_over_token_vector_matches_parse_dsl() {
    let source = "workflow \"W\" { step 1: notify(\"a\") }";
    let tokens = tokenize_dsl(source).expect("should lex");
    let mut parser = Parser::new(tokens);
    let direct = parser.parse().expect("should parse");
    let through = parse_dsl(source).expect("should parse");
    assert_eq!(format!("{:?}", direct), format!("{:?}", through));
}

#[test]
fn empty_source_is_an_empty_program() {
    let program = parse_dsl("").expect("should parse");
    assert_eq!(program.workflows.len(), 0);
    assert_eq!(program.variables.len(), 0);
}

#[test]
fn semicolons_are_lexed_but_never_expected() {
    let err = parse_dsl("workflow \"W\" { step 1: notify; }").unwrap_err();
    assert_eq!(err.message(), "Expected 'step'");
}
