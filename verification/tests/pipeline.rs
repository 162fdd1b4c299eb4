use tradeflow::ast::{Expression, StepContent};
use tradeflow::lexer::LexError;
use tradeflow::executor::RuntimeError;
use tradeflow::DslError;
use tradeflow::{parse_dsl, run_dsl, tokenize_dsl, validate_dsl};

#[test]
fn empty_workflow_parses_to_zero_steps() {
    let program = parse_dsl("workflow \"W\" {}").expect("should parse");
    assert_eq!(program.workflows.len(), 1);
    assert_eq!(program.workflows[0].name, "W");
    assert_eq!(program.workflows[0].steps.len(), 0);
    assert_eq!(program.variables.len(), 0);
}

#[test]
fn empty_workflow_executes_as_no_op() {
    let (executor, err) = run_dsl("workflow \"W\" {}");
    assert!(err.is_none());
    assert_eq!(executor.trace_lines().len(), 1);
    assert_eq!(executor.trace_lines()[0], "Executing workflow: W");
    assert!(executor.get_step_result(1).is_none());
}

#[test]
fn unterminated_string_fails_lexing_before_parsing() {
    let source = "workflow \"W\" { step 1: print(\"x }";
    let lexed = tokenize_dsl(source);
    assert!(matches!(lexed, Err(LexError::UnterminatedString)));
    let (executor, err) = run_dsl(source);
    assert!(matches!(err, Some(DslError::Lex(LexError::UnterminatedString))));
    assert_eq!(executor.trace_lines().len(), 0);
}

#[test]
fn scenario_variable_and_concatenation() {
    let source = "let a = \"x\"\nworkflow \"W\" { step 1: print(a + \"y\") }";
    let (executor, err) = run_dsl(source);
    assert!(err.is_none());
    let result = executor.get_step_result(1).expect("step 1 should have a result");
    assert_eq!(result.data, "xy");
    assert_eq!(result.status, 200);
    assert!(result.success);
    assert!(executor.get_step_result(2).is_none());
}

#[test]
fn scenario_fetch_conditional_takes_if_branch() {
    let source = "workflow \"W\" {\n\
        step 1: fetch(\"u\")\n\
        step 2: if (step 1.status == 200) { step 2: print(\"ok\") } else { step 3: print(\"bad\") }\n\
        }";
    let (executor, err) = run_dsl(source);
    assert!(err.is_none());
    let trace = executor.trace_lines();
    assert!(trace.iter().any(|line| line == "Print: ok"));
    assert!(!trace.iter().any(|line| line.contains("bad")));
    let result = executor.get_step_result(2).expect("inner step 2 should have run");
    assert_eq!(result.data, "ok");
    assert!(executor.get_step_result(3).is_none());
}

#[test]
fn scenario_step_reference_not_found_halts() {
    let source = "workflow \"W\" {\n\
        step 1: print(\"first\")\n\
        step 2: print(step 9.data)\n\
        step 3: print(\"never\")\n\
        }";
    let (executor, err) = run_dsl(source);
    match err {
        Some(DslError::Runtime(RuntimeError::StepNotFound(9))) => (),
        other => panic!("expected a step-not-found error, got {:?}", other),
    }
    assert!(executor.get_step_result(1).is_some());
    assert!(executor.get_step_result(2).is_none());
    assert!(executor.get_step_result(3).is_none());
    assert!(!executor.trace_lines().iter().any(|line| line.contains("never")));
}

#[test]
fn scenario_unknown_command_is_recoverable() {
    let source = "workflow \"W\" {\n\
        step 1: bogus()\n\
        step 2: print(\"next\")\n\
        }";
    let (executor, err) = run_dsl(source);
    assert!(err.is_none());
    let first = executor.get_step_result(1).expect("step 1 should have a result");
    assert!(!first.success);
    assert_eq!(first.status, 400);
    assert!(first.message.contains("bogus"));
    assert_eq!(first.data, "");
    let second = executor.get_step_result(2).expect("step 2 should still execute");
    assert_eq!(second.data, "next");
}

#[test]
fn pipeline_is_deterministic_on_equal_sources() {
    let source = "let a = \"1\"\nworkflow \"W\" { step 1: print(a) step 2: fetch() }";
    let first = parse_dsl(source).expect("should parse");
    let second = parse_dsl(source).expect("should parse");
    assert_eq!(format!("{:?}", first), format!("{:?}", second));
    let t1 = tokenize_dsl(source).expect("should lex");
    let t2 = tokenize_dsl(source).expect("should lex");
    assert_eq!(format!("{:?}", t1), format!("{:?}", t2));
}

#[test]
fn last_write_to_a_variable_wins() {
    let source = "let a = \"1\"\nlet a = \"2\"\nworkflow \"W\" { step 1: print(a) }";
    let (executor, err) = run_dsl(source);
    assert!(err.is_none());
    assert_eq!(executor.get_step_result(1).unwrap().data, "2");
    assert_eq!(executor.get_variable("a").unwrap(), "2");
}

#[test]
fn validate_dsl_accepts_and_rejects() {
    assert!(validate_dsl("workflow \"W\" { step 1: print(\"x\") }"));
    assert!(validate_dsl(""));
    assert!(!validate_dsl("workflow \"W\" {"));
    assert!(!validate_dsl("step 1: print(\"x\")"));
    assert!(!validate_dsl("workflow \"W\" { step 1: print(\"x }"));
}

#[test]
fn parse_error_reports_expected_construct() {
    let err = parse_dsl("workflow").unwrap_err();
    assert_eq!(err.message(), "Expected workflow name");
    let err = parse_dsl("workflow \"W\"").unwrap_err();
    assert_eq!(err.message(), "Expected '{' after workflow name");
    let err = parse_dsl("xyz").unwrap_err();
    assert_eq!(err.message(), "Expected workflow or variable declaration");
    let err = parse_dsl("let 1").unwrap_err();
    assert_eq!(err.message(), "Expected variable name");
    let err = parse_dsl("let x").unwrap_err();
    assert_eq!(err.message(), "Expected '=' after variable name");
    let err = parse_dsl("let x = ").unwrap_err();
    assert_eq!(err.message(), "Expected expression");
}

#[test]
fn variable_declarations_record_their_keyword() {
    let program = parse_dsl("let a = \"1\"\nvar b = \"2\"\nconst c = \"3\"").expect("should parse");
    assert_eq!(program.variables.len(), 3);
    assert_eq!(program.variables[0].keyword, "let");
    assert_eq!(program.variables[1].keyword, "var");
    assert_eq!(program.variables[2].keyword, "const");
    assert_eq!(program.variables[2].name, "c");
}

#[test]
fn trace_lists_events_in_order() {
    let source = "let a = \"v\"\nworkflow \"W\" { step 1: log(a) }";
    let (executor, err) = run_dsl(source);
    assert!(err.is_none());
    let trace = executor.trace_lines();
    assert_eq!(trace.len(), 4);
    assert_eq!(trace[0], "Variable 'a' = 'v'");
    assert_eq!(trace[1], "Executing workflow: W");
    assert_eq!(trace[2], "Step 1");
    assert_eq!(trace[3], "Log: v");
}

#[test]
fn duplicate_step_ids_overwrite_results() {
    let source = "workflow \"W\" { step 1: print(\"first\") step 1: print(\"second\") }";
    let (executor, err) = run_dsl(source);
    assert!(err.is_none());
    assert_eq!(executor.get_step_result(1).unwrap().data, "second");
}

#[test]
fn nested_conditionals_execute_depth_first() {
    let source = "workflow \"W\" {\n\
        step 1: fetch(\"u\")\n\
        step 2: if (step 1.status == 200) {\n\
            step 3: if (\"x\" != \"y\") { step 4: print(\"inner\") }\n\
            step 5: print(\"after\")\n\
        }\n\
        }";
    let (executor, err) = run_dsl(source);
    assert!(err.is_none());
    assert_eq!(executor.get_step_result(4).unwrap().data, "inner");
    assert_eq!(executor.get_step_result(5).unwrap().data, "after");
    let trace = executor.trace_lines();
    let inner_pos = trace.iter().position(|l| l == "Print: inner").unwrap();
    let after_pos = trace.iter().position(|l| l == "Print: after").unwrap();
    assert!(inner_pos < after_pos);
}

#[test]
fn command_step_content_shape() {
    let program = parse_dsl("workflow \"W\" { step 7: transform(\"a\", \"b\") }").unwrap();
    let step = &program.workflows[0].steps[0];
    assert_eq!(step.id, 7);
    match &step.content {
        StepContent::Command(c) => {
            assert_eq!(c.name, "transform");
            assert_eq!(c.arguments.len(), 2);
            assert!(matches!(&c.arguments[0], Expression::StringLiteral(s) if s == "a"));
        },
        other => panic!("expected a command, got {:?}", other),
    }
}
