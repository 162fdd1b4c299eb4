use tradeflow::ast::Expression;
use tradeflow::decimal::{canon_decimal, dec_cmp, u32_to_string, DecOrder};
use tradeflow::executor::{Executor, RuntimeError};
use tradeflow::run_dsl;

#[test]
fn literal_expressions_evaluate_to_their_text() {
    let executor = Executor::new();
    let s = Expression::string("hi there");
    assert_eq!(executor.evaluate_expression(&s).unwrap(), "hi there");
    let n = Expression::number("1.5");
    assert_eq!(executor.evaluate_expression(&n).unwrap(), "1.5");
    // evaluation takes the executor immutably and binds nothing
    assert!(executor.get_variable("hi").is_none());
    assert!(executor.get_step_result(1).is_none());
    assert_eq!(executor.trace_lines().len(), 0);
}

#[test]
fn undefined_variable_is_a_runtime_error() {
    let executor = Executor::new();
    let e = Expression::identifier("missing");
    match executor.evaluate_expression(&e) {
        Err(RuntimeError::UndefinedVariable(name)) => {
            assert_eq!(name, "missing");
            assert_eq!(
                RuntimeError::UndefinedVariable(name).message(),
                "Undefined variable: missing"
            );
        },
        other => panic!("expected an undefined-variable error, got {:?}", other),
    }
}

#[test]
fn concatenation_joins_operand_strings() {
    let executor = Executor::new();
    let e = Expression::binary(Expression::string("ab"), "+", Expression::string("cd"));
    assert_eq!(executor.evaluate_expression(&e).unwrap(), "abcd");
}

#[test]
fn non_plus_operator_in_plain_evaluation_is_an_error() {
    let executor = Executor::new();
    let e = Expression::binary(Expression::string("a"), "-", Expression::string("b"));
    match executor.evaluate_expression(&e) {
        Err(RuntimeError::UnknownBinaryOperator(op)) => assert_eq!(op, "-"),
        other => panic!("expected an unknown-operator error, got {:?}", other),
    }
}

#[test]
fn property_access_yields_a_projection_string() {
    let executor = Executor::new();
    let e = Expression::property_access(Expression::string("obj"), "field");
    assert_eq!(executor.evaluate_expression(&e).unwrap(), "obj.field");
}

#[test]
fn step_reference_before_execution_fails() {
    let executor = Executor::new();
    let e = Expression::step_reference(9, Some("data"));
    match executor.evaluate_expression(&e) {
        Err(RuntimeError::StepNotFound(9)) => {
            assert_eq!(RuntimeError::StepNotFound(9).message(), "Step 9 not found");
        },
        other => panic!("expected a step-not-found error, got {:?}", other),
    }
}

#[test]
fn step_reference_reads_each_property() {
    let source = "workflow \"W\" {\n\
        step 1: fetch(\"u\")\n\
        step 2: print(step 1.status)\n\
        step 3: print(step 1.message)\n\
        step 4: print(step 1.success)\n\
        step 5: print(step 1.other)\n\
        step 6: print(step 1)\n\
        }";
    let (executor, err) = run_dsl(source);
    assert!(err.is_none());
    assert_eq!(executor.get_step_result(2).unwrap().data, "200");
    assert_eq!(executor.get_step_result(3).unwrap().data, "Fetch completed successfully");
    assert_eq!(executor.get_step_result(4).unwrap().data, "true");
    let fetched = "{\"data\": \"Sample data from u\"}";
    assert_eq!(executor.get_step_result(5).unwrap().data, fetched);
    assert_eq!(executor.get_step_result(6).unwrap().data, fetched);
}

#[test]
fn reporting_commands_join_arguments_with_spaces() {
    let source =
        "workflow \"W\" { step 1: print(\"a\", \"b\", \"c\") step 2: notify(\"x\", \"y\") step 3: log() }";
    let (executor, err) = run_dsl(source);
    assert!(err.is_none());
    let print = executor.get_step_result(1).unwrap();
    assert_eq!(print.data, "a b c");
    assert!(print.success);
    assert_eq!(print.status, 200);
    assert_eq!(print.message, "Print executed successfully");
    let notify = executor.get_step_result(2).unwrap();
    assert_eq!(notify.data, "x y");
    assert_eq!(notify.status, 200);
    let log = executor.get_step_result(3).unwrap();
    assert_eq!(log.data, "");
    assert_eq!(log.message, "Log executed successfully");
}

#[test]
fn simulated_commands_fill_defaults() {
    let source = "workflow \"W\" { step 1: fetch() step 2: send_email() step 3: generate() }";
    let (executor, err) = run_dsl(source);
    assert!(err.is_none());
    assert_eq!(
        executor.get_step_result(1).unwrap().data,
        "{\"data\": \"Sample data from https://api.example.com\"}"
    );
    assert_eq!(executor.get_step_result(2).unwrap().data, "Email sent to user@example.com");
    assert_eq!(
        executor.get_step_result(3).unwrap().data,
        "{\"content\": \"Generated content for: Generate content\", \"model\": \"mistral-small-latest\", \"temperature\": \"0.7\"}"
    );
}

#[test]
fn structured_commands_report_their_arguments() {
    let source = "workflow \"W\" {\n\
        step 1: input(\"topic\", \"text\", \"Enter a topic\")\n\
        step 2: output(\"res\", \"pdf\", \"file\")\n\
        step 3: transform(\"res\", \"upper\")\n\
        step 4: validate(\"res\", \"required\")\n\
        }";
    let (executor, err) = run_dsl(source);
    assert!(err.is_none());
    assert_eq!(
        executor.get_step_result(1).unwrap().data,
        "{\"variable\": \"topic\", \"type\": \"text\", \"placeholder\": \"Enter a topic\"}"
    );
    assert_eq!(
        executor.get_step_result(2).unwrap().data,
        "{\"exported\": \"res\", \"format\": \"pdf\", \"file\": \"file\"}"
    );
    assert_eq!(
        executor.get_step_result(3).unwrap().data,
        "{\"transformed\": \"res\", \"type\": \"upper\"}"
    );
    assert_eq!(
        executor.get_step_result(4).unwrap().data,
        "{\"validated\": \"res\", \"type\": \"required\", \"valid\": true}"
    );
}

#[test]
fn comparison_operators_compare_numerically() {
    let checks = [
        ("2", ">", "10", false),
        ("10", ">", "2", true),
        ("2", "<", "10", true),
        ("3", ">=", "3", true),
        ("3", "<=", "2.5", false),
        ("1.5", ">", "1.25", true),
        ("0.5", "<", "0.75", true),
    ];
    for (left, op, right, expected) in checks {
        let source = format!(
            "workflow \"W\" {{ step 1: if (\"{}\" {} \"{}\") {{ step 2: print(\"t\") }} else {{ step 3: print(\"f\") }} }}",
            left, op, right
        );
        let (executor, err) = run_dsl(&source);
        assert!(err.is_none());
        if expected {
            assert!(executor.get_step_result(2).is_some(), "{} {} {}", left, op, right);
        } else {
            assert!(executor.get_step_result(3).is_some(), "{} {} {}", left, op, right);
        }
    }
}

#[test]
fn unparsable_comparison_operand_counts_as_zero() {
    let source = "workflow \"W\" { step 1: if (\"abc\" < \"1\") { step 2: print(\"t\") } }";
    let (executor, err) = run_dsl(source);
    assert!(err.is_none());
    assert_eq!(executor.get_step_result(2).unwrap().data, "t");
    let source = "workflow \"W\" { step 1: if (\"abc\" >= \"xyz\") { step 2: print(\"t\") } }";
    let (executor, err) = run_dsl(source);
    assert!(err.is_none());
    assert!(executor.get_step_result(2).is_some());
}

#[test]
fn equality_compares_strings_not_numbers() {
    let source = "workflow \"W\" { step 1: if (\"1.0\" == \"1\") { step 2: print(\"t\") } else { step 3: print(\"f\") } }";
    let (executor, err) = run_dsl(source);
    assert!(err.is_none());
    assert!(executor.get_step_result(3).is_some());
}

#[test]
fn truthiness_of_plain_conditions() {
    for (value, expected) in [("x", true), ("", false), ("0", false), ("false", false)] {
        let source = format!(
            "workflow \"W\" {{ step 1: if (\"{}\") {{ step 2: print(\"t\") }} else {{ step 3: print(\"f\") }} }}",
            value
        );
        let (executor, err) = run_dsl(&source);
        assert!(err.is_none());
        if expected {
            assert!(executor.get_step_result(2).is_some(), "value {:?}", value);
        } else {
            assert!(executor.get_step_result(3).is_some(), "value {:?}", value);
        }
    }
}

#[test]
fn plus_under_a_condition_is_a_comparison_error() {
    let source = "workflow \"W\" { step 1: if (\"a\" + \"b\") { step 2: print(\"t\") } }";
    let (_, err) = run_dsl(source);
    match err {
        Some(tradeflow::DslError::Runtime(RuntimeError::UnknownComparisonOperator(op))) => {
            assert_eq!(op, "+");
        },
        other => panic!("expected an unknown-comparison-operator error, got {:?}", other),
    }
}

#[test]
fn numeric_literals_evaluate_in_canonical_form() {
    let source = "workflow \"W\" { step 1: print(1.50) step 2: print(007) step 3: print(2.0) }";
    let (executor, err) = run_dsl(source);
    assert!(err.is_none());
    assert_eq!(executor.get_step_result(1).unwrap().data, "1.5");
    assert_eq!(executor.get_step_result(2).unwrap().data, "7");
    assert_eq!(executor.get_step_result(3).unwrap().data, "2");
}

#[test]
fn canon_decimal_normalizes_literals() {
    assert_eq!(canon_decimal("1.0"), "1");
    assert_eq!(canon_decimal("0.7"), "0.7");
    assert_eq!(canon_decimal("007.50"), "7.5");
    assert_eq!(canon_decimal("0.0"), "0");
    assert_eq!(canon_decimal("200"), "200");
}

#[test]
fn dec_cmp_orders_decimals_exactly() {
    assert_eq!(dec_cmp("1.5", "1.25"), DecOrder::Greater);
    assert_eq!(dec_cmp("-2", "1"), DecOrder::Less);
    assert_eq!(dec_cmp("1.0", "1"), DecOrder::Equal);
    assert_eq!(dec_cmp("abc", "0"), DecOrder::Equal);
    assert_eq!(dec_cmp("-0", "0"), DecOrder::Equal);
    assert_eq!(dec_cmp("10", "9.999999999999999999999"), DecOrder::Greater);
}

#[test]
fn u32_to_string_renders_decimal() {
    assert_eq!(u32_to_string(0), "0");
    assert_eq!(u32_to_string(200), "200");
    assert_eq!(u32_to_string(4294967295), "4294967295");
}

#[test]
fn executors_run_independently() {
    let (first, err1) = run_dsl("let a = \"1\"\nworkflow \"W\" { step 1: print(a) }");
    let (second, err2) = run_dsl("let a = \"2\"\nworkflow \"W\" { step 1: print(a) }");
    assert!(err1.is_none() && err2.is_none());
    assert_eq!(first.get_step_result(1).unwrap().data, "1");
    assert_eq!(second.get_step_result(1).unwrap().data, "2");
}

#[test]
fn executor_runs_a_parsed_program_directly() {
    let program =
        tradeflow::parse_dsl("let a = \"q\"\nworkflow \"W\" { step 1: print(a) }").unwrap();
    let mut executor = Executor::new();
    executor.execute(&program).expect("execution should succeed");
    assert_eq!(executor.get_step_result(1).unwrap().data, "q");
    // a second program reuses the same environment and result table
    let more = tradeflow::parse_dsl("workflow \"X\" { step 2: print(a) }").unwrap();
    executor.execute(&more).expect("execution should succeed");
    assert_eq!(executor.get_step_result(2).unwrap().data, "q");
}

#[test]
fn step_result_and_token_constructors_keep_their_fields() {
    let res = tradeflow::state::StepResult::new(true, "d".to_string(), 200, "m".to_string());
    assert!(res.success);
    assert_eq!(res.data, "d");
    assert_eq!(res.status, 200);
    assert_eq!(res.message, "m");
    let token = tradeflow::token::Token::new(
        tradeflow::token::TokenType::String,
        "\"x\"",
        Some("x"),
        3,
    );
    assert_eq!(token.token_type, tradeflow::token::TokenType::String);
    assert_eq!(token.lexeme, "\"x\"");
    assert_eq!(token.literal.as_deref(), Some("x"));
    assert_eq!(token.line, 3);
}
