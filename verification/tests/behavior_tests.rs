use monkey_parser::ast::{Expression, Statement};
use monkey_parser::lexer::Lexer;
use monkey_parser::parser::Parser;

fn parse(input: &str) -> (monkey_parser::ast::Program, Vec<String>) {
    let mut parser = Parser::new(Lexer::new(input));
    let program = parser.parse_program();
    (program, parser.errors)
}

#[test]
fn test_empty_input_gives_empty_program() {
    let (program, errors) = parse("");
    assert_eq!(program.statements.len(), 0);
    assert_eq!(errors.len(), 0);
}

#[test]
fn test_malformed_let_reports_and_drops() {
    let (program, errors) = parse("let = 5;");
    assert!(errors.len() >= 1);
    for s in &program.statements {
        assert!(!matches!(s, Statement::LetStatement(_)));
    }
}

#[test]
fn test_missing_identifier_value_still_counts_clean_statements() {
    let (program, errors) = parse("let x = 5; let y = 10;");
    assert_eq!(errors.len(), 0);
    assert_eq!(program.statements.len(), 2);
}

#[test]
fn test_hash_duplicate_keys_last_write_wins() {
    let (program, errors) = parse(r#"{"one": 1, "one": 2}"#);
    assert_eq!(errors.len(), 0);
    if let Statement::ExpressionStatement(e) = &program.statements[0] {
        if let Expression::HashLiteral(h) = e.expression.as_ref().unwrap() {
            assert_eq!(h.pairs.len(), 1);
            assert_eq!(h.pairs[0].0.to_string(), "one");
            if let Expression::IntegerLiteral(v) = &h.pairs[0].1 {
                assert_eq!(v.value, 2);
            } else {
                panic!("value is not an integer literal");
            }
        } else {
            panic!("not hash literal");
        }
    } else {
        panic!("not expression statement");
    }
}

#[test]
fn test_display_round_trip_is_idempotent() {
    let inputs = vec![
        "a + b + c",
        "a + b * c + d / e - f",
        "(5 + 5) * 2",
        "add(a, b, 1, 2 * 3, 4 + 5, add(6, 7 * 8))",
        "!(true == true)",
        "[1, 2 * 2, 3 + 3]",
    ];
    for input in inputs {
        let (program, errors) = parse(input);
        assert_eq!(errors.len(), 0);
        let once = program.to_string();
        let (again, errors2) = parse(once.as_str());
        assert_eq!(errors2.len(), 0);
        assert_eq!(again.to_string(), once);
    }
}

#[test]
fn test_integer_literal_overflow_reports() {
    let (_, errors) = parse("99999999999999999999;");
    assert!(errors.len() >= 1);
}

#[test]
fn test_no_prefix_parser_reports() {
    let (_, errors) = parse("+;");
    assert!(errors.len() >= 1);
}

#[test]
fn test_if_else_parses() {
    let (program, errors) = parse("if (x < y) { x } else { y }");
    assert_eq!(errors.len(), 0);
    if let Statement::ExpressionStatement(e) = &program.statements[0] {
        if let Expression::IfExpression(if_exp) = e.expression.as_ref().unwrap() {
            assert!(if_exp.alternative.is_some());
        } else {
            panic!("not if expression");
        }
    } else {
        panic!("not expression statement");
    }
}

#[test]
fn test_diagnostic_texts_are_fixed() {
    let (_, errors) = parse("let = 5;");
    assert_eq!(
        errors[0],
        "expected next token to be an identifier, got = instead"
    );
    let (_, errors) = parse("let x 5;");
    assert_eq!(errors[0], "expected next token to be =, got 5 instead");
    let (_, errors) = parse("*;");
    assert_eq!(errors[0], "no prefix parse function for * found");
    let (_, errors) = parse("99999999999999999999;");
    assert_eq!(
        errors[0],
        "could not parse 99999999999999999999 as integer"
    );
}

#[test]
fn test_fn_parameters_must_be_identifiers() {
    let (program, errors) = parse("fn (x, 5) { x }");
    assert!(errors.len() >= 1);
    assert_eq!(
        errors[0],
        "expected next token to be an identifier, got 5 instead"
    );
    for s in &program.statements {
        if let Statement::ExpressionStatement(e) = s {
            if let Some(Expression::FunctionLiteral(_)) = e.expression {
                panic!("a malformed parameter list still produced a function literal");
            }
        }
    }
}
