use monkey_parser::ast::{CallExpression, Expression, ExpressionStatement, FunctionLiteral, Statement};
use monkey_parser::lexer::Lexer;
use monkey_parser::parser::Parser;
use std::collections::HashMap;

enum Literal {
    BoolLiteral(bool),
    NumberLiteral(i64),
    StringLiteral(String),
}

fn assert_prefix_expression(exp: &Expression, operator: &str, right: Literal) {
    if let Expression::PrefixExpression(op_exp) = exp {
        assert_eq!(op_exp.token.to_string(), operator);
        assert_literal_expression(&op_exp.right, right);
    } else {
        panic!("exp is not PrefixExpression");
    }
}

fn assert_infix_expression(exp: &Expression, left: Literal, operator: &str, right: Literal) {
    if let Expression::InfixExpression(op_exp) = exp {
        assert_literal_expression(&op_exp.left, left);
        assert_eq!(op_exp.token.to_string(), operator);
        assert_literal_expression(&op_exp.right, right);
    } else {
        panic!("exp is not InfixExpression");
    }
}

fn assert_literal_expression(exp: &Expression, value: Literal) {
    match value {
        Literal::BoolLiteral(v) => assert_bool_literal(exp, v),
        Literal::NumberLiteral(v) => assert_integer_literal(exp, v),
        Literal::StringLiteral(v) => assert_identifier(exp, &v),
    }
}

fn assert_integer_literal(exp: &Expression, value: i64) {
    if let Expression::IntegerLiteral(r) = exp {
        assert_eq!(r.value, value);
        assert_eq!(r.to_string(), value.to_string());
    } else {
        assert!(false);
    }
}

fn assert_bool_literal(exp: &Expression, value: bool) {
    if let Expression::BooleanLiteral(r) = exp {
        assert_eq!(r.value, value);
        assert_eq!(r.to_string(), value.to_string());
    } else {
        assert!(false);
    }
}

fn assert_identifier(exp: &Expression, value: &str) {
    if let Expression::Identifier(r) = exp {
        assert_eq!(r.to_string(), value);
    } else {
        assert!(false);
    }
}

fn assert_string_literal(exp: &Expression, value: &str) {
    if let Expression::StringLiteral(s) = exp {
        assert_eq!(s.to_string(), value);
    } else {
        assert!(false);
    }
}

fn unwrap_to_expression_statement(statement: &Statement) -> Option<&ExpressionStatement> {
    if let Statement::ExpressionStatement(e) = statement {
        Some(e)
    } else {
        None
    }
}

fn unwrap_to_fn_literal(expression: &Expression) -> Option<&FunctionLiteral> {
    if let Expression::FunctionLiteral(e) = expression {
        Some(e)
    } else {
        None
    }
}

fn unwrap_to_call_expression(expression: &Expression) -> Option<&CallExpression> {
    if let Expression::CallExpression(e) = expression {
        Some(e)
    } else {
        None
    }
}

#[test]
fn test_parser() {
    let input = "
let x = 5;
let y = 10;
return 5;
";
    let lexer = Lexer::new(input);
    let mut parser = Parser::new(lexer);

    let program = parser.parse_program();
    if parser.errors.len() > 0 {
        println!(
            "parser.errors.len() = {:?}, {:?}",
            parser.errors.len(),
            parser.errors
        );
        assert_eq!(parser.errors.len(), 0);
        return;
    }

    if let Statement::LetStatement(s) = &program.statements[0] {
        assert_eq!(s.token.to_string(), "let");
        assert_eq!(s.identifier.token.to_string(), "x");
    } else {
        assert!(false);
    }

    if let Statement::LetStatement(s) = &program.statements[1] {
        assert_eq!(s.token.to_string(), "let");
        assert_eq!(s.identifier.token.to_string(), "y");
    } else {
        assert!(false);
    }

    if let Statement::ReturnStatement(s) = &program.statements[2] {
        assert_eq!(s.token.to_string(), "return");
    } else {
        assert!(false);
    }
}

#[test]
fn test_identifier_expression() {
    let input = "foobar;";

    let lexer = Lexer::new(input);
    let mut parser = Parser::new(lexer);
    let program = parser.parse_program();

    if parser.errors.len() > 0 {
        println!("error: {:?}", parser.errors);
        return;
    }

    for s in &program.statements {
        println!("{}", s.to_string());
    }

    assert_eq!(program.statements.len(), 1);

    let exp_stmt = unwrap_to_expression_statement(&program.statements[0]).unwrap();
    assert_identifier(exp_stmt.expression.as_ref().unwrap(), "foobar");
}

#[test]
fn test_integer_literal_expression() {
    let input = "5;";

    let mut parser = Parser::new(Lexer::new(input));
    let program = parser.parse_program();
    if parser.errors.len() > 0 {
        println!("{:?}", parser.errors);
        return;
    }

    for s in &program.statements {
        println!("{}", s.to_string());
    }

    assert_eq!(program.statements.len(), 1);

    let exp_stmt = unwrap_to_expression_statement(&program.statements[0]).unwrap();
    assert_integer_literal(exp_stmt.expression.as_ref().unwrap(), 5);
}

#[test]
fn test_prefix_expression() {
    let prefix_tests = vec![
        ("!5", "!", Literal::NumberLiteral(5)),
        ("-15", "-", Literal::NumberLiteral(15)),
        ("!true", "!", Literal::BoolLiteral(true)),
        ("!false", "!", Literal::BoolLiteral(false)),
    ];

    for test in prefix_tests {
        let mut parser = Parser::new(Lexer::new(test.0));
        let program = parser.parse_program();
        if parser.errors.len() > 0 {
            println!("{:?}", parser.errors);
            assert!(false);
            continue;
        }

        for s in &program.statements {
            println!("{}", s.to_string());
        }
        assert_eq!(program.statements.len(), 1);
        let exp_stmt = unwrap_to_expression_statement(&program.statements[0]).unwrap();
        assert_prefix_expression(exp_stmt.expression.as_ref().unwrap(), test.1, test.2);
    }
}

#[test]
fn test_infix_expression() {
    let infix_tests = vec![
        (
            "5 + 5;",
            Literal::NumberLiteral(5),
            "+",
            Literal::NumberLiteral(5),
        ),
        (
            "5 - 5;",
            Literal::NumberLiteral(5),
            "-",
            Literal::NumberLiteral(5),
        ),
        (
            "5 * 5;",
            Literal::NumberLiteral(5),
            "*",
            Literal::NumberLiteral(5),
        ),
        (
            "5 / 5;",
            Literal::NumberLiteral(5),
            "/",
            Literal::NumberLiteral(5),
        ),
        (
            "5 > 5;",
            Literal::NumberLiteral(5),
            ">",
            Literal::NumberLiteral(5),
        ),
        (
            "5 < 5;",
            Literal::NumberLiteral(5),
            "<",
            Literal::NumberLiteral(5),
        ),
        (
            "5 == 5;",
            Literal::NumberLiteral(5),
            "==",
            Literal::NumberLiteral(5),
        ),
        (
            "5 != 5;",
            Literal::NumberLiteral(5),
            "!=",
            Literal::NumberLiteral(5),
        ),
        (
            "true == true",
            Literal::BoolLiteral(true),
            "==",
            Literal::BoolLiteral(true),
        ),
        (
            "true != false",
            Literal::BoolLiteral(true),
            "!=",
            Literal::BoolLiteral(false),
        ),
        (
            "false == false",
            Literal::BoolLiteral(false),
            "==",
            Literal::BoolLiteral(false),
        ),
    ];

    for test in infix_tests {
        let mut parser = Parser::new(Lexer::new(test.0));
        let program = parser.parse_program();
        if parser.errors.len() > 0 {
            println!("{:?}", parser.errors);
            assert!(false);
            continue;
        }

        for s in &program.statements {
            println!("{}", s.to_string());
        }
        assert_eq!(program.statements.len(), 1);

        let exp_stmt = unwrap_to_expression_statement(&program.statements[0]).unwrap();
        assert_infix_expression(
            exp_stmt.expression.as_ref().unwrap(),
            test.1,
            test.2,
            test.3,
        );
    }
}

#[test]
fn test_operator_precedence_parsing() {
    let test_vec = vec![
        ("-a * b", "((-a) * b)"),
        ("!-a", "(!(-a))"),
        ("a + b + c", "((a + b) + c)"),
        ("a + b - c", "((a + b) - c)"),
        ("a * b * c", "((a * b) * c)"),
        ("a * b / c", "((a * b) / c)"),
        ("a + b / c", "(a + (b / c))"),
        ("a + b * c + d / e - f", "(((a + (b * c)) + (d / e)) - f)"),
        ("3 + 4; -5 * 5", "(3 + 4)((-5) * 5)"),
        ("5 > 4 == 3 < 4", "((5 > 4) == (3 < 4))"),
        ("5 < 4 != 3 > 4", "((5 < 4) != (3 > 4))"),
        (
            "3 + 4 * 5 == 3 * 1 + 4 * 5",
            "((3 + (4 * 5)) == ((3 * 1) + (4 * 5)))",
        ),
        ("true", "true"),
        ("false", "false"),
        ("3 > 5 == false", "((3 > 5) == false)"),
        ("3 < 5 == true", "((3 < 5) == true)"),
        ("1 + (2 + 3) + 4", "((1 + (2 + 3)) + 4)"),
        ("(5 + 5) * 2", "((5 + 5) * 2)"),
        ("2 / (5 + 5)", "(2 / (5 + 5))"),
        ("-(5 + 5)", "(-(5 + 5))"),
        ("!(true == true)", "(!(true == true))"),
        ("a + add(b * c) + d", "((a + add((b * c))) + d)"),
        (
            "add(a, b, 1, 2 * 3, 4 + 5, add(6, 7 * 8))",
            "add(a, b, 1, (2 * 3), (4 + 5), add(6, (7 * 8)))",
        ),
        (
            "add(a + b + c * d / f + g)",
            "add((((a + b) + ((c * d) / f)) + g))",
        ),
    ];

    for test in test_vec {
        let mut parser = Parser::new(Lexer::new(test.0));
        let program = parser.parse_program();
        if parser.errors.len() > 0 {
            println!("{:?}", parser.errors);
            assert!(false);
            continue;
        }

        println!("{}", program.to_string());
        assert_eq!(program.to_string(), test.1);
    }
}

#[test]
fn test_if_expression() {
    let input = "if (x < y) { x }";

    let mut parser = Parser::new(Lexer::new(input));
    let program = parser.parse_program();
    if parser.errors.len() > 0 {
        println!("{:?}", parser.errors);
        assert!(false);
        return;
    }

    println!("{}", program.to_string());
    assert_eq!(program.statements.len(), 1);

    if let Statement::ExpressionStatement(exp) = &program.statements[0] {
        if let Expression::IfExpression(if_exp) = exp.expression.as_ref().unwrap() {
            assert_infix_expression(
                &if_exp.condition,
                Literal::StringLiteral("x".to_string()),
                "<",
                Literal::StringLiteral("y".to_string()),
            );

            assert_eq!(if_exp.consequence.statements.len(), 1);

            if let Statement::ExpressionStatement(c) = &if_exp.consequence.statements[0] {
                assert_identifier(c.expression.as_ref().unwrap(), "x");
            } else {
                assert!(false);
            }

            assert!(if_exp.alternative.is_none());
        } else {
            assert!(false);
        }
    } else {
        assert!(false);
    }
}

#[test]
fn test_function_literal_parsing() {
    let input = "fn (x, y) { x + y; }";
    let mut parser = Parser::new(Lexer::new(input));
    let program = parser.parse_program();
    if parser.errors.len() > 0 {
        println!("{:?}", parser.errors);
        assert!(false);
        return;
    }

    println!("{}", program.to_string());
    assert_eq!(program.statements.len(), 1);

    let exp_stmt = unwrap_to_expression_statement(&program.statements[0]).unwrap();
    let fn_exp = unwrap_to_fn_literal(exp_stmt.expression.as_ref().unwrap()).unwrap();
    assert_eq!(fn_exp.parameters.len(), 2);
    assert_eq!(fn_exp.parameters[0].token.to_string(), "x");
    assert_eq!(fn_exp.parameters[1].token.to_string(), "y");
    assert_eq!(fn_exp.body.statements.len(), 1);

    let body_stmt = unwrap_to_expression_statement(&fn_exp.body.statements[0])
        .unwrap()
        .expression
        .as_ref()
        .unwrap();

    assert_infix_expression(
        body_stmt,
        Literal::StringLiteral("x".to_string()),
        "+",
        Literal::StringLiteral("y".to_string()),
    );
}

#[test]
fn test_call_expression() {
    let input = "add(1, 2 * 3, 4 + 5);";
    let mut parser = Parser::new(Lexer::new(input));
    let program = parser.parse_program();
    if parser.errors.len() > 0 {
        println!("{:?}", parser.errors);
        assert!(false);
        return;
    }

    assert_eq!(program.statements.len(), 1);

    let exp_stmt = unwrap_to_expression_statement(&program.statements[0]).unwrap();
    let call_exp = unwrap_to_call_expression(exp_stmt.expression.as_ref().unwrap()).unwrap();

    assert_identifier(&call_exp.function, "add");
    assert_eq!(call_exp.args.len(), 3);
    assert_literal_expression(&call_exp.args[0], Literal::NumberLiteral(1));
    assert_infix_expression(
        &call_exp.args[1],
        Literal::NumberLiteral(2),
        "*",
        Literal::NumberLiteral(3),
    );
    assert_infix_expression(
        &call_exp.args[2],
        Literal::NumberLiteral(4),
        "+",
        Literal::NumberLiteral(5),
    );
}

#[test]
fn test_string_literal_expression() {
    let input = "\"hello world!\"";
    let mut parser = Parser::new(Lexer::new(input));
    let program = parser.parse_program();

    let exp_stmt = unwrap_to_expression_statement(&program.statements[0]).unwrap();
    assert_string_literal(exp_stmt.expression.as_ref().unwrap(), "hello world!");
}

#[test]
fn test_array_literal_expression() {
    let input = "[1, 2*2, 3+3]";
    let mut parser = Parser::new(Lexer::new(input));
    let program = parser.parse_program();

    let exp_stmt = unwrap_to_expression_statement(&program.statements[0]).unwrap();
    let expression = exp_stmt.expression.as_ref().unwrap();
    match expression {
        Expression::ArrayLiteral(a) => {
            assert_eq!(a.elements.len(), 3);
            assert_integer_literal(&a.elements[0], 1);
            assert_infix_expression(
                &a.elements[1],
                Literal::NumberLiteral(2),
                "*",
                Literal::NumberLiteral(2),
            );
            assert_infix_expression(
                &a.elements[2],
                Literal::NumberLiteral(3),
                "+",
                Literal::NumberLiteral(3),
            );
        }
        _ => panic!("not array literal"),
    }
}

#[test]
fn test_hash_literal_string_key() {
    let mut expected = HashMap::new();
    expected.insert("one", 1);
    expected.insert("two", 2);
    expected.insert("three", 3);

    let input = r#"{"one": 1, "two": 2, "three": 3}"#;
    let mut parser = Parser::new(Lexer::new(input));
    let program = parser.parse_program();

    let exp_stmt = unwrap_to_expression_statement(&program.statements[0]).unwrap();
    let expression = exp_stmt.expression.as_ref().unwrap();
    match expression {
        Expression::HashLiteral(h) => {
            assert_eq!(h.pairs.len(), 3);

            let mut iter = h.pairs.iter();
            let kv = iter.next().unwrap();
            let v = expected.get(kv.0.to_string().as_str()).unwrap();
            assert_integer_literal(&kv.1, *v);

            let kv = iter.next().unwrap();
            let v = expected.get(kv.0.to_string().as_str()).unwrap();
            assert_integer_literal(&kv.1, *v);

            let kv = iter.next().unwrap();
            let v = expected.get(kv.0.to_string().as_str()).unwrap();
            assert_integer_literal(&kv.1, *v);
        }
        _ => panic!("not hash literal"),
    }
}

#[test]
fn test_hash_literal_empty() {
    let input = "{}";
    let mut parser = Parser::new(Lexer::new(input));
    let program = parser.parse_program();

    let exp_stmt = unwrap_to_expression_statement(&program.statements[0]).unwrap();
    let expression = exp_stmt.expression.as_ref().unwrap();
    match expression {
        Expression::HashLiteral(h) => {
            assert_eq!(h.pairs.len(), 0);
        }
        _ => panic!("not hash literal"),
    }
}

#[test]
fn test_hash_literal_with_expression() {
    let mut expected: HashMap<&str, fn(&Expression)> = HashMap::new();
    expected.insert("one", |e| {
        assert_infix_expression(e, Literal::NumberLiteral(1), "+", Literal::NumberLiteral(0))
    });

    expected.insert("two", |e| {
        assert_infix_expression(
            e,
            Literal::NumberLiteral(10),
            "-",
            Literal::NumberLiteral(8),
        );
    });

    expected.insert("three", |e| {
        assert_infix_expression(
            e,
            Literal::NumberLiteral(15),
            "/",
            Literal::NumberLiteral(5),
        )
    });

    let input = r#"{"one": 1 + 0, "two": 10 - 8, "three": 15 / 5}"#;
    let mut parser = Parser::new(Lexer::new(input));
    let program = parser.parse_program();

    let exp_stmt = unwrap_to_expression_statement(&program.statements[0]).unwrap();
    let expression = exp_stmt.expression.as_ref().unwrap();
    match expression {
        Expression::HashLiteral(h) => {
            assert_eq!(h.pairs.len(), 3);
            let mut iter = h.pairs.iter();
            let kv = iter.next().unwrap();
            let f = expected.get(kv.0.to_string().as_str()).unwrap();
            f(&kv.1);

            let kv = iter.next().unwrap();
            let f = expected.get(kv.0.to_string().as_str()).unwrap();
            f(&kv.1);

            let kv = iter.next().unwrap();
            let f = expected.get(kv.0.to_string().as_str()).unwrap();
            f(&kv.1);
        }
        _ => panic!("not hash literal"),
    }
}
