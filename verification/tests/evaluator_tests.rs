use monkey::ast::expressions::{Expression, Identifier, IntegerLiteral, PrefixExpression};
use monkey::ast::operators::{PrefixOperator, PrefixOperatorType};
use monkey::ast::statements::{ExpressionStatement, Statement};
use monkey::ast::{Nodes, Program};
use monkey::evaluator::eval;
use monkey::evaluator::expressions::eval_expression;
use monkey::evaluator::statements::eval_statement;
use monkey::lexer::Lexer;
use monkey::object::boolean::Boolean;
use monkey::object::integer::Integer;
use monkey::object::null::Null;
use monkey::object::{Object, ObjectType, Objective};
use monkey::parser::Parser;
use monkey::token::{Token, TokenType};

/// Parses the input source code
fn parse(input: &str) -> Program {
    let lexer = Lexer::new(input);
    let mut parser = Parser::new(lexer);
    parser.parse_program().unwrap()
}

/// Tests an integer object
fn test_integer_object(obj: Option<Object>, value: i64) {
    match obj {
        Some(Object::Integer(integer)) => assert_eq!(integer.value, value),
        _ => panic!("Object is not an Integer, found {:?}", obj),
    }
}

/// Tests a boolean object
fn test_boolean_object(obj: Option<Object>, value: bool) {
    match obj {
        Some(Object::Boolean(boolean)) => assert_eq!(boolean.value, value),
        _ => panic!("Object is not a Boolean, found {:?}", obj),
    }
}

/// Tests the evaluation of an integer expression
#[test]
fn test_eval_integer_expression() {
    let tests = vec![("5", 5), ("10", 10)];

    for (input, expected) in tests {
        let program = parse(input);
        let obj = eval(Nodes::Program(program));

        test_integer_object(obj, expected);
    }
}

/// Tests the evaluation of a boolean expression
#[test]
fn test_eval_boolean_expression() {
    let tests = vec![("true", true), ("false", false)];

    for (input, expected) in tests {
        let program = parse(input);
        let obj = eval(Nodes::Program(program));

        test_boolean_object(obj, expected);
    }
}

#[test]
fn evaluates_prefix_expressions() {
    test_integer_object(eval(Nodes::Program(parse("5"))), 5);
    test_boolean_object(eval(Nodes::Program(parse("true"))), true);
    test_boolean_object(eval(Nodes::Program(parse("!true"))), false);
    test_boolean_object(eval(Nodes::Program(parse("!false"))), true);
    test_boolean_object(eval(Nodes::Program(parse("!!5"))), true);
    test_boolean_object(eval(Nodes::Program(parse("!5"))), false);
    test_boolean_object(eval(Nodes::Program(parse("!!true"))), true);
    test_integer_object(eval(Nodes::Program(parse("-10"))), -10);
    test_integer_object(eval(Nodes::Program(parse("--10"))), 10);
    test_integer_object(eval(Nodes::Program(parse("-0"))), 0);
    test_integer_object(
        eval(Nodes::Program(parse("-9223372036854775807"))),
        -9223372036854775807,
    );
}

#[test]
fn minus_on_a_boolean_has_no_value() {
    assert_eq!(eval(Nodes::Program(parse("-true"))), None);
    assert_eq!(eval(Nodes::Program(parse("!-true"))), None);
}

#[test]
fn a_program_has_the_value_of_its_last_statement() {
    test_integer_object(eval(Nodes::Program(parse("1; 2; 3"))), 3);
    test_boolean_object(eval(Nodes::Program(parse("1; !2"))), false);
    assert_eq!(eval(Nodes::Program(parse(""))), None);
    assert_eq!(eval(Nodes::Program(parse("5; let x = 1;"))), None);
    assert_eq!(eval(Nodes::Program(parse("-true; 5"))), Some(Object::Integer(Integer::new(5))));
}

#[test]
fn unsupported_constructs_have_no_value() {
    for input in [
        "let x = 5;",
        "return 5;",
        "x",
        "1 + 2",
        "if (true) { 1 }",
        "fn(x) { x }",
        "add(1, 2)",
        "!x",
        "-(1 + 2)",
    ] {
        assert_eq!(eval(Nodes::Program(parse(input))), None, "{}", input);
    }
}

#[test]
fn evaluates_single_nodes() {
    let program = parse("-7; let y = 2;");
    let first = program.statements[0].clone();
    let second = program.statements[1].clone();
    assert_eq!(eval_statement(first.clone()), Some(Object::Integer(Integer::new(-7))));
    assert_eq!(eval(Nodes::Statement(first.clone())), Some(Object::Integer(Integer::new(-7))));
    assert_eq!(eval_statement(second), None);
    let Statement::Expression(statement) = first else {
        panic!("not an expression statement");
    };
    assert_eq!(
        eval_expression(statement.expression.clone()),
        Some(Object::Integer(Integer::new(-7)))
    );
    assert_eq!(
        eval(Nodes::Expression(statement.expression)),
        Some(Object::Integer(Integer::new(-7)))
    );
}

fn literal(value: i64) -> Expression {
    Expression::Integer(IntegerLiteral {
        token: Token::new(TokenType::Int, &value.to_string()),
        value,
    })
}

fn negative(right: Expression) -> Expression {
    Expression::Prefix(PrefixExpression {
        token: Token::new(TokenType::Minus, "-"),
        operator: PrefixOperator::new(Token::new(TokenType::Minus, "-"), PrefixOperatorType::Neg),
        right: Box::new(right),
    })
}

#[test]
fn the_least_integer_is_its_own_negative() {
    assert_eq!(
        eval_expression(negative(literal(i64::MIN))),
        Some(Object::Integer(Integer::new(i64::MIN)))
    );
    assert_eq!(
        eval_expression(negative(literal(i64::MAX))),
        Some(Object::Integer(Integer::new(-i64::MAX)))
    );
    let statement = Statement::Expression(ExpressionStatement {
        token: Token::new(TokenType::Minus, "-"),
        expression: negative(literal(3)),
    });
    assert_eq!(eval_statement(statement), Some(Object::Integer(Integer::new(-3))));
    let name = Expression::Identifier(Identifier {
        token: Token::new(TokenType::Ident, "a"),
        value: "a".to_string(),
    });
    assert_eq!(eval_expression(negative(name)), None);
}

#[test]
fn objects_have_a_type_and_a_printed_form() {
    let integer = Object::Integer(Integer::new(-42));
    let boolean = Object::Boolean(Boolean::new(true));
    let null = Object::Null(Null::new());
    assert_eq!(integer.object_type(), ObjectType::Integer);
    assert_eq!(boolean.object_type(), ObjectType::Boolean);
    assert_eq!(null.object_type(), ObjectType::Null);
    assert_eq!(integer.inspect(), "-42");
    assert_eq!(boolean.inspect(), "true");
    assert_eq!(null.inspect(), "null");
    assert_eq!(integer.to_string(), "-42");
    assert_eq!(Object::Boolean(Boolean::new(false)).to_string(), "false");
    assert_eq!(null.to_string(), "null");
    assert_eq!(Integer::new(7).object_type(), ObjectType::Integer);
    assert_eq!(Integer::new(i64::MIN).inspect(), "-9223372036854775808");
    assert_eq!(Integer::new(i64::MAX).to_string(), "9223372036854775807");
    assert_eq!(Integer::new(0).to_string(), "0");
    assert_eq!(Boolean::new(false).object_type(), ObjectType::Boolean);
    assert_eq!(Boolean::new(false).inspect(), "false");
    assert_eq!(Null::new().object_type(), ObjectType::Null);
    assert_eq!(Null::new().inspect(), "null");
    assert_eq!(Null::new(), Null::default());
}
