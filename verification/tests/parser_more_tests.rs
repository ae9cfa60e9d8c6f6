use monkey::ast::expressions::Expression;
use monkey::ast::statements::Statement;
use monkey::ast::{Node, Program};
use monkey::lexer::Lexer;
use monkey::parser::errors::Error;
use monkey::parser::operators::{
    lookup_infix, lookup_prefix, token_precedence, InfixHandler, PrefixHandler,
};
use monkey::parser::precedence::{precedence_of, Precedence};
use monkey::parser::Parser;
use monkey::token::TokenType;

fn parse(input: &str) -> Result<Program, Vec<Error>> {
    Parser::new(Lexer::new(input)).parse_program()
}

fn rendered(input: &str) -> String {
    match parse(input) {
        Ok(program) => program.to_string(),
        Err(errors) => panic!("{} does not parse: {:?}", input, errors),
    }
}

fn messages(input: &str) -> Vec<String> {
    match parse(input) {
        Ok(program) => panic!("{} parses as {}", input, program.to_string()),
        Err(errors) => errors.iter().map(|error| error.to_string()).collect(),
    }
}

#[test]
fn prefix_binds_tighter_than_product() {
    assert_eq!(rendered("-a * b"), "((-a) * b)");
}

#[test]
fn operators_group_by_precedence_and_to_the_left() {
    assert_eq!(rendered("a + b * c + d / e - f"), "(((a + (b * c)) + (d / e)) - f)");
    assert_eq!(rendered("a - b - c"), "((a - b) - c)");
    assert_eq!(rendered("a == b == c"), "((a == b) == c)");
    assert_eq!(rendered("a < b < c"), "((a < b) < c)");
    assert_eq!(rendered("a / b / c"), "((a / b) / c)");
    assert_eq!(rendered("!a == b"), "((!a) == b)");
    assert_eq!(rendered("-a(b)"), "(-a(b))");
    assert_eq!(rendered("a + b(c)"), "(a + b(c))");
    assert_eq!(rendered("f(a)(b)"), "f(a)(b)");
}

#[test]
fn two_statements_render_one_after_the_other() {
    let program = parse("3 + 4; -5 * 5").unwrap();
    assert_eq!(program.statements.len(), 2);
    assert_eq!(program.to_string(), "(3 + 4)((-5) * 5)");
    assert_eq!(program.statements[0].to_string(), "(3 + 4)");
    assert_eq!(program.statements[1].to_string(), "((-5) * 5)");
}

#[test]
fn renders_conditionals() {
    assert_eq!(rendered("if (x < y) { x } else { y }"), "if (x < y) x else y");
    assert_eq!(rendered("if (x < y) { x }"), "if (x < y) x");
    assert_eq!(rendered("if (x) { let a = 1; a } else { }"), "if x let a = 1;a else ");
}

#[test]
fn renders_calls_and_functions() {
    assert_eq!(rendered("add(1, 2 * 3, 4 + 5)"), "add(1, (2 * 3), (4 + 5))");
    assert_eq!(rendered("add()"), "add()");
    assert_eq!(rendered("fn(x, y) { x + y; }"), "fn(x, y) (x + y)");
    assert_eq!(rendered("fn() { }"), "fn() ");
    assert_eq!(rendered("fn(x) { return x; }(5)"), "fn(x) return x;(5)");
}

#[test]
fn renders_let_and_return() {
    assert_eq!(rendered("let x = 1 + 2;"), "let x = (1 + 2);");
    assert_eq!(rendered("let x = 1"), "let x = 1;");
    assert_eq!(rendered("return -x;"), "return (-x);");
    assert_eq!(rendered("return f(x)"), "return f(x);");
    assert_eq!(rendered("let a = 1; let b = 2; a"), "let a = 1;let b = 2;a");
}

#[test]
fn a_function_literal_has_parameters_and_a_body() {
    let program = parse("fn(x, y) { x + y; }").unwrap();
    assert_eq!(program.statements.len(), 1);
    let Statement::Expression(statement) = &program.statements[0] else {
        panic!("not an expression statement");
    };
    let Expression::Function(function) = &statement.expression else {
        panic!("not a function literal");
    };
    assert_eq!(function.parameters.len(), 2);
    assert_eq!(function.parameters[0].value, "x");
    assert_eq!(function.parameters[1].value, "y");
    assert_eq!(function.body.statements.len(), 1);
    let Statement::Expression(body) = &function.body.statements[0] else {
        panic!("not an expression statement");
    };
    assert_eq!(body.expression.to_string(), "(x + y)");
    assert_eq!(function.token_literal(), "fn");
    assert_eq!(function.body.token_literal(), "{");
    assert_eq!(program.token_literal(), "fn");
}

#[test]
fn a_missing_assign_is_one_error() {
    assert_eq!(messages("let x 5;"), vec!["expected next token to be =, got INT instead"]);
}

#[test]
fn parsing_goes_on_after_the_semicolon() {
    assert_eq!(
        messages("let x 5; let y 6; let z = 7;"),
        vec![
            "expected next token to be =, got INT instead",
            "expected next token to be =, got INT instead",
        ]
    );
    assert_eq!(
        messages("let x 5; 1 + ; a"),
        vec![
            "expected next token to be =, got INT instead",
            "no prefix parse function for ; found",
        ]
    );
}

#[test]
fn parsing_starts_again_at_a_keyword() {
    assert_eq!(
        messages("let x 5 let 7"),
        vec![
            "expected next token to be =, got INT instead",
            "expected next token to be IDENT, got INT instead",
        ]
    );
    assert_eq!(
        messages("let x 5 return 1; let = 2;"),
        vec![
            "expected next token to be =, got INT instead",
            "expected next token to be IDENT, got = instead",
        ]
    );
}

#[test]
fn a_program_without_errors_is_returned() {
    assert!(parse("let x = 5; x").is_ok());
    assert_eq!(parse("").unwrap().statements.len(), 0);
    assert_eq!(parse("").unwrap().token_literal(), "");
    assert_eq!(parse("   \n").unwrap().to_string(), "");
}

#[test]
fn reports_each_kind_of_error() {
    assert_eq!(messages("let 5 = 5;"), vec!["expected next token to be IDENT, got INT instead"]);
    assert_eq!(messages("+"), vec!["no prefix parse function for + found"]);
    assert_eq!(messages("5 +"), vec!["no prefix parse function for EOF found"]);
    assert_eq!(messages("@"), vec!["no prefix parse function for ILLEGAL found"]);
    assert_eq!(messages("else"), vec!["no prefix parse function for ELSE found"]);
    assert_eq!(
        messages("9223372036854775808"),
        vec!["could not parse 9223372036854775808 as integer"]
    );
    assert_eq!(
        messages("let x = 99999999999999999999;"),
        vec!["could not parse 99999999999999999999 as integer"]
    );
    assert_eq!(messages("(1 + 2"), vec!["expected next token to be ), got EOF instead"]);
    assert_eq!(messages("if x { 1 }"), vec!["expected next token to be (, got IDENT instead"]);
    assert_eq!(messages("if (x) 1"), vec!["expected next token to be {, got INT instead"]);
    assert_eq!(messages("if (x { 1 }"), vec!["expected next token to be ), got { instead"]);
    assert_eq!(
        messages("if (x) { 1 } else 2"),
        vec!["expected next token to be {, got INT instead"]
    );
    assert_eq!(messages("fn x"), vec!["expected next token to be (, got IDENT instead"]);
    assert_eq!(messages("fn(1) {}"), vec!["expected next token to be IDENT, got INT instead"]);
    assert_eq!(messages("fn(x, 1) {}"), vec!["expected next token to be IDENT, got INT instead"]);
    assert_eq!(messages("fn(x y) {}"), vec!["expected next token to be ), got IDENT instead"]);
    assert_eq!(messages("fn(x) x"), vec!["expected next token to be {, got IDENT instead"]);
    assert_eq!(messages("add(1 2)"), vec!["expected next token to be ), got INT instead"]);
    assert_eq!(messages("add(1, )"), vec!["no prefix parse function for ) found"]);
    assert_eq!(messages("return ;"), vec!["no prefix parse function for ; found"]);
}

#[test]
fn the_largest_integer_parses() {
    assert_eq!(rendered("9223372036854775807"), "9223372036854775807");
    assert_eq!(rendered("0007"), "7");
    assert_eq!(rendered("0"), "0");
}

#[test]
fn a_block_may_end_at_the_end_of_the_input() {
    assert_eq!(rendered("if (x) { a"), "if x a");
    assert_eq!(rendered("fn(x) { x; y"), "fn(x) xy");
}

#[test]
fn the_semicolon_is_not_asked_for() {
    assert_eq!(parse("a b").unwrap().statements.len(), 2);
    assert_eq!(parse("a; b;").unwrap().statements.len(), 2);
    assert_eq!(parse("a;; b").unwrap_err().len(), 1);
}

#[test]
fn a_nul_character_ends_the_program() {
    assert_eq!(rendered("a\0b"), "a");
}

#[test]
fn parsing_again_after_the_end_gives_the_empty_program() {
    let mut parser = Parser::new(Lexer::new("let x 5;"));
    assert_eq!(parser.parse_program().unwrap_err().len(), 1);
    assert_eq!(parser.parse_program().unwrap().statements.len(), 0);
}

#[test]
fn a_parser_starts_where_its_lexer_stands() {
    let mut lexer = Lexer::new("let x = 5; y");
    for _ in 0..5 {
        lexer.next_token();
    }
    let program = Parser::new(lexer).parse_program().unwrap();
    assert_eq!(program.to_string(), "y");
}

#[test]
fn the_text_of_a_single_expression_parses_to_the_same_tree() {
    for input in [
        "-a * b",
        "a + b * c + d / e - f",
        "!-a",
        "5 > 4 == 3 < 4",
        "add(a, b, 1, 2 * 3, 4 + 5, add(6, 7 * 8))",
        "-(5 + 5)",
        "f(a)(b)",
        "let x = 1 + 2 * 3;",
        "return !(a == b);",
        "let a = 1; let b = -a; return f(a, b);",
        "007",
        "true",
    ] {
        let first = parse(input).unwrap();
        let text = first.to_string();
        let second = parse(&text).unwrap();
        assert_eq!(second.to_string(), text, "{}", input);
        assert_eq!(second.statements.len(), first.statements.len(), "{}", input);
    }
}

#[test]
fn the_text_of_a_conditional_does_not_parse_again() {
    let text = rendered("if (x < y) { x }");
    assert_eq!(text, "if (x < y) x");
    assert_eq!(messages(&text), vec!["expected next token to be {, got IDENT instead"]);
}

#[test]
fn precedence_table() {
    let table = [
        (TokenType::Eq, Precedence::Equals),
        (TokenType::NotEq, Precedence::Equals),
        (TokenType::Lt, Precedence::LessGreater),
        (TokenType::Gt, Precedence::LessGreater),
        (TokenType::Plus, Precedence::Sum),
        (TokenType::Minus, Precedence::Sum),
        (TokenType::Slash, Precedence::Product),
        (TokenType::Star, Precedence::Product),
        (TokenType::LParen, Precedence::Call),
        (TokenType::Semicolon, Precedence::Lowest),
        (TokenType::Ident, Precedence::Lowest),
        (TokenType::Eof, Precedence::Lowest),
        (TokenType::Bang, Precedence::Lowest),
        (TokenType::RParen, Precedence::Lowest),
    ];
    for (kind, precedence) in table {
        assert_eq!(precedence_of(&kind), precedence);
        assert_eq!(token_precedence(&kind), precedence);
    }
    assert!(Precedence::Lowest < Precedence::Equals);
    assert!(Precedence::Equals < Precedence::LessGreater);
    assert!(Precedence::LessGreater < Precedence::Sum);
    assert!(Precedence::Sum < Precedence::Product);
    assert!(Precedence::Product < Precedence::Prefix);
    assert!(Precedence::Prefix < Precedence::Call);
    assert_eq!(Precedence::Lowest.rank(), 0);
    assert_eq!(Precedence::Call.rank(), 6);
}

#[test]
fn parse_tables() {
    assert_eq!(lookup_prefix(TokenType::Ident), Some(PrefixHandler::Identifier));
    assert_eq!(lookup_prefix(TokenType::LParen), Some(PrefixHandler::Grouped));
    assert_eq!(lookup_prefix(TokenType::Plus), None);
    assert_eq!(lookup_infix(TokenType::LParen), Some(InfixHandler::Call));
    assert_eq!(lookup_infix(TokenType::Bang), None);
    assert!(matches!(lookup_infix(TokenType::Minus), Some(InfixHandler::Binary(_))));
    assert!(matches!(lookup_prefix(TokenType::Minus), Some(PrefixHandler::Prefix(_))));
}

#[test]
fn errors_hold_their_message() {
    let error = Error::new("something");
    assert_eq!(error.to_string(), "something");
    assert_eq!(error.clone(), error);
    assert_eq!(
        Error::unexpected_token(TokenType::Assign, TokenType::Int).message,
        "expected next token to be =, got INT instead"
    );
    assert_eq!(
        Error::no_prefix_parse_fn(TokenType::Eof).message,
        "no prefix parse function for EOF found"
    );
    assert_eq!(Error::invalid_integer("12x").message, "could not parse 12x as integer");
}

#[test]
fn the_loop_answers_with_the_text_or_the_errors() {
    assert_eq!(monkey::repl::respond("let x = 1 + 2;\n"), Ok("let x = (1 + 2);".to_string()));
    assert_eq!(monkey::repl::respond("\n"), Ok("".to_string()));
    assert_eq!(
        monkey::repl::respond("let x 5; let 7;\n"),
        Err(vec![
            "expected next token to be =, got INT instead".to_string(),
            "expected next token to be IDENT, got INT instead".to_string(),
        ])
    );
    assert_eq!(monkey::repl::parse("a + b").unwrap().to_string(), "(a + b)");
    assert_eq!(
        monkey::repl::greeting("ada"),
        "Hello, ada! This is the Monkey programming language!"
    );
}

#[test]
fn each_broken_statement_leaves_one_error() {
    assert_eq!(messages("let a 1; let b 2; let c 3;").len(), 3);
    assert_eq!(messages("let a = 1; let b 2; let c = 3; let d 4;").len(), 2);
    assert_eq!(messages("let a 1 2 3 4 5 6; x").len(), 1);
    assert_eq!(messages("return ); let x = 1; let 5;").len(), 2);
    assert_eq!(
        messages("let x 5; let y = 1; let z 6;"),
        vec![
            "expected next token to be =, got INT instead",
            "expected next token to be =, got INT instead",
        ]
    );
}

#[test]
fn statements_that_stand_cleanly_one_after_the_other_parse_again() {
    for input in ["5; x", "a + b; c", "f(x); y", "5; let y = 1;", "5; true", "-a; let b = a; b"] {
        let first = parse(input).unwrap();
        let text = first.to_string();
        let second = parse(&text).unwrap();
        assert_eq!(second.statements.len(), first.statements.len(), "{}", input);
        for (a, b) in first.statements.iter().zip(second.statements.iter()) {
            assert_eq!(a.to_string(), b.to_string(), "{}", input);
        }
    }
}

#[test]
fn statements_that_run_into_each_other_do_not_parse_again() {
    // `foo` and `bar` read as the one name `foobar`.
    let text = rendered("foo; bar");
    assert_eq!(text, "foobar");
    assert_eq!(parse(&text).unwrap().statements.len(), 1);
    // `5` and `6` read as the one number `56`.
    assert_eq!(parse(&rendered("5; 6")).unwrap().statements.len(), 1);
    // `(a + b)` in front of `(-c)` reads as a call.
    assert_eq!(rendered("a + b; -c"), "(a + b)(-c)");
    assert_eq!(parse("(a + b)(-c)").unwrap().statements.len(), 1);
}

#[test]
fn copies_say_the_same() {
    let program = parse("let f = fn(x, y) { if (x < y) { x } else { -y } }; f(1, 2 * 3)").unwrap();
    let copy = program.clone();
    assert_eq!(copy, program);
    assert_eq!(copy.to_string(), program.to_string());
    let statement = program.statements[0].clone();
    assert_eq!(statement, program.statements[0]);
    let Statement::Let(node) = &program.statements[0] else {
        panic!("not a let statement");
    };
    assert_eq!(node.value.clone(), node.value);
    assert_eq!(node.name.clone(), node.name);
}
