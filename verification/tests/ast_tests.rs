use monkey::ast::expressions::{Expression, Identifier};
use monkey::ast::statements::{LetStatement, Statement};
use monkey::ast::Program;
use monkey::token::{Token, TokenType};

#[test]
fn test_formatting() {
    let ast = Program {
        statements: vec![Statement::Let(LetStatement {
            token: Token {
                kind: TokenType::Let,
                literal: "let".to_string(),
            },
            name: Identifier {
                token: Token {
                    kind: TokenType::Ident,
                    literal: "myVar".to_string(),
                },
                value: "myVar".to_string(),
            },
            value: Box::new(Expression::Identifier(Identifier {
                token: Token {
                    kind: TokenType::Ident,
                    literal: "anotherVar".to_string(),
                },
                value: "anotherVar".to_string(),
            })),
        })],
    };

    assert_eq!(ast.to_string(), "let myVar = anotherVar;".to_string());
}
