use monkey_rs::ast::{Expression, Program, Statement};
use monkey_rs::token::{Token, TokenType};

#[test]
fn test_to_string() {
    let program = Program {
        statements: vec![Statement::LetStatement {
            token: Token::new(TokenType::LET, "let"),
            name: Box::new(Expression::Identifier {
                token: Token::new(TokenType::IDENT, "myVar"),
                value: "myVar".to_string(),
            }),
            value: Box::new(Expression::Identifier {
                token: Token::new(TokenType::IDENT, "anotherVar"),
                value: "anotherVar".to_string(),
            }),
        }],
    };
    assert_eq!(program.to_string(), "let myVar = anotherVar;".to_string());
}
