use monkey_rs::ast::{Expression, Node, Statement};
use monkey_rs::lexer::Lexer;
use monkey_rs::parser::Parser;
use monkey_rs::token::TokenType;

/// Prints any recorded parse diagnostics, to ease debugging a failure.
fn check_parser_errors(parser: &Parser) {
    let errors = parser.get_errors();
    if errors.len() == 0 {
        return;
    }
    println!("\n\n{} parse diagnostics were recorded.", errors.len());
    for error in errors {
        println!("{}", error);
    }
    println!();
}

#[test]
fn test_return_statements() {
    let input = "
            return 1;
            return x + y;
            return z;
        ";

    let lexer = Lexer::new(input);
    let mut parser = Parser::new(lexer);

    let program_opt = parser.parse_program();
    check_parser_errors(&parser);

    if program_opt.is_none() {
        assert!(false, "parsing the return statements failed: {}", input);
    }
    let program = program_opt.unwrap();
    let statements = &program.statements;
    if statements.len() != 3 {
        assert!(false, "wrong number of return statements: {:?}", statements);
    }

    let tests = ["1", "(x + y)", "z"];
    for (i, test) in tests.iter().enumerate() {
        test_return_statement(&program.statements[i], test);
    }
}

fn test_return_statement(stmt: &Statement, expect: &str) {
    match stmt {
        Statement::ReturnStatement {
            token,
            return_value,
        } => {
            assert_eq!(token.get_literal(), "return");
            assert_eq!(return_value.get_value(), expect.to_string());
        }
        _ => {
            assert!(false, "not a return statement: {:?}", stmt);
        }
    }
}

#[test]
fn test_let_statements() {
    let input = "
            let x = 5;
            let y = a+b;
            let foobar = c;
        ";

    let lexer = Lexer::new(input);
    let mut parser = Parser::new(lexer);

    let program_opt = parser.parse_program();
    check_parser_errors(&parser);

    if program_opt.is_none() {
        assert!(false, "parsing the let statements failed: {}", input);
    }
    let program = program_opt.unwrap();
    let statements = &program.statements;
    if statements.len() != 3 {
        assert!(false, "wrong number of let statements: {:?}", statements);
    }

    let tests = [("x", "5"), ("y", "(a + b)"), ("foobar", "c")];

    for (i, test) in tests.iter().enumerate() {
        let stmt = &statements[i];
        test_let_statement(stmt, test.0, test.1);
    }
}

fn test_let_statement(stmt: &Statement, name_expect: &str, value_expect: &str) {
    match stmt {
        Statement::LetStatement { token, name, value } => {
            assert_eq!(token.get_literal(), "let");
            assert_eq!(name.get_value(), name_expect);
            assert_eq!(value.get_value(), value_expect);
        }
        _ => {
            assert!(false, "not a let statement.");
        }
    }
}

#[test]
fn test_identifier_expression() {
    let input = "foobar;";
    test_identifier(input, "foobar")
}

fn test_identifier(input: &str, res: &str) {
    let lexer = Lexer::new(input);
    let mut parser = Parser::new(lexer);
    let program_opt = parser.parse_program();
    check_parser_errors(&parser);
    if program_opt.is_none() {
        assert!(false, "parsing the program failed: {}", input);
    }
    let program = program_opt.unwrap();

    if program.statements.len() != 1 {
        assert!(
            false,
            "wrong number of identifiers parsed: {:?}",
            program.statements
        );
    }

    let stmt = &program.statements[0];
    assert_eq!(stmt.to_string(), format!("{};", res));
    if let Statement::ExpressionStatement {
        token: _,
        expression,
    } = stmt
    {
        if let Expression::Identifier {
            ref token,
            ref value,
        } = **expression
        {
            if &token.get_literal() != res {
                assert!(false, "the input did not yield the identifier \"{}\"", res);
            }
            if value != res {
                assert!(false, "the token's literal was not \"{}\"", res);
            }
        }
    } else {
        assert!(false, "the input is not an expression statement: {}", input);
    }
}

#[test]
fn test_integer_literal_expression() {
    let input = "5;";

    let lexer = Lexer::new(input);
    let mut parser = Parser::new(lexer);
    let program_opt = parser.parse_program();
    check_parser_errors(&parser);
    if program_opt.is_none() {
        assert!(false, "parsing the program failed: {}", input);
    }
    let program = program_opt.unwrap();

    if program.statements.len() != 1 {
        assert!(
            false,
            "wrong number of integer literals parsed: {:?}",
            program.statements
        );
    }

    let stmt = &program.statements[0];
    assert_eq!(stmt.to_string(), input);
    if let Statement::ExpressionStatement {
        token: _,
        expression,
    } = stmt
    {
        if let Expression::IntegerLiteral { ref token, value } = **expression {
            assert_eq!(token.get_literal(), "5");
            assert_eq!(value, 5_i64);
        }
    } else {
        assert!(false, "the input is not an expression statement: {}", input);
    }
}

#[test]
fn test_boolean_literal_expression() {
    let tests = [("false;", false), ("true;", true)];

    for (input, res) in tests.to_vec().into_iter() {
        let lexer = Lexer::new(input);
        let mut parser = Parser::new(lexer);
        let program_opt = parser.parse_program();
        check_parser_errors(&parser);
        if program_opt.is_none() {
            assert!(false, "parsing the program failed: {}", input);
        }
        let program = program_opt.unwrap();

        if program.statements.len() != 1 {
            assert!(
                false,
                "wrong number of literals parsed: {:?}",
                program.statements
            );
        }

        let stmt = &program.statements[0];
        assert_eq!(stmt.to_string(), input);
        if let Statement::ExpressionStatement {
            token: _,
            expression,
        } = stmt
        {
            if let Expression::BooleanLiteral { ref token, value } = **expression {
                assert_eq!(token.get_literal(), res.to_string());
                assert_eq!(value, res);
            }
        } else {
            assert!(false, "the input is not an expression statement: {}", input);
        }
    }
}

#[test]
fn test_prefix_expressions() {
    let prefix_tests = vec![
        ("!5;", "!", 5_i64, "(!5);"),
        ("-15;", "-", 15_i64, "(-15);"),
    ];

    for (input, prefix, v, expect) in prefix_tests {
        let lexer = Lexer::new(input);
        let mut parser = Parser::new(lexer);
        let program_opt = parser.parse_program();
        check_parser_errors(&parser);
        if program_opt.is_none() {
            assert!(false, "parsing the program failed: {}", input);
        }
        let program = program_opt.unwrap();

        if program.statements.len() != 1 {
            assert!(
                false,
                "wrong number of integer literals parsed: {:?}",
                program.statements
            );
        }

        let stmt = &program.statements[0];
        assert_eq!(stmt.to_string(), expect);
        if let Statement::ExpressionStatement {
            token: _,
            expression,
        } = stmt
        {
            if let Expression::PrefixExpression {
                operator,
                token,
                right_exp: exp,
            } = &**expression
            {
                assert_eq!(&token.get_literal(), operator);
                assert_eq!(operator, prefix);
                test_integer_literal(v, &**exp);
            }
        } else {
            assert!(false, "the input is not an expression statement: {}", input);
        }
    }
}

fn test_integer_literal(v: i64, exp: &Expression) {
    if let Expression::IntegerLiteral { token, value } = exp {
        assert_eq!(token.get_token_type(), TokenType::INT);
        assert_eq!(token.get_literal(), format!("{}", v));
        assert_eq!(*value, v);
    } else {
        assert!(
            false,
            "not an integer literal: {}",
            exp.get_token().get_literal()
        )
    }
}

#[test]
fn test_infix_expressions() {
    let infix_tests = vec![
        ("5 + 5;", 5_i64, "+", 5_i64),
        ("5 - 5;", 5_i64, "-", 5_i64),
        ("5 * 5;", 5_i64, "*", 5_i64),
        ("5 / 5;", 5_i64, "/", 5_i64),
        ("5 > 5;", 5_i64, ">", 5_i64),
        ("5 < 5;", 5_i64, "<", 5_i64),
        ("5 == 5;", 5_i64, "==", 5_i64),
        ("5 != 5;", 5_i64, "!=", 5_i64),
    ];

    for (input, left_value, infix_op, right_value) in infix_tests {
        let lexer = Lexer::new(input);
        let mut parser = Parser::new(lexer);
        let program_opt = parser.parse_program();
        check_parser_errors(&parser);
        if program_opt.is_none() {
            assert!(false, "parsing the program failed: {}", input);
        }
        let program = program_opt.unwrap();

        if program.statements.len() != 1 {
            assert!(
                false,
                "wrong number of integer literals parsed: {:?}",
                program.statements
            );
        }

        let stmt = &program.statements[0];
        if let Statement::ExpressionStatement {
            token: _,
            expression,
        } = stmt
        {
            if let Expression::InfixExpression {
                operator,
                token,
                left_exp,
                right_exp,
            } = &**expression
            {
                assert_eq!(&token.get_literal(), operator);
                assert_eq!(operator, infix_op);
                test_integer_literal(left_value, &**left_exp);
                test_integer_literal(right_value, &**right_exp);
            }
        } else {
            assert!(false, "the input is not an expression statement.");
        }
    }
}

#[test]
fn test_if_expression() {
    let input = "if (x > y){ x; }";

    let lexer = Lexer::new(input);
    let mut parser = Parser::new(lexer);
    let program_opt = parser.parse_program();
    check_parser_errors(&parser);
    if program_opt.is_none() {
        assert!(false, "parsing the program failed: {}", input);
    }
    let program = program_opt.unwrap();
    if program.statements.len() != 1 {
        assert!(
            false,
            "wrong number of statements parsed: {:?}",
            program.statements
        );
    }
    if let Statement::ExpressionStatement {
        token: _,
        expression,
    } = &program.statements[0]
    {
        assert_eq!(expression.to_string(), "if (x > y){x;}");
        if let Expression::IfExpression {
            token: _,
            condition,
            consequence,
            alternative,
        } = &**expression
        {
            assert_eq!(condition.to_string(), "(x > y)");
            assert_eq!(consequence.to_string(), "{x;}");
            assert!(alternative.is_none(), "an else branch is present.");
        } else {
            assert!(
                false,
                "the parse result is not an if expression: {}",
                expression.get_token().get_literal()
            );
        }
    } else {
        assert!(
            false,
            "the input is not an expression statement: {}",
            program.statements[0].get_token().get_literal()
        );
    }
}

#[test]
fn test_if_else_expression() {
    let input = "if (x > y){ x; }else{y;}";

    let lexer = Lexer::new(input);
    let mut parser = Parser::new(lexer);
    let program_opt = parser.parse_program();
    check_parser_errors(&parser);
    if program_opt.is_none() {
        assert!(false, "parsing the program failed: {}", input);
    }
    let program = program_opt.unwrap();
    if program.statements.len() != 1 {
        assert!(
            false,
            "wrong number of statements parsed: {:?}",
            program.statements
        );
    }
    if let Statement::ExpressionStatement {
        token: _,
        expression,
    } = &program.statements[0]
    {
        assert_eq!(expression.to_string(), "if (x > y){x;} else{y;}");
        if let Expression::IfExpression {
            token: _,
            condition,
            consequence,
            alternative,
        } = &**expression
        {
            assert_eq!(condition.to_string(), "(x > y)");
            assert_eq!(consequence.to_string(), "{x;}");
            if let Some(alt) = &**alternative {
                assert_eq!(alt.to_string(), "{y;}")
            } else {
                assert!(false, "the else branch could not be read.");
            }
        } else {
            assert!(
                false,
                "the parse result is not an if expression: {}",
                expression.get_token().get_literal()
            );
        }
    } else {
        assert!(
            false,
            "the input is not an expression statement: {}",
            program.statements[0].get_token().get_literal()
        );
    }
}

#[test]
fn test_function_literal() {
    let tests = [
        ("fn() {}", "fn(){}"),
        ("fn(x){}", "fn(x){}"),
        ("fn(x, y) {}", "fn(x, y){}"),
        ("fn(x, y) {x+y}", "fn(x, y){(x + y);}"),
    ];

    for (input, expect) in tests.into_iter() {
        let lexer = Lexer::new(input);
        let mut parser = Parser::new(lexer);
        let program_opt = parser.parse_program();
        check_parser_errors(&parser);

        if program_opt.is_none() {
            assert!(false, "the program could not be parsed: {}", input);
        }
        let program = program_opt.unwrap();
        if program.statements.len() != 1 {
            assert!(
                false,
                "wrong number of statements parsed: {:?}",
                program.statements
            );
        }
        if let Statement::ExpressionStatement {
            token: _,
            expression,
        } = &program.statements[0]
        {
            assert_eq!(expression.to_string(), expect.to_string());
            if let Expression::FunctionLiteral {
                token,
                parameters: _,
                body: _,
            } = &**expression
            {
                assert!(token.token_type_is(TokenType::FUNCTION));
            } else {
                assert!(
                    false,
                    "not a function literal: {}",
                    expression.get_token().get_literal()
                );
            }
        } else {
            assert!(false, "the input is not an expression statement: {}", input);
        }
    }
}

#[test]
fn test_call_expression() {
    let tests = [
        ("add();", "add();"),
        ("add(1, 2 * 3, 4 + 5);", "add(1, (2 * 3), (4 + 5));"),
        ("a + add(b*c) + d;", "((a + add((b * c))) + d);"),
        (
            "add(a, b, 1, 2 * 3, 4+5, add(6, 7 * 8));",
            "add(a, b, 1, (2 * 3), (4 + 5), add(6, (7 * 8)));",
        ),
        (
            "sub(a + b + c * d / f + g);",
            "sub((((a + b) + ((c * d) / f)) + g));",
        ),
        ("fn(a, b) {a + b;}(3, 4);", "fn(a, b){(a + b);}(3, 4);"),
    ];
    for (input, expect) in tests.to_vec().into_iter() {
        let lexer = Lexer::new(input);
        let mut parser = Parser::new(lexer);
        let program_opt = parser.parse_program();
        check_parser_errors(&parser);

        if program_opt.is_none() {
            assert!(false, "the program could not be parsed: {}", input);
        }
        let program = program_opt.unwrap();
        if program.statements.len() != 1 {
            assert!(
                false,
                "wrong number of statements parsed: {:?} => {}",
                program.statements,
                program.to_string()
            );
        }
        if let Statement::ExpressionStatement {
            token: _,
            expression: _,
        } = &program.statements[0]
        {
            assert_eq!(program.to_string(), expect.to_string());
        } else {
            assert!(false, "the input is not an expression statement: {}", input);
        }
    }
}

#[test]
fn test_operator_precedences() {
    let tests = [
        ("-a * b;", "((-a) * b);"),
        ("!-a;", "(!(-a));"),
        ("a + b + c;", "((a + b) + c);"),
        ("a + b - c;", "((a + b) - c);"),
        ("a * b * c;", "((a * b) * c);"),
        ("a * b / c;", "((a * b) / c);"),
        ("a + b / c;", "(a + (b / c));"),
        ("a + b * c + d / e - f;", "(((a + (b * c)) + (d / e)) - f);"),
        ("3 + 4; -5 * 5;", "(3 + 4);((-5) * 5);"),
        ("5 > 4 == 3 < 4;", "((5 > 4) == (3 < 4));"),
        ("5 < 4 != 3 > 4;", "((5 < 4) != (3 > 4));"),
        (
            "3 + 4 * 5 == 3 * 1 + 4 * 5;",
            "((3 + (4 * 5)) == ((3 * 1) + (4 * 5)));",
        ),
        ("a + b + -c;", "((a + b) + (-c));"),
        ("true;", "true;"),
        ("false;", "false;"),
        ("3 > 5 == false;", "((3 > 5) == false);"),
        ("5 < 3 != !!true;", "((5 < 3) != (!(!true)));"),
        ("1 + (2 + 3) + 4;", "((1 + (2 + 3)) + 4);"),
        ("(5+5)*2;", "((5 + 5) * 2);"),
        ("2 / ( 5 - 5);", "(2 / (5 - 5));"),
        ("-(5 + 5);", "(-(5 + 5));"),
        ("!(true == true);", "(!(true == true));"),
    ];

    for (input, expect) in tests.iter() {
        let lexer = Lexer::new(input);
        let mut parser = Parser::new(lexer);
        let program_opt = parser.parse_program();
        check_parser_errors(&parser);
        if program_opt.is_none() {
            assert!(false, "the program could not be parsed.");
        }
        let program = program_opt.unwrap();
        let actual = program.to_string();
        assert!(
            &actual == *expect,
            "{} => {:?}\n{} ?= {}",
            input,
            program,
            actual,
            expect
        );
        assert_eq!(&actual, *expect);
    }
}
