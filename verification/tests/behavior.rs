use monkey_rs::ast::Node;
use monkey_rs::ast::{Expression, Statement};
use monkey_rs::evaluator::Eval;
use monkey_rs::lexer::Lexer;
use monkey_rs::object::{Object, ObjectType};
use monkey_rs::parser::Parser;
use monkey_rs::token::{Token, TokenType};

fn lex_kinds(input: &str) -> Vec<TokenType> {
    let mut lexer = Lexer::new(input);
    let mut kinds = Vec::new();
    loop {
        let tok = lexer.next_token();
        let is_eof = tok.token_type_is(TokenType::EOF);
        kinds.push(tok.get_token_type());
        if is_eof {
            break;
        }
    }
    kinds
}

fn parse(input: &str) -> monkey_rs::ast::Program {
    let lexer = Lexer::new(input);
    let mut parser = Parser::new(lexer);
    let program = parser.parse_program();
    assert!(program.is_some(), "parsing failed: {}", input);
    program.unwrap()
}

fn eval(input: &str) -> Object {
    Eval::eval_program(&parse(input))
}

#[test]
fn test_lex_operator_run() {
    let kinds = lex_kinds("!-/*5;");
    assert_eq!(
        kinds,
        vec![
            TokenType::BANG,
            TokenType::MINUS,
            TokenType::SLASH,
            TokenType::ASTERISK,
            TokenType::INT,
            TokenType::SEMICOLON,
            TokenType::EOF,
        ]
    );
}

#[test]
fn test_lex_equality_operators() {
    let kinds = lex_kinds("10 == 10; 10 != 9;");
    assert_eq!(
        kinds,
        vec![
            TokenType::INT,
            TokenType::EQ,
            TokenType::INT,
            TokenType::SEMICOLON,
            TokenType::INT,
            TokenType::NEQ,
            TokenType::INT,
            TokenType::SEMICOLON,
            TokenType::EOF,
        ]
    );
}

#[test]
fn test_lex_single_eof_and_literals() {
    // Totality on a messy input: exactly one EOF, at the end, and the
    // illegal byte surfaces as an ILLEGAL token with itself as literal.
    let mut lexer = Lexer::new("a @ b");
    let t1 = lexer.next_token();
    assert_eq!(t1.get_token_type(), TokenType::IDENT);
    assert_eq!(t1.get_literal(), "a");
    let t2 = lexer.next_token();
    assert_eq!(t2.get_token_type(), TokenType::ILLEGAL);
    assert_eq!(t2.get_literal(), "@");
    let t3 = lexer.next_token();
    assert_eq!(t3.get_token_type(), TokenType::IDENT);
    assert_eq!(t3.get_literal(), "b");
    let t4 = lexer.next_token();
    assert_eq!(t4.get_token_type(), TokenType::EOF);
    assert_eq!(t4.get_literal(), "");
    // After EOF, repeated calls keep returning EOF.
    let t5 = lexer.next_token();
    assert_eq!(t5.get_token_type(), TokenType::EOF);
}

#[test]
fn test_parser_deterministic() {
    let input = "let x = 1 + 2 * 3; if (x > 2) { x; } else { 0; };";
    let a = parse(input);
    let b = parse(input);
    assert_eq!(a.statements, b.statements);

    let bad = "let = ;";
    let lexer1 = Lexer::new(bad);
    let mut p1 = Parser::new(lexer1);
    let r1 = p1.parse_program();
    let lexer2 = Lexer::new(bad);
    let mut p2 = Parser::new(lexer2);
    let r2 = p2.parse_program();
    assert!(r1.is_none() && r2.is_none());
    assert_eq!(p1.get_errors().len(), p2.get_errors().len());
}

#[test]
fn test_print_prefix_grouping() {
    assert_eq!(parse("-a * b;").to_string(), "((-a) * b);");
}

#[test]
fn test_print_mixed_precedence() {
    assert_eq!(
        parse("a + b * c + d / e - f;").to_string(),
        "(((a + (b * c)) + (d / e)) - f);"
    );
}

#[test]
fn test_print_grouped_sum() {
    assert_eq!(parse("1 + (2 + 3) + 4;").to_string(), "((1 + (2 + 3)) + 4);");
}

#[test]
fn test_reparse_printed_programs() {
    // Pretty-printed forms that re-parse come back structurally equal.
    let inputs = [
        "-a * b;",
        "a + b * c + d / e - f;",
        "1 + (2 + 3) + 4;",
        "if (x > y){ x; }else{y;}",
        "fn(a, b) {a + b;}(3, 4);",
        "let x = 5;",
        "return x + y;",
    ];
    for input in inputs.iter() {
        let first = parse(input);
        let printed = first.to_string();
        let second = parse(&printed);
        // Round trip modulo source tokens: printing again is stable.
        assert_eq!(printed, second.to_string(), "input: {}", input);
        // On an already-printed text the trees agree exactly.
        let third = parse(&second.to_string());
        assert_eq!(second.statements, third.statements, "input: {}", input);
    }
}

#[test]
fn test_eval_arithmetic_scenario() {
    assert_eq!(
        eval("(5 + 10 * 2 + 15 / 3) * 2 + -10;"),
        Object::Integer { value: 50 }
    );
}

#[test]
fn test_eval_else_branch() {
    assert_eq!(eval("if (1 > 2) {10;} else {20;};"), Object::Integer { value: 20 });
}

#[test]
fn test_eval_if_without_alternative() {
    assert_eq!(eval("if (false) {10;};"), Object::Null);
}

#[test]
fn test_eval_envelope_unwrap() {
    // The trailing statement after the return is not observed; the top
    // level unwraps the envelope.
    let result = eval("5; return 5; 5;");
    match result {
        Object::ReturnValue { value } => assert_eq!(*value, Object::Integer { value: 5 }),
        other => panic!("expected a return envelope, got {:?}", other),
    }
}

#[test]
fn test_eval_envelope_through_nested_blocks() {
    // The envelope passes through the inner block unchanged and stops the
    // outer sequence before the 9.
    let result = eval("if (true) { if (true) { return 1; }; 9; };");
    assert_eq!(
        result,
        Object::ReturnValue { value: Box::new(Object::Integer { value: 1 }) }
    );
}

#[test]
fn test_eval_return_of_return() {
    // A return whose operand itself returns: the envelope from the operand
    // passes through the outer return unchanged — never wrapped twice.
    let result = eval("return if (1) {return 5;};");
    assert_eq!(
        result,
        Object::ReturnValue { value: Box::new(Object::Integer { value: 5 }) }
    );
}

#[test]
fn test_eval_double_bang() {
    assert_eq!(eval("!!5;"), Object::Boolean { value: true });
}

#[test]
fn test_eval_bang_of_null() {
    // `if` without a taken branch yields Null, which is falsy.
    assert_eq!(eval("!if (false) {10;};"), Object::Boolean { value: true });
}

#[test]
fn test_eval_division_semantics() {
    assert_eq!(eval("7 / 2;"), Object::Integer { value: 3 });
    assert_eq!(eval("-7 / 2;"), Object::Integer { value: -3 });
    assert_eq!(eval("7 / -2;"), Object::Integer { value: -3 });
    assert_eq!(eval("-7 / -2;"), Object::Integer { value: 3 });
    assert_eq!(eval("5 / 0;"), Object::Null);
}

#[test]
fn test_eval_overflow_yields_null() {
    assert_eq!(
        eval("9223372036854775807 + 1;"),
        Object::Null
    );
    assert_eq!(
        eval("-(0 - 9223372036854775807 - 1);"),
        Object::Null
    );
    assert_eq!(
        eval("9223372036854775807 * 2;"),
        Object::Null
    );
}

#[test]
fn test_eval_type_mismatches_yield_null() {
    assert_eq!(eval("true + 1;"), Object::Null);
    assert_eq!(eval("true < false;"), Object::Null);
    assert_eq!(eval("-true;"), Object::Null);
    assert_eq!(eval("true == false;"), Object::Boolean { value: false });
    assert_eq!(eval("true != false;"), Object::Boolean { value: true });
}

#[test]
fn test_parse_errors_are_counted() {
    let cases = ["@;", "let = 5;", "let x 5;", "5 +;", "10000000000000000000;"];
    for input in cases.iter() {
        let lexer = Lexer::new(input);
        let mut parser = Parser::new(lexer);
        let result = parser.parse_program();
        assert!(result.is_none(), "expected failure for {}", input);
        assert!(parser.get_errors().len() > 0, "no diagnostics for {}", input);
    }
}

#[test]
fn test_parse_recovers_at_semicolon() {
    // One bad statement, then a good one: the good one is still rejected
    // at the top level (the error list is not empty), but parsing reached
    // the end rather than stopping at the first failure.
    let lexer = Lexer::new("let = 5; 4;");
    let mut parser = Parser::new(lexer);
    let result = parser.parse_program();
    assert!(result.is_none());
    assert!(parser.get_errors().len() >= 1);
}

#[test]
fn test_keyword_lookup() {
    assert_eq!(TokenType::lookup_ident("fn"), TokenType::FUNCTION);
    assert_eq!(TokenType::lookup_ident("let"), TokenType::LET);
    assert_eq!(TokenType::lookup_ident("if"), TokenType::IF);
    assert_eq!(TokenType::lookup_ident("else"), TokenType::ELSE);
    assert_eq!(TokenType::lookup_ident("return"), TokenType::RETURN);
    assert_eq!(TokenType::lookup_ident("true"), TokenType::TRUE);
    assert_eq!(TokenType::lookup_ident("false"), TokenType::FALSE);
    assert_eq!(TokenType::lookup_ident("foobar"), TokenType::IDENT);
    assert_eq!(TokenType::lookup_ident("fnx"), TokenType::IDENT);

    let keywords = TokenType::keywords();
    assert_eq!(keywords.get("fn"), Some(&TokenType::FUNCTION));
    assert_eq!(keywords.get("return"), Some(&TokenType::RETURN));
    assert_eq!(keywords.get("foobar"), None);
    assert_eq!(keywords.len(), 7);
}

#[test]
fn test_object_types() {
    assert!(ObjectType::integer_object_type().is_integer());
    assert!(ObjectType::boolean_object_type().is_boolean());
    assert!(ObjectType::null_object_type().is_null());
    assert!(ObjectType::return_value_object_type().is_return_value());
    assert!(!ObjectType::integer_object_type().is_boolean());
    assert_eq!(ObjectType::integer_object_type().to_string(), "INTEGER");
    assert_eq!(ObjectType::boolean_object_type().to_string(), "BOOLEAN");
    assert_eq!(ObjectType::null_object_type().to_string(), "NULL");

    assert!(Object::Integer { value: 3 }.get_type().is_integer());
    assert!(Object::Boolean { value: true }.get_type().is_boolean());
    assert!(Object::Null.get_type().is_null());
    let env = Object::ReturnValue { value: Box::new(Object::Integer { value: 3 }) };
    assert!(env.get_type().is_return_value());
}

#[test]
fn test_object_inspect_and_truthiness() {
    assert_eq!(Object::Null.inspect(), "null");
    assert_eq!(Object::Integer { value: -42 }.inspect(), "-42");
    assert_eq!(Object::Integer { value: 0 }.inspect(), "0");
    assert_eq!(Object::Boolean { value: true }.inspect(), "true");
    assert_eq!(
        Object::ReturnValue { value: Box::new(Object::Integer { value: 7 }) }.inspect(),
        "7"
    );

    assert!(!Object::Null.is_truthy());
    assert!(Object::Boolean { value: true }.is_truthy());
    assert!(!Object::Boolean { value: false }.is_truthy());
    assert!(Object::Integer { value: 0 }.is_truthy());
}

#[test]
fn test_expression_get_value_forms() {
    let program = parse("foo; 42; true; -x; a + b; add(1); if (a) {b;}; fn(x){x;};");
    let values: Vec<String> = program
        .statements
        .iter()
        .map(|s| match s {
            Statement::ExpressionStatement { expression, .. } => expression.get_value(),
            _ => panic!("expected expression statements"),
        })
        .collect();
    assert_eq!(
        values,
        vec![
            "foo".to_string(),
            "42".to_string(),
            "true".to_string(),
            "-".to_string(),
            "(a + b)".to_string(),
            "add".to_string(),
            "".to_string(),
            "".to_string(),
        ]
    );
}

#[test]
fn test_node_tokens() {
    let program = parse("let answer = 42;");
    assert_eq!(program.token_literal(), "let");
    let stmt = &program.statements[0];
    assert_eq!(stmt.token_literal(), "let");
    assert!(stmt.get_token().token_type_is(TokenType::LET));
    if let Statement::LetStatement { name, value, .. } = stmt {
        assert_eq!(name.token_literal(), "answer");
        assert!(name.get_token().token_type_is(TokenType::IDENT));
        if let Expression::IntegerLiteral { value: v, .. } = &**value {
            assert_eq!(*v, 42);
        } else {
            panic!("expected an integer literal");
        }
    } else {
        panic!("expected a let statement");
    }

    let empty = monkey_rs::ast::Program::new();
    assert_eq!(empty.token_literal(), "");
    assert_eq!(empty.to_string(), "");
}

#[test]
fn test_token_accessors() {
    let tok = Token::new(TokenType::EQ, "==");
    assert_eq!(tok.get_token_type(), TokenType::EQ);
    assert_eq!(tok.get_literal(), "==");
    assert!(tok.token_type_is(TokenType::EQ));
    assert!(!tok.token_type_is(TokenType::ASSIGN));
    let copy = tok.clone();
    assert_eq!(copy, tok);
}
