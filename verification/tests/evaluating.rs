use monkey_rs::evaluator::Eval;
use monkey_rs::lexer::Lexer;
use monkey_rs::object::Object;
use monkey_rs::parser::Parser;

fn test_eval(input: &str) -> Object {
    let lexer = Lexer::new(input);
    let mut parser = Parser::new(lexer);
    let program = parser.parse_program();

    Eval::eval_program(&program.expect("fail parse program."))
}

fn do_test(tests: &[(&str, Object)]) {
    for (input, expected) in tests.iter() {
        let evaluated = test_eval(input);
        assert_eq!(&evaluated, expected);
    }
}

#[test]
fn test_eval_integer_expression() {
    let tests = [
        ("5;", Object::Integer { value: 5 }),
        ("10;", Object::Integer { value: 10 }),
        ("-5;", Object::Integer { value: -5 }),
        ("-10;", Object::Integer { value: -10 }),
        ("5 + 5 + 5 + 5 - 10;", Object::Integer { value: 10 }),
        ("2 * 2 * 2 * 2 * 2;", Object::Integer { value: 32 }),
        ("-50 + 100 + -50;", Object::Integer { value: 0 }),
        ("5 * 2 + 10;", Object::Integer { value: 20 }),
        ("5 + 2 * 10;", Object::Integer { value: 25 }),
        ("20 + 2 * -10;", Object::Integer { value: 0 }),
        ("50 / 2 * 2 + 10;", Object::Integer { value: 60 }),
        ("2 * (5 + 10);", Object::Integer { value: 30 }),
        ("3 * 3 * 3 + 10;", Object::Integer { value: 37 }),
        ("3 * (3 * 3 + 10);", Object::Integer { value: 57 }),
        ("(5 + 10 * 2 + 15 / 3) * 2 + -10;", Object::Integer { value: 50 }),
        ("1 < 2;", Object::Boolean { value: true }),
        ("1 > 2;", Object::Boolean { value: false }),
        ("1 < 1;", Object::Boolean { value: false }),
        ("1 > 1;", Object::Boolean { value: false }),
        ("1 == 1;", Object::Boolean { value: true }),
        ("1 != 1;", Object::Boolean { value: false }),
        ("1 == 2;", Object::Boolean { value: false }),
        ("1 != 2;", Object::Boolean { value: true }),
    ];

    do_test(&tests);
}

#[test]
fn test_eval_boolean_expression() {
    let tests = [
        ("true;", Object::Boolean { value: true }),
        ("false;", Object::Boolean { value: false }),
        ("true == true;", Object::Boolean { value: true }),
        ("false == false;", Object::Boolean { value: true }),
        ("true != false;", Object::Boolean { value: true }),
        ("false != true;", Object::Boolean { value: true }),
        ("(1 < 2) == true;", Object::Boolean { value: true }),
        ("(1 < 2) == false;", Object::Boolean { value: false }),
        ("(1 > 2) == true;", Object::Boolean { value: false }),
        ("(1 > 2) == false;", Object::Boolean { value: true }),
    ];

    do_test(&tests);
}

#[test]
fn test_bang_operator() {
    let tests = [
        ("!true;", Object::Boolean { value: false }),
        ("!false;", Object::Boolean { value: true }),
        ("!5;", Object::Boolean { value: false }),
        ("!!true;", Object::Boolean { value: true }),
        ("!!false;", Object::Boolean { value: false }),
        ("!!5;", Object::Boolean { value: true }),
    ];
    do_test(&tests);
}

#[test]
fn test_if_expressions() {
    let tests = [
        ("if (true) {10;};", Object::Integer { value: 10 }),
        ("if (false) {10;};", Object::Null),
        ("if (1) {10;};", Object::Integer { value: 10 }),
        ("if (1 < 2) {10;};", Object::Integer { value: 10 }),
        ("if (1 > 2) {10;};", Object::Null),
        ("if (1 < 2) {10;} else {20;};", Object::Integer { value: 10 }),
        ("if (1 > 2) {10;} else {20;};", Object::Integer { value: 20 }),
    ];
    do_test(&tests);
}

#[test]
fn test_eval_return_statements() {
    let tests = [
        (
            "return 5;",
            Object::ReturnValue { value: Box::new(Object::Integer { value: 5 }) },
        ),
        (
            "return 10;",
            Object::ReturnValue { value: Box::new(Object::Integer { value: 10 }) },
        ),
        (
            "5; return 5;",
            Object::ReturnValue { value: Box::new(Object::Integer { value: 5 }) },
        ),
        (
            "return 5; 5;",
            Object::ReturnValue { value: Box::new(Object::Integer { value: 5 }) },
        ),
        (
            "5; return 5; 5;",
            Object::ReturnValue { value: Box::new(Object::Integer { value: 5 }) },
        ),
        (
            "return -5;",
            Object::ReturnValue { value: Box::new(Object::Integer { value: -5 }) },
        ),
        (
            "return -10;",
            Object::ReturnValue { value: Box::new(Object::Integer { value: -10 }) },
        ),
        (
            "return 5 + 5 + 5 + 5 - 10;",
            Object::ReturnValue { value: Box::new(Object::Integer { value: 10 }) },
        ),
        (
            "return 2 * 2 * 2 * 2 * 2;",
            Object::ReturnValue { value: Box::new(Object::Integer { value: 32 }) },
        ),
        (
            "return -50 + 100 + -50;",
            Object::ReturnValue { value: Box::new(Object::Integer { value: 0 }) },
        ),
        (
            "return 5 * 2 + 10;",
            Object::ReturnValue { value: Box::new(Object::Integer { value: 20 }) },
        ),
        (
            "return 5 + 2 * 10;",
            Object::ReturnValue { value: Box::new(Object::Integer { value: 25 }) },
        ),
        (
            "return 20 + 2 * -10;",
            Object::ReturnValue { value: Box::new(Object::Integer { value: 0 }) },
        ),
        (
            "return 50 / 2 * 2 + 10;",
            Object::ReturnValue { value: Box::new(Object::Integer { value: 60 }) },
        ),
        (
            "return 2 * (5 + 10);",
            Object::ReturnValue { value: Box::new(Object::Integer { value: 30 }) },
        ),
        (
            "return 3 * 3 * 3 + 10;",
            Object::ReturnValue { value: Box::new(Object::Integer { value: 37 }) },
        ),
        (
            "return 3 * (3 * 3 + 10);",
            Object::ReturnValue { value: Box::new(Object::Integer { value: 57 }) },
        ),
        (
            "return (5 + 10 * 2 + 15 / 3) * 2 + -10;",
            Object::ReturnValue { value: Box::new(Object::Integer { value: 50 }) },
        ),
        (
            "return 1 < 2;",
            Object::ReturnValue { value: Box::new(Object::Boolean { value: true }) },
        ),
        (
            "return 1 > 2;",
            Object::ReturnValue { value: Box::new(Object::Boolean { value: false }) },
        ),
        (
            "return 1 < 1;",
            Object::ReturnValue { value: Box::new(Object::Boolean { value: false }) },
        ),
        (
            "return 1 > 1;",
            Object::ReturnValue { value: Box::new(Object::Boolean { value: false }) },
        ),
        (
            "return 1 == 1;",
            Object::ReturnValue { value: Box::new(Object::Boolean { value: true }) },
        ),
        (
            "return 1 != 1;",
            Object::ReturnValue { value: Box::new(Object::Boolean { value: false }) },
        ),
        (
            "return 1 == 2;",
            Object::ReturnValue { value: Box::new(Object::Boolean { value: false }) },
        ),
        (
            "return 1 != 2;",
            Object::ReturnValue { value: Box::new(Object::Boolean { value: true }) },
        ),
    ];

    do_test(&tests);
}
