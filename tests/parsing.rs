use bogus::ast::TypeMatcher;
use bogus::lexer::Lexer;
use bogus::parser::Parser;
use bogus::scope::Scope;

fn evaluate_and_assert(input: &str, expected: Vec<TypeMatcher>) {
    match Lexer::new(input) {
        Err(e) => panic!("Lexing failed: {}", e.msg),
        Ok(lexer) => {
            let mut parser = Parser::new(lexer);
            match parser.parse() {
                Err(e) => panic!("Parse error: {}", e.msg),
                Ok(things) => {
                    assert_eq!(things.len(), expected.len());
                    let mut scope = Scope::new();
                    for (index, received_expression) in things.iter().enumerate() {
                        match received_expression.evaluate(&mut scope) {
                            Ok(res) => assert_eq!(
                                res.type_matcher(),
                                *expected.get(index).unwrap(),
                                "Right from input: {}",
                                input
                            ),
                            Err(e) => panic!("Eval error: {:?} input: {}", e, input),
                        }
                    }
                }
            }
        }
    }
}

#[test]
fn parse_simple_literals() {
    evaluate_and_assert("1", vec![TypeMatcher::Integer(1)]);
    evaluate_and_assert("2", vec![TypeMatcher::Integer(2)]);
    evaluate_and_assert("1234566", vec![TypeMatcher::Integer(1234566)]);
    evaluate_and_assert("+1", vec![TypeMatcher::Integer(1)]);
    evaluate_and_assert("-1", vec![TypeMatcher::Integer(-1)]);
    evaluate_and_assert("\"Hello world!\"", vec![TypeMatcher::String("Hello world!".to_string())]);
    evaluate_and_assert("null", vec![TypeMatcher::Null]);
    evaluate_and_assert("true", vec![TypeMatcher::Boolean(true)]);
    evaluate_and_assert("false", vec![TypeMatcher::Boolean(false)]);
}

#[test]
fn test_simple_operators() {
    evaluate_and_assert("1 + 1", vec![TypeMatcher::Integer(2)]);
    evaluate_and_assert("1 - 1", vec![TypeMatcher::Integer(0)]);
    evaluate_and_assert("-1 + 1", vec![TypeMatcher::Integer(0)]);
    evaluate_and_assert("1 + -1", vec![TypeMatcher::Integer(0)]);
    evaluate_and_assert("1 * 1", vec![TypeMatcher::Integer(1)]);
    evaluate_and_assert("-1 * 1", vec![TypeMatcher::Integer(-1)]);
    evaluate_and_assert("1 * -1", vec![TypeMatcher::Integer(-1)]);
    evaluate_and_assert("-1 * -1", vec![TypeMatcher::Integer(1)]);
}

#[test]
fn test_parenthesis_expressions() {
    evaluate_and_assert("(1)", vec![TypeMatcher::Integer(1)]);
    evaluate_and_assert("(1 + 1)", vec![TypeMatcher::Integer(2)]);
    evaluate_and_assert("1 + 1 * 2", vec![TypeMatcher::Integer(3)]);
    evaluate_and_assert("(1 + 1) * 2", vec![TypeMatcher::Integer(4)]);
    evaluate_and_assert("2* (1 + 1)", vec![TypeMatcher::Integer(4)]);
    evaluate_and_assert("1 == 1", vec![TypeMatcher::Boolean(true)]);
    evaluate_and_assert("1 != 1", vec![TypeMatcher::Boolean(false)]);
}

#[test]
fn parse_let_statement() {
    evaluate_and_assert("let a = 1", vec![TypeMatcher::Void]);
    evaluate_and_assert("let a = 1;", vec![TypeMatcher::Void]);
    evaluate_and_assert("let a = 1; let b = 2;", vec![TypeMatcher::Void, TypeMatcher::Void]);
    evaluate_and_assert("let a = 1; let b = 2", vec![TypeMatcher::Void, TypeMatcher::Void]);
}

#[test]
fn parse_assign_statement() {
    evaluate_and_assert("let a = 1; a = 5; a", vec![
        TypeMatcher::Void,
        TypeMatcher::Void,
        TypeMatcher::Integer(5),
    ]);
}

#[test]
fn parse_fun_statement() {
    evaluate_and_assert("fun a() -> 1", vec![TypeMatcher::Void]);
    evaluate_and_assert("fun a() -> 1;", vec![TypeMatcher::Void]);
    evaluate_and_assert("fun a() -> 1; a();", vec![TypeMatcher::Void, TypeMatcher::Integer(1)]);
    evaluate_and_assert("fun a(b) -> b", vec![TypeMatcher::Void]);
    evaluate_and_assert("fun a(b, c) -> b + c", vec![TypeMatcher::Void]);
    evaluate_and_assert("fun a(b) -> b;", vec![TypeMatcher::Void]);
    evaluate_and_assert("fun a(b, c) -> b + c;", vec![TypeMatcher::Void]);
    evaluate_and_assert("fun a(b) -> b; a(1)", vec![TypeMatcher::Void, TypeMatcher::Integer(1)]);
    evaluate_and_assert("fun a(b) -> b; a(1);", vec![TypeMatcher::Void, TypeMatcher::Integer(1)]);
    evaluate_and_assert("fun a(a, b) -> a + b", vec![TypeMatcher::Void]);
    evaluate_and_assert("fun a(a, b) -> a + b;", vec![TypeMatcher::Void]);
    evaluate_and_assert("fun a(a, b) -> a + b; a(1, 2)", vec![
        TypeMatcher::Void,
        TypeMatcher::Integer(3),
    ]);
    evaluate_and_assert("fun a(a, b) -> a + b; a(1, 2);", vec![
        TypeMatcher::Void,
        TypeMatcher::Integer(3),
    ]);
    evaluate_and_assert("fun a(a, b, c, d, e) -> a + b + c + d + e; a(1, 2, 3, 4, 5);", vec![
        TypeMatcher::Void,
        TypeMatcher::Integer(15),
    ]);
    evaluate_and_assert("fun a(a) -> a; a(5 * 5);", vec![
        TypeMatcher::Void,
        TypeMatcher::Integer(25),
    ]);
    evaluate_and_assert("fun a(a) -> a; a(5 * 5);", vec![
        TypeMatcher::Void,
        TypeMatcher::Integer(25),
    ]);
    evaluate_and_assert("fun a(a, b) -> a + b; a(5 * 5, 5 + 5);", vec![
        TypeMatcher::Void,
        TypeMatcher::Integer(35),
    ]);
}

#[test]
fn function_accessing_outer_scope() {
    evaluate_and_assert("let a = 1; fun b() -> a; b();", vec![
        TypeMatcher::Void,
        TypeMatcher::Void,
        TypeMatcher::Integer(1),
    ]);
    evaluate_and_assert("let a = 1; fun b(a) -> a; b(2);", vec![
        TypeMatcher::Void,
        TypeMatcher::Void,
        TypeMatcher::Integer(2),
    ]);
}

#[test]
fn anonymous_function() {
    evaluate_and_assert("let a = fun (a) -> a + 1; a(1)", vec![
        TypeMatcher::Void,
        TypeMatcher::Integer(2),
    ]);
    evaluate_and_assert("fun a(b) -> b(); let f = fun () -> 1; a(f)", vec![
        TypeMatcher::Void,
        TypeMatcher::Void,
        TypeMatcher::Integer(1),
    ]);
    evaluate_and_assert("fun a() -> fun () -> 1; let b = a(); b();", vec![
        TypeMatcher::Void,
        TypeMatcher::Void,
        TypeMatcher::Integer(1),
    ]);
    evaluate_and_assert("fun a() -> fun () -> 1; a()();", vec![
        TypeMatcher::Void,
        TypeMatcher::Integer(1),
    ]);
    evaluate_and_assert("fun a() -> fun (a) -> a; a()(5);", vec![
        TypeMatcher::Void,
        TypeMatcher::Integer(5),
    ]);
    evaluate_and_assert("fun a() -> { let b = 1; let c = 2 return b + c; } a();", vec![
        TypeMatcher::Void,
        TypeMatcher::Integer(3),
    ]);
    evaluate_and_assert("fun a() -> { return 1; let b = 1; let c = 2 return b + c; } a();", vec![
        TypeMatcher::Void,
        TypeMatcher::Integer(1),
    ]);
}

#[test]
fn test_if_statements() {
    evaluate_and_assert("fun a(b) -> { if b { return 1; } return 2; }; a(true); a(false);", vec![
        TypeMatcher::Void,
        TypeMatcher::Integer(1),
        TypeMatcher::Integer(2),
    ]);
}

#[test]
fn parse_weird_things() {
    evaluate_and_assert("1 + 2; 2+3;", vec![TypeMatcher::Integer(3), TypeMatcher::Integer(5)]);
    evaluate_and_assert("let a = 5; 1 + 2; let c = 2+3;", vec![
        TypeMatcher::Void,
        TypeMatcher::Integer(3),
        TypeMatcher::Void,
    ]);
}
