use bogus::ast::{
    CallExpression, EvaluationError, FunStatement, IdentifierExpression, IntegerExpression,
    IntegerValue, MinusExpression, MultiplicationExpression, PlusExpression, StringExpression,
    StringValue, TypeMatcher, Value,
};
use bogus::scope::Scope;

fn evaluates_to(result: Result<Value, EvaluationError>, expected: Value) {
    match result {
        Ok(val) => assert_eq!(val.type_matcher(), expected.type_matcher()),
        Err(e) => panic!("Unexpected err: {:?}", e),
    }
}

fn evaluates_to_void(result: Result<Value, EvaluationError>) {
    match result {
        Ok(val) => match val.type_matcher() {
            TypeMatcher::Void => (),
            t => panic!("Expecting Void, but {:?} received", t),
        },
        Err(e) => panic!("Unexpected err: {:?}", e),
    }
}

fn errors_to(result: Result<Value, EvaluationError>, expected_msg: &str) {
    match result {
        Ok(val) => panic!("Expected evaluation to fail, but got: {:?}", val.type_matcher()),
        Err(e) => assert_eq!(e.msg, expected_msg),
    }
}

fn resolves_to(scope: &Scope, key: &str, expected: Value) {
    match scope.resolve(&key.to_string()) {
        Some(value) => assert_eq!(value.type_matcher(), expected.type_matcher()),
        None => panic!("Could not resolve var `{}`", key),
    }
}

fn does_not_resolve(scope: &Scope, key: &str) {
    if let Some(value) = scope.resolve(&key.to_string()) {
        panic!("Expected `{}` not to resolve but {:?} resolved", key, value.type_matcher());
    }
}

#[test]
fn test_non_resolved_call() {
    let mut scope = Scope::new();
    errors_to(
        CallExpression::new(IdentifierExpression::rc("bar".to_string()), vec![])
            .evaluate(&mut scope),
        "Can't resolve variable `bar`",
    )
}

#[test]
fn test_resolved_call() {
    let mut scope = Scope::new();
    evaluates_to_void(
        FunStatement::new("foo".to_string(), vec![], IntegerExpression::rc(123))
            .evaluate(&mut scope),
    );
    evaluates_to(
        CallExpression::new(IdentifierExpression::rc("foo".to_string()), vec![])
            .evaluate(&mut scope),
        IntegerValue::rc_value(123),
    );
    evaluates_to(
        CallExpression::new(IdentifierExpression::rc("foo".to_string()), vec![])
            .evaluate(&mut scope),
        IntegerValue::rc_value(123),
    );
}

#[test]
fn test_argument_arity() {
    let mut scope = Scope::new();
    evaluates_to_void(
        FunStatement::new(
            "foo".to_string(),
            vec![IdentifierExpression::new("a".to_string())],
            IntegerExpression::rc(123),
        )
        .evaluate(&mut scope),
    );
    errors_to(
        CallExpression::new(IdentifierExpression::rc("foo".to_string()), vec![])
            .evaluate(&mut scope),
        "Expecting 1 arguments for call but 0 given",
    );
    evaluates_to(
        CallExpression::new(
            IdentifierExpression::rc("foo".to_string()),
            vec![IntegerExpression::rc(1)],
        )
        .evaluate(&mut scope),
        IntegerValue::rc_value(123),
    );
    errors_to(
        CallExpression::new(
            IdentifierExpression::rc("foo".to_string()),
            vec![IntegerExpression::rc(1), IntegerExpression::rc(1)],
        )
        .evaluate(&mut scope),
        "Expecting 1 arguments for call but 2 given",
    );
}

#[test]
fn e_identifier_test_resolve_not_found() {
    let mut scope = Scope::new();
    let expr = IdentifierExpression::new("foo".to_string());
    errors_to(expr.evaluate(&mut scope), "Can't resolve variable `foo`")
}

#[test]
fn e_identifier_test_resolve_found() {
    let mut scope = Scope::new();
    scope.store("foo".to_string(), IntegerValue::rc_value(1));
    let expr = IdentifierExpression::new("foo".to_string());
    evaluates_to(expr.evaluate(&mut scope), IntegerValue::rc_value(1));
}

#[test]
fn test_resolve_not_found() {
    let mut scope = Scope::new();
    let expr = IdentifierExpression::new("foo".to_string());
    errors_to(expr.evaluate(&mut scope), "Can't resolve variable `foo`")
}

#[test]
fn test_resolve_found() {
    let mut scope = Scope::new();
    scope.store("foo".to_string(), IntegerValue::boxed_value(1));
    let expr = IdentifierExpression::new("foo".to_string());
    evaluates_to(expr.evaluate(&mut scope), IntegerValue::boxed_value(1));
}

#[test]
fn e_minus_test_plus_expression() {
    let expr = MinusExpression::new(IntegerExpression::rc(1), IntegerExpression::rc(1));
    evaluates_to(expr.evaluate(&mut Scope::new()), IntegerValue::rc_value(0));

    let expr = MinusExpression::new(
        MinusExpression::rc(IntegerExpression::rc(5), IntegerExpression::rc(5)),
        MinusExpression::rc(IntegerExpression::rc(10), IntegerExpression::rc(9)),
    );
    evaluates_to(expr.evaluate(&mut Scope::new()), IntegerValue::rc_value(-1));
}

#[test]
fn test_multiplication_expression() {
    let expr = MultiplicationExpression::new(IntegerExpression::rc(1), IntegerExpression::rc(1));
    evaluates_to(expr.evaluate(&mut Scope::new()), IntegerValue::rc_value(1));

    let expr = MultiplicationExpression::new(
        MultiplicationExpression::rc(IntegerExpression::rc(2), IntegerExpression::rc(5)),
        MultiplicationExpression::rc(IntegerExpression::rc(2), IntegerExpression::rc(5)),
    );
    evaluates_to(expr.evaluate(&mut Scope::new()), IntegerValue::rc_value(100));
}

#[test]
fn e_plus_test_plus_expression() {
    let expr = PlusExpression::new(IntegerExpression::rc(1), IntegerExpression::rc(1));
    evaluates_to(expr.evaluate(&mut Scope::new()), IntegerValue::rc_value(2));

    let expr = PlusExpression::new(
        PlusExpression::rc(IntegerExpression::rc(5), IntegerExpression::rc(5)),
        PlusExpression::rc(IntegerExpression::rc(10), IntegerExpression::rc(9)),
    );
    evaluates_to(expr.evaluate(&mut Scope::new()), IntegerValue::rc_value(29));
}

#[test]
fn test_plus_expression() {
    let expr = PlusExpression::new(IntegerExpression::boxed(1), IntegerExpression::boxed(1));
    evaluates_to(expr.evaluate(&mut Scope::new()), IntegerValue::boxed_value(2));

    let expr = PlusExpression::new(
        PlusExpression::rc(IntegerExpression::boxed(5), IntegerExpression::boxed(5)),
        PlusExpression::rc(IntegerExpression::boxed(10), IntegerExpression::boxed(9)),
    );
    evaluates_to(expr.evaluate(&mut Scope::new()), IntegerValue::boxed_value(29));
}

#[test]
fn simple_scope_usage() {
    let mut scope = Scope::new();
    scope.store("foo".to_string(), IntegerValue::rc_value(1));
    does_not_resolve(&scope, "bar");
    resolves_to(&scope, "foo", IntegerValue::rc_value(1));
}

#[test]
fn resolve_from_parent() {
    let mut scope = Scope::new();
    scope.store("foo".to_string(), IntegerValue::rc_value(1));
    let sub_scope = Scope::sub(&scope);
    resolves_to(&scope, "foo", IntegerValue::rc_value(1));
    resolves_to(&sub_scope, "foo", IntegerValue::rc_value(1));
}

#[test]
fn resolve_from_sub_only() {
    let scope = Scope::new();
    let mut sub_scope = Scope::sub(&scope);
    sub_scope.store("foo".to_string(), IntegerValue::rc_value(1));
    does_not_resolve(&scope, "foo");
    resolves_to(&sub_scope, "foo", IntegerValue::rc_value(1));
}

#[test]
fn v_integer_test_integer_equals() {
    assert_eq!(IntegerValue::rc_value(1).type_matcher(), IntegerValue::rc_value(1).type_matcher());
    assert_ne!(IntegerValue::rc_value(1).type_matcher(), IntegerValue::rc_value(2).type_matcher());
}

#[test]
fn test_integer_equals() {
    assert_eq!(
        IntegerValue::boxed_value(1).type_matcher(),
        IntegerValue::boxed_value(1).type_matcher()
    );
    assert_ne!(
        IntegerValue::boxed_value(1).type_matcher(),
        IntegerValue::boxed_value(2).type_matcher()
    );
}

#[test]
fn v_integer_test_integer_evaluate() {
    let integer_expr = IntegerExpression::new(1);
    evaluates_to(integer_expr.evaluate(&mut Scope::new()), IntegerValue::rc_value(1));
}

#[test]
fn test_integer_evaluate() {
    let integer_expr = IntegerExpression::new(1);
    evaluates_to(integer_expr.evaluate(&mut Scope::new()), IntegerValue::boxed_value(1));
}

#[test]
fn test_string_equals() {
    assert_eq!(
        StringValue::rc_value("foo".to_string()).type_matcher(),
        StringValue::rc_value("foo".to_string()).type_matcher()
    );
    assert_ne!(
        StringValue::rc_value("foo".to_string()).type_matcher(),
        StringValue::rc_value("bar".to_string()).type_matcher()
    );
}

#[test]
fn test_string_evaluate() {
    let integer_expr = StringExpression::new("foo".to_string());
    evaluates_to(
        integer_expr.evaluate(&mut Scope::new()),
        StringValue::rc_value("foo".to_string()),
    );
}
