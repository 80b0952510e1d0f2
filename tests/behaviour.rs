use bogus::ast::{TypeMatcher, Value};
use bogus::lexer::Lexer;
use bogus::parser::Parser;
use bogus::repl::{prompt, repl_action, ReplAction, ReplMode};
use bogus::scope::Scope;
use bogus::session::eval_source;
use bogus::stdlib::{io_functions, prepare_scope};
use bogus::text::decimal_string;
use bogus::tokens::TokenKind;

fn run(input: &str) -> Vec<Result<TypeMatcher, String>> {
    let lexer = Lexer::new(input).unwrap_or_else(|e| panic!("lexing failed: {}", e.msg));
    let things = Parser::new(lexer).parse().unwrap_or_else(|e| panic!("parsing failed: {}", e.msg));
    let mut scope = Scope::new();
    things
        .iter()
        .map(|t| t.evaluate(&mut scope).map(|v| v.type_matcher()).map_err(|e| e.msg))
        .collect()
}

fn kinds(input: &str) -> Vec<TokenKind> {
    let mut lexer = Lexer::new(input).unwrap_or_else(|e| panic!("lexing failed: {}", e.msg));
    let mut out = vec![];
    while let Some(t) = lexer.next() {
        out.push(t.token_kind.clone());
    }
    out
}

#[test]
fn single_tokens_lex_alone() {
    assert_eq!(kinds("let"), vec![TokenKind::Let]);
    assert_eq!(kinds("1.12"), vec![TokenKind::Float("1.12".to_string())]);
    assert_eq!(kinds("\"\""), vec![TokenKind::Str("".to_string())]);
    assert_eq!(kinds("\"foo\""), vec![TokenKind::Str("foo".to_string())]);
    assert_eq!(kinds("=="), vec![TokenKind::Equals]);
    assert_eq!(kinds("!="), vec![TokenKind::NotEquals]);
    assert_eq!(kinds("->"), vec![TokenKind::Arrow]);
    assert_eq!(kinds("{"), vec![TokenKind::LeftBrace]);
    assert_eq!(kinds("}"), vec![TokenKind::RightBrace]);
    assert_eq!(kinds("return"), vec![TokenKind::Return]);
    assert_eq!(kinds("if"), vec![TokenKind::If]);
    assert_eq!(kinds("true"), vec![TokenKind::True]);
    assert_eq!(kinds("false"), vec![TokenKind::False]);
    assert_eq!(kinds("letter"), vec![TokenKind::Identifier("letter".to_string())]);
    assert_eq!(kinds("2147483647"), vec![TokenKind::Integer(2147483647)]);
    assert_eq!(kinds("007"), vec![TokenKind::Integer(7)]);
    assert_eq!(kinds("1.5e3"), vec![TokenKind::Float("1.5e3".to_string())]);
}

#[test]
fn escapes_keep_the_next_character() {
    assert_eq!(kinds("\"\\\"\""), vec![TokenKind::Str("\"".to_string())]);
    assert_eq!(kinds("\"\\\\\""), vec![TokenKind::Str("\\".to_string())]);
}

#[test]
fn tokens_carry_their_start() {
    let mut lexer = Lexer::new("let foo = 1;\nlet bar = \"bar value with whitespace\";").unwrap_or_else(|e| panic!("{}", e.msg));
    let mut all = vec![];
    while let Some(t) = lexer.next() {
        all.push((t.token_kind.clone(), t.source_ref.line, t.source_ref.column));
    }
    assert_eq!(all[5], (TokenKind::Let, 2, 0));
    assert_eq!(all[9], (TokenKind::Semicolon, 2, 37));
}

#[test]
fn lexing_errors() {
    assert_eq!(Lexer::new("1234var").err().map(|e| e.msg), Some("identifier can't start with digit".to_string()));
    assert_eq!(Lexer::new("\"hello").err().map(|e| e.msg), Some("string is not terminated".to_string()));
    assert_eq!(Lexer::new("\"hello // comment").err().map(|e| e.msg), Some("string is not terminated".to_string()));
    assert_eq!(Lexer::new("\"").err().map(|e| e.msg), Some("string is not terminated".to_string()));
    assert_eq!(Lexer::new("2147483648").err().map(|e| e.msg), Some("identifier can't start with digit".to_string()));
    assert_eq!(Lexer::new("1.5e").err().map(|e| e.msg), Some("identifier can't start with digit".to_string()));
}

#[test]
fn comments_are_skipped() {
    assert_eq!(kinds("// ..."), vec![]);
    assert_eq!(kinds("let a = 5; // hi"), vec![
        TokenKind::Let,
        TokenKind::Identifier("a".to_string()),
        TokenKind::Assign,
        TokenKind::Integer(5),
        TokenKind::Semicolon,
    ]);
}

#[test]
fn precedence() {
    assert_eq!(run("(1 + 2) * 2"), vec![Ok(TypeMatcher::Integer(6))]);
    assert_eq!(run("2 * (1 + 2)"), vec![Ok(TypeMatcher::Integer(6))]);
    assert_eq!(run("1 + 2 * 2"), vec![Ok(TypeMatcher::Integer(5))]);
}

#[test]
fn assignment_updates_the_binding() {
    assert_eq!(run("let a = 1; a = 5; a"), vec![
        Ok(TypeMatcher::Void),
        Ok(TypeMatcher::Void),
        Ok(TypeMatcher::Integer(5)),
    ]);
}

#[test]
fn function_with_two_parameters() {
    assert_eq!(run("fun a(x, y) -> x + y; a(1, 2)"), vec![Ok(TypeMatcher::Void), Ok(TypeMatcher::Integer(3))]);
}

#[test]
fn returned_function_is_called() {
    assert_eq!(run("fun a() -> fun () -> 1; a()()"), vec![Ok(TypeMatcher::Void), Ok(TypeMatcher::Integer(1))]);
}

#[test]
fn early_return_ends_the_block() {
    assert_eq!(run("fun a(b) -> { return 1; return b; } a(42)"), vec![Ok(TypeMatcher::Void), Ok(TypeMatcher::Integer(1))]);
}

#[test]
fn return_inside_if() {
    assert_eq!(run("fun a(b) -> { if b { return 1; } return 2; }; a(true); a(false)"), vec![
        Ok(TypeMatcher::Void),
        Ok(TypeMatcher::Integer(1)),
        Ok(TypeMatcher::Integer(2)),
    ]);
}

#[test]
fn equality() {
    assert_eq!(run("1 == 1"), vec![Ok(TypeMatcher::Boolean(true))]);
    assert_eq!(run("1 != 1"), vec![Ok(TypeMatcher::Boolean(false))]);
    assert_eq!(run("1 == 2"), vec![Ok(TypeMatcher::Boolean(false))]);
    assert_eq!(run("true == true"), vec![Err("Can't apply Boolean == Boolean".to_string())]);
}

#[test]
fn string_concatenation() {
    assert_eq!(run("\"foo\" + 1"), vec![Ok(TypeMatcher::String("foo1".to_string()))]);
    assert_eq!(run("1 + \"foo\""), vec![Ok(TypeMatcher::String("1foo".to_string()))]);
    assert_eq!(run("null + \"x\""), vec![Ok(TypeMatcher::String("nullx".to_string()))]);
    assert_eq!(run("\"x\" + null"), vec![Ok(TypeMatcher::String("xnull".to_string()))]);
    assert_eq!(run("\"a\" + \"b\""), vec![Ok(TypeMatcher::String("ab".to_string()))]);
    assert_eq!(run("\"a\" + -12"), vec![Ok(TypeMatcher::String("a-12".to_string()))]);
    assert_eq!(run("1 + null"), vec![Err("Can't apply Integer + Null".to_string())]);
    assert_eq!(run("\"a\" + true"), vec![Err("Can't apply String + Boolean".to_string())]);
}

#[test]
fn arity_is_checked() {
    assert_eq!(run("fun a(x) -> x; a()"), vec![
        Ok(TypeMatcher::Void),
        Err("Expecting 1 arguments for call but 0 given".to_string()),
    ]);
}

#[test]
fn unresolved_variable() {
    assert_eq!(run("undef"), vec![Err("Can't resolve variable `undef`".to_string())]);
}

#[test]
fn integer_arithmetic() {
    assert_eq!(run("7 - 10"), vec![Ok(TypeMatcher::Integer(-3))]);
    assert_eq!(run("6 * 7"), vec![Ok(TypeMatcher::Integer(42))]);
    assert_eq!(run("7 / 2"), vec![Ok(TypeMatcher::Integer(3))]);
    assert_eq!(run("-7 / 2"), vec![Ok(TypeMatcher::Integer(-3))]);
    assert_eq!(run("-(5)"), vec![Ok(TypeMatcher::Integer(-5))]);
    assert_eq!(run("1 / 0"), vec![Err("Division by zero".to_string())]);
    assert_eq!(run("2147483647 + 1"), vec![Err("Integer overflow".to_string())]);
    assert_eq!(run("65536 * 65536"), vec![Err("Integer overflow".to_string())]);
}

#[test]
fn other_evaluation_errors() {
    assert_eq!(run("-\"a\""), vec![Err("String does not support prefix minus".to_string())]);
    assert_eq!(run("1()"), vec![Err("Integer is not callable".to_string())]);
    assert_eq!(run("x = 1"), vec![Err("Can't assing to variable `x`".to_string())]);
    assert_eq!(run("\"a\" - 1"), vec![Err("Can't apply String - Integer".to_string())]);
}

#[test]
fn closures_and_assignment_through_frames() {
    assert_eq!(run("let n = 1; fun set() -> n = 7; set(); n"), vec![
        Ok(TypeMatcher::Void),
        Ok(TypeMatcher::Void),
        Ok(TypeMatcher::Void),
        Ok(TypeMatcher::Integer(7)),
    ]);
    assert_eq!(run("let n = 1; fun get() -> n; n = 5; get()"), vec![
        Ok(TypeMatcher::Void),
        Ok(TypeMatcher::Void),
        Ok(TypeMatcher::Void),
        Ok(TypeMatcher::Integer(5)),
    ]);
    assert_eq!(run("fun mk(x) -> fun () -> x; let f = mk(7); f()"), vec![
        Ok(TypeMatcher::Void),
        Ok(TypeMatcher::Void),
        Ok(TypeMatcher::Integer(7)),
    ]);
    assert_eq!(run("let a = 1; fun f() -> { let a = 2; return a; }; f(); a"), vec![
        Ok(TypeMatcher::Void),
        Ok(TypeMatcher::Void),
        Ok(TypeMatcher::Integer(2)),
        Ok(TypeMatcher::Integer(1)),
    ]);
    assert_eq!(run("fun f() -> { 1; 2 }; f()"), vec![Ok(TypeMatcher::Void), Ok(TypeMatcher::Void)]);
}

#[test]
fn recursion_is_bounded() {
    assert_eq!(run("fun f() -> f(); f()"), vec![
        Ok(TypeMatcher::Void),
        Err("Maximum call depth exceeded".to_string()),
    ]);
}

#[test]
fn parse_errors() {
    let parse = |s: &str| Parser::new(Lexer::new(s).unwrap_or_else(|e| panic!("{}", e.msg))).parse().err().map(|e| e.msg);
    assert_eq!(parse("let"), Some("Lexer: Unexpected EOF".to_string()));
    assert_eq!(parse("let 1 = 2"), Some("Expecting Identifier but Integer found".to_string()));
    assert_eq!(parse("let a 2"), Some("Expecting = but Integer found".to_string()));
    assert_eq!(parse("1 = 2"), Some("Expecting identifier before =".to_string()));
    assert_eq!(parse("* 2"), Some("Can't parse * in NUD position".to_string()));
    assert_eq!(parse("fun a(1) -> 1"), Some("Expecting identifier or ,".to_string()));
    assert_eq!(parse("fun a() 1"), Some("Expecting -> but Integer found".to_string()));
    assert_eq!(parse("f(1"), Some("Lexer: Unexpected EOF".to_string()));
    // A function body is parsed with binding power 0, so it takes the `)`
    // that would close an argument list.
    assert_eq!(parse("a(fun () -> 1)"), Some("Lexer: Unexpected EOF".to_string()));
    // Block children are parsed with binding power 1, which `=` does not exceed.
    assert_eq!(parse("{ n = 1 }"), Some("Can't parse = in NUD position".to_string()));
}

#[test]
fn standard_library_prints() {
    let mut scope = Scope::new();
    prepare_scope(&mut scope);
    let out = eval_source("print(1); println(\"a\"); 2 + 3", &mut scope);
    assert_eq!(out.text, "1a\n5\n");
    assert!(!out.failed);
    assert_eq!(eval_source("let x = 1; x", &mut scope).text, "1\n");
    let out = eval_source("undef; 2", &mut scope);
    assert_eq!(out.text, "Evaluation Error: Can't resolve variable `undef`\n2\n");
    assert!(out.failed);
    let out = eval_source("1234var", &mut scope);
    assert_eq!(out.text, "LexingError: identifier can't start with digit @ [1:0]\n");
    assert!(out.failed);
    let out = eval_source("* 2", &mut scope);
    assert_eq!(out.text, "Parsing Error: Can't parse * in NUD position\n");
    assert!(out.failed);
    assert_eq!(eval_source("println(true); null", &mut scope).text, "true\nNull\n");
    let fs = io_functions();
    assert_eq!(fs.len(), 2);
    assert_eq!(fs[0].name, "print");
    assert_eq!(fs[1].name, "println");
}

#[test]
fn top_level_return_gives_its_value() {
    assert_eq!(run("return 4"), vec![Ok(TypeMatcher::Integer(4))]);
}

#[test]
fn decimal_text() {
    assert_eq!(decimal_string(0), "0");
    assert_eq!(decimal_string(-2147483648), "-2147483648");
    assert_eq!(decimal_string(1234), "1234");
}

#[test]
fn repl_decisions() {
    assert_eq!(prompt(&ReplMode::Normal), "bogus> ");
    assert_eq!(prompt(&ReplMode::Lexus), "bogus [lex]> ");
    assert_eq!(prompt(&ReplMode::Ast), "bogus [ast]> ");
    assert_eq!(repl_action(ReplMode::Normal, ""), ReplAction::Skip);
    assert_eq!(repl_action(ReplMode::Normal, ":lexus"), ReplAction::Switch(ReplMode::Lexus));
    assert_eq!(repl_action(ReplMode::Lexus, ":ast now"), ReplAction::Switch(ReplMode::Ast));
    assert_eq!(repl_action(ReplMode::Ast, ":normal"), ReplAction::Switch(ReplMode::Normal));
    assert_eq!(repl_action(ReplMode::Lexus, "1 + 2"), ReplAction::Lex);
    assert_eq!(repl_action(ReplMode::Ast, "1 + 2"), ReplAction::Ast);
    assert_eq!(repl_action(ReplMode::Normal, "1 + 2"), ReplAction::Eval);
}

#[test]
fn values_display() {
    assert_eq!(Value::Integer(-3).display(), "-3");
    assert_eq!(Value::Boolean(false).display(), "false");
    assert_eq!(Value::Void.display(), "Void");
}

#[test]
fn trees_as_text() {
    let parse = |s: &str| Parser::new(Lexer::new(s).unwrap_or_else(|e| panic!("{}", e.msg))).parse().unwrap_or_else(|e| panic!("{}", e.msg));
    let things = parse("1 + 2 * x");
    assert_eq!(
        things[0].visualize(1),
        "- PlusExpression\n-- Left\n--- Integer(1)\n-- Right\n--- MultiplicationExpression\n---- Left\n----- Integer(2)\n---- Right\n----- Identifier(x)\n"
    );
    let things = parse("fun f(a, b) -> { return a; } f(1, \"s\")");
    assert_eq!(
        things[0].visualize(0),
        " FunStatement f(2 args)\n- GroupedStatement\n-- ReturnStatement\n--- Identifier(a)\n"
    );
    assert_eq!(
        things[1].visualize(0),
        " CallExpression\n- Identifier(f)\n- Integer(1)\n- String(s)\n"
    );
    let again = parse("fun f(a, b) -> { return a; } f(1, \"s\")");
    assert_eq!(things[0].visualize(2), again[0].visualize(2));
}

#[test]
fn float_literals_do_not_evaluate() {
    let parse = |s: &str| Parser::new(Lexer::new(s).unwrap_or_else(|e| panic!("{}", e.msg))).parse().err().map(|e| e.msg);
    assert_eq!(parse("1.5"), Some("Can't parse Float in NUD position".to_string()));
}

#[test]
fn cursor_errors_at_the_end() {
    let mut lexer = Lexer::new("x").unwrap_or_else(|e| panic!("{}", e.msg));
    assert!(lexer.peek_or_err().is_ok());
    assert!(lexer.next_or_err().is_ok());
    assert!(lexer.peek_or_err().is_err());
    assert!(lexer.next_or_err().is_err());
    assert!(!lexer.has_next());
}

#[test]
fn sub_scope_sees_parent_and_keeps_it_unchanged() {
    let mut scope = Scope::new();
    scope.store("a".to_string(), Value::Integer(1));
    let mut sub = Scope::sub(&scope);
    sub.store("a".to_string(), Value::Integer(2));
    assert_eq!(sub.resolve(&"a".to_string()).map(|v| v.type_matcher()), Some(TypeMatcher::Integer(2)));
    assert_eq!(scope.resolve(&"a".to_string()).map(|v| v.type_matcher()), Some(TypeMatcher::Integer(1)));
    assert!(sub.reassign("a".to_string(), Value::Integer(3)));
    assert!(!sub.reassign("b".to_string(), Value::Integer(3)));
    assert_eq!(sub.resolve_result(&"b".to_string()).err().map(|e| e.msg), Some("Can't resolve variable `b`".to_string()));
}

#[test]
fn swapping_blanks_keeps_tokens() {
    let read = |s: &str| {
        let mut lexer = Lexer::new(s).unwrap_or_else(|e| panic!("{}", e.msg));
        let mut out = vec![];
        while let Some(t) = lexer.next() {
            out.push((t.token_kind.clone(), t.source_ref.line, t.source_ref.column));
        }
        out
    };
    assert_eq!(read("let a = 1; // x y"), read("let\ta\u{A0}=\t1;\t// x y"));
    assert_ne!(read("\"a b\""), read("\"a\tb\""));
}
