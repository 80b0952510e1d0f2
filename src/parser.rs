use vstd::prelude::*;
use crate::ast::{
    AssignStatement, AnonFunction, BooleanExpression, CallExpression, DivisionExpression,
    EqualsExpression, Expression, FunStatement, GroupedStatement, IdentifierExpression,
    IfStatement, IntegerExpression, LetStatement, MinusExpression, MultiplicationExpression,
    NativeFunction, Null, PlusExpression, PrefixMinusExpression, ReturnStatement,
    StringExpression,
};
use crate::lexer::Lexer;
use crate::tokens::{Token, TokenKind};
use std::rc::Rc;
use crate::eval::BinOp;
use crate::scope::param_names;
use crate::tokens::{Kind, TokenModel};

verus! {

broadcast use vstd::std_specs::vec::group_vec_axioms, vstd::seq::group_seq_axioms;

/// An error found while parsing.
#[derive(Debug)]
pub struct ParseError {
    pub msg: String,
}

/// The mathematical form of an expression tree.
pub enum Expr {
    Integer(i32),
    Str(Seq<char>),
    Boolean(bool),
    Null,
    Identifier(Seq<char>),
    PrefixMinus(Box<Expr>),
    Binary(BinOp, Box<Expr>, Box<Expr>),
    Call(Box<Expr>, Seq<Expr>),
    Grouped(Seq<Expr>),
    Let(Seq<char>, Box<Expr>),
    Assign(Seq<char>, Box<Expr>),
    Fun(Seq<char>, Seq<Seq<char>>, Box<Expr>),
    AnonFun(Seq<Seq<char>>, Box<Expr>),
    Return(Box<Expr>),
    If(Box<Expr>, Box<Expr>),
    Native(NativeFunction),
}

pub open spec fn expr_model(e: Expression) -> Expr
    decreases e, 1nat,
{
    match e {
        Expression::Integer(x) => Expr::Integer(x.value),
        Expression::Str(x) => Expr::Str(x.value@),
        Expression::Boolean(x) => Expr::Boolean(x.value),
        Expression::Null(_) => Expr::Null,
        Expression::Identifier(x) => Expr::Identifier(x.name@),
        Expression::PrefixMinus(x) => Expr::PrefixMinus(Box::new(expr_model(*x.expression))),
        Expression::Plus(x) => Expr::Binary(
            BinOp::Plus,
            Box::new(expr_model(*x.left)),
            Box::new(expr_model(*x.right)),
        ),
        Expression::Minus(x) => Expr::Binary(
            BinOp::Minus,
            Box::new(expr_model(*x.left)),
            Box::new(expr_model(*x.right)),
        ),
        Expression::Multiplication(x) => Expr::Binary(
            BinOp::Multiplication,
            Box::new(expr_model(*x.left)),
            Box::new(expr_model(*x.right)),
        ),
        Expression::Division(x) => Expr::Binary(
            BinOp::Division,
            Box::new(expr_model(*x.left)),
            Box::new(expr_model(*x.right)),
        ),
        Expression::Equals(x) => Expr::Binary(
            if x.negate {
                BinOp::NotEquals
            } else {
                BinOp::Equals
            },
            Box::new(expr_model(*x.left)),
            Box::new(expr_model(*x.right)),
        ),
        Expression::Call(x) => {
            proof {
                assert(decreases_to!(x.args => x.args@));
            }
            Expr::Call(Box::new(expr_model(*x.target)), exprs_model(x.args@))
        },
        Expression::Grouped(x) => {
            proof {
                assert(decreases_to!(x.expressions => x.expressions@));
            }
            Expr::Grouped(exprs_model(x.expressions@))
        },
        Expression::Let(x) => Expr::Let(x.identifier@, Box::new(expr_model(*x.expression))),
        Expression::Assign(x) => Expr::Assign(x.identifier@, Box::new(expr_model(*x.expression))),
        Expression::Fun(x) => Expr::Fun(
            x.identifier@,
            param_names(x.args@),
            Box::new(expr_model(*x.expression)),
        ),
        Expression::AnonFun(x) => Expr::AnonFun(
            param_names(x.args@),
            Box::new(expr_model(*x.expression)),
        ),
        Expression::Return(x) => Expr::Return(Box::new(expr_model(*x.expression))),
        Expression::If(x) => Expr::If(
            Box::new(expr_model(*x.condition)),
            Box::new(expr_model(*x.branch)),
        ),
        Expression::Native(k) => Expr::Native(k),
    }
}

pub open spec fn exprs_model(es: Seq<Expression>) -> Seq<Expr>
    decreases es, 0nat,
{
    if es.len() == 0 {
        Seq::empty()
    } else {
        proof {
            assert(decreases_to!(es => es.drop_last()));
        }
        exprs_model(es.drop_last()).push(expr_model(es.last()))
    }
}

/// A parsed expression and the position after it, or an error message.
pub type Parsed = Result<(Expr, int), Seq<char>>;

pub open spec fn eof_msg() -> Seq<char> {
    "Lexer: Unexpected EOF"@
}

/// A guard that keeps the recursion below well founded: every parsing step
/// consumes at least one token, so this error never arises.
pub open spec fn no_progress_msg() -> Seq<char> {
    "Parser made no progress"@
}

/// How a token kind reads in messages.
pub open spec fn kind_text(k: Kind) -> Seq<char> {
    match k {
        Kind::Let => "let"@,
        Kind::Const => "const"@,
        Kind::Fun => "fun"@,
        Kind::Return => "return"@,
        Kind::If => "if"@,
        Kind::True => "true"@,
        Kind::False => "false"@,
        Kind::Null => "null"@,
        Kind::Assign => "="@,
        Kind::Equals => "=="@,
        Kind::NotEquals => "!="@,
        Kind::Minus => "-"@,
        Kind::Plus => "+"@,
        Kind::Multiplication => "*"@,
        Kind::Division => "/"@,
        Kind::Arrow => "->"@,
        Kind::Comma => ","@,
        Kind::Dot => "."@,
        Kind::Semicolon => ";"@,
        Kind::LeftParens => "("@,
        Kind::RightParens => ")"@,
        Kind::LeftBrace => "{"@,
        Kind::RightBrace => "}"@,
        Kind::Identifier(_) => "Identifier"@,
        Kind::Integer(_) => "Integer"@,
        Kind::Float(_) => "Float"@,
        Kind::Str(_) => "String"@,
    }
}

pub open spec fn nud_msg(k: Kind) -> Seq<char> {
    "Can't parse "@ + kind_text(k) + " in NUD position"@
}

pub open spec fn led_msg(k: Kind) -> Seq<char> {
    "Can't parse "@ + kind_text(k) + " in LED position"@
}

pub open spec fn expect_msg(what: Seq<char>, k: Kind) -> Seq<char> {
    "Expecting "@ + what + " but "@ + kind_text(k) + " found"@
}

pub open spec fn assign_target_msg() -> Seq<char> {
    "Expecting identifier before ="@
}

pub open spec fn param_msg() -> Seq<char> {
    "Expecting identifier or ,"@
}

/// The right binding power of a token kind: how tightly it takes the
/// expression on its left.
pub open spec fn binding_power(k: Kind) -> u32 {
    match k {
        Kind::Assign => 1,
        Kind::Semicolon => 1,
        Kind::RightParens => 1,
        Kind::RightBrace => 1,
        Kind::Plus => 5,
        Kind::Minus => 5,
        Kind::Multiplication => 10,
        Kind::Division => 10,
        Kind::Equals => 30,
        Kind::NotEquals => 30,
        Kind::LeftParens => 50,
        _ => 0,
    }
}

/// Pratt parsing: the token at `pos` in prefix role, then while the next
/// token binds tighter than `rbp`, that token in infix role.
pub open spec fn parse_expr(ts: Seq<TokenModel>, pos: int, rbp: u32) -> Parsed
    decreases ts.len() - pos, 0nat,
{
    if pos < 0 || pos >= ts.len() {
        Err(eof_msg())
    } else {
        match nud(ts, ts[pos].kind, pos + 1) {
            Err(m) => Err(m),
            Ok((left, next_at)) => if next_at <= pos || next_at > ts.len() {
                Err(no_progress_msg())
            } else {
                led_loop(ts, next_at, rbp, left)
            },
        }
    }
}

pub open spec fn led_loop(ts: Seq<TokenModel>, pos: int, rbp: u32, left: Expr) -> Parsed
    decreases ts.len() - pos, 3nat,
{
    if 0 <= pos < ts.len() && binding_power(ts[pos].kind) > rbp {
        match led(ts, ts[pos].kind, pos + 1, left) {
            Err(m) => Err(m),
            Ok((l2, after_at)) => if after_at <= pos || after_at > ts.len() {
                Err(no_progress_msg())
            } else {
                led_loop(ts, after_at, rbp, l2)
            },
        }
    } else {
        Ok((left, pos))
    }
}

pub open spec fn wrap(r: Parsed, f: spec_fn(Expr) -> Expr) -> Parsed {
    match r {
        Ok((e, p)) => Ok((f(e), p)),
        Err(m) => Err(m),
    }
}

/// A token in prefix role; `pos` is the position after it.
pub open spec fn nud(ts: Seq<TokenModel>, k: Kind, pos: int) -> Parsed
    decreases ts.len() - pos, 2nat,
{
    match k {
        Kind::Identifier(n) => Ok((Expr::Identifier(n), pos)),
        Kind::Integer(v) => Ok((Expr::Integer(v), pos)),
        Kind::Str(s) => Ok((Expr::Str(s), pos)),
        Kind::True => Ok((Expr::Boolean(true), pos)),
        Kind::False => Ok((Expr::Boolean(false), pos)),
        Kind::Null => Ok((Expr::Null, pos)),
        Kind::Plus => parse_expr(ts, pos, 0),
        Kind::LeftParens => parse_expr(ts, pos, 0),
        Kind::Minus => wrap(parse_expr(ts, pos, 5), |e: Expr| Expr::PrefixMinus(Box::new(e))),
        Kind::Return => wrap(parse_expr(ts, pos, 1), |e: Expr| Expr::Return(Box::new(e))),
        Kind::LeftBrace => match parse_block(ts, pos, Seq::empty()) {
            Ok((es, p)) => Ok((Expr::Grouped(es), p)),
            Err(m) => Err(m),
        },
        Kind::If => match parse_expr(ts, pos, 1) {
            Err(m) => Err(m),
            Ok((c, next_at)) => if next_at <= pos || next_at > ts.len() {
                Err(no_progress_msg())
            } else {
                wrap(parse_expr(ts, next_at, 1), |b: Expr| Expr::If(Box::new(c), Box::new(b)))
            },
        },
        Kind::Let => if pos < 0 || pos >= ts.len() {
            Err(eof_msg())
        } else {
            match ts[pos].kind {
                Kind::Identifier(n) => if pos + 1 >= ts.len() {
                    Err(eof_msg())
                } else if ts[pos + 1].kind is Assign {
                    wrap(parse_expr(ts, pos + 2, 0), |e: Expr| Expr::Let(n, Box::new(e)))
                } else {
                    Err(expect_msg("="@, ts[pos + 1].kind))
                },
                other => Err(expect_msg("Identifier"@, other)),
            }
        },
        Kind::Fun => {
            let named = 0 <= pos < ts.len() && ts[pos].kind is Identifier;
            let open_at = if named {
                pos + 1
            } else {
                pos
            };
            if open_at < 0 || open_at >= ts.len() {
                Err(eof_msg())
            } else if !(ts[open_at].kind is LeftParens) {
                Err(expect_msg("("@, ts[open_at].kind))
            } else {
                match parse_params(ts, open_at + 1, Seq::empty()) {
                    Err(m) => Err(m),
                    Ok((ps, next_at)) => if next_at < pos || next_at >= ts.len() {
                        Err(eof_msg())
                    } else if !(ts[next_at].kind is Arrow) {
                        Err(expect_msg("->"@, ts[next_at].kind))
                    } else if named {
                        let n = ts[pos].kind->Identifier_0;
                        wrap(parse_expr(ts, next_at + 1, 0), |b: Expr| Expr::Fun(n, ps, Box::new(b)))
                    } else {
                        wrap(parse_expr(ts, next_at + 1, 0), |b: Expr| Expr::AnonFun(ps, Box::new(b)))
                    },
                }
            }
        },
        _ => Err(nud_msg(k)),
    }
}

pub open spec fn binary_led(ts: Seq<TokenModel>, k: Kind) -> (BinOp, u32) {
    match k {
        Kind::Minus => (BinOp::Minus, 5),
        Kind::Multiplication => (BinOp::Multiplication, 10),
        Kind::Division => (BinOp::Division, 10),
        Kind::Equals => (BinOp::Equals, 5),
        Kind::NotEquals => (BinOp::NotEquals, 5),
        _ => (BinOp::Plus, 5),
    }
}

/// A token in infix role after `left`; `pos` is the position after it.
pub open spec fn led(ts: Seq<TokenModel>, k: Kind, pos: int, left: Expr) -> Parsed
    decreases ts.len() - pos, 2nat,
{
    if k is Plus || k is Minus || k is Multiplication || k is Division || k is Equals
        || k is NotEquals {
        let (op, bp) = binary_led(ts, k);
        wrap(parse_expr(ts, pos, bp), |r: Expr| Expr::Binary(op, Box::new(left), Box::new(r)))
    } else {
        match k {
            Kind::LeftParens => match parse_args(ts, pos, Seq::empty()) {
                Ok((args, p)) => Ok((Expr::Call(Box::new(left), args), p)),
                Err(m) => Err(m),
            },
            Kind::RightParens => Ok((left, pos)),
            Kind::RightBrace => Ok((left, pos)),
            Kind::Semicolon => Ok((left, pos)),
            Kind::Comma => Ok((left, pos)),
            Kind::Assign => match left {
                Expr::Identifier(n) => wrap(
                    parse_expr(ts, pos, 1),
                    |r: Expr| Expr::Assign(n, Box::new(r)),
                ),
                _ => Err(assign_target_msg()),
            },
            _ => Err(led_msg(k)),
        }
    }
}

/// Call arguments up to the closing `)`, each parsed with binding power 1
/// and followed by an optional comma.
pub open spec fn parse_args(ts: Seq<TokenModel>, pos: int, acc: Seq<Expr>) -> Result<
    (Seq<Expr>, int),
    Seq<char>,
>
    decreases ts.len() - pos, 1nat,
{
    if pos < 0 || pos >= ts.len() {
        Err(eof_msg())
    } else if ts[pos].kind is RightParens {
        Ok((acc, pos + 1))
    } else {
        match parse_expr(ts, pos, 1) {
            Err(m) => Err(m),
            Ok((a, p)) => if p <= pos || p > ts.len() {
                Err(no_progress_msg())
            } else {
                let after_at = if p < ts.len() && ts[p].kind is Comma {
                    p + 1
                } else {
                    p
                };
                parse_args(ts, after_at, acc.push(a))
            },
        }
    }
}

/// A block's children up to the closing `}`, each parsed with binding power
/// 1 and followed by an optional semicolon.
pub open spec fn parse_block(ts: Seq<TokenModel>, pos: int, acc: Seq<Expr>) -> Result<
    (Seq<Expr>, int),
    Seq<char>,
>
    decreases ts.len() - pos, 1nat,
{
    if pos < 0 || pos >= ts.len() {
        Err(eof_msg())
    } else if ts[pos].kind is RightBrace {
        Ok((acc, pos + 1))
    } else {
        match parse_expr(ts, pos, 1) {
            Err(m) => Err(m),
            Ok((a, p)) => if p <= pos || p > ts.len() {
                Err(no_progress_msg())
            } else {
                let after_at = if p < ts.len() && ts[p].kind is Semicolon {
                    p + 1
                } else {
                    p
                };
                parse_block(ts, after_at, acc.push(a))
            },
        }
    }
}

/// A parameter list after `(`: identifiers and commas up to `)`.
pub open spec fn parse_params(ts: Seq<TokenModel>, pos: int, acc: Seq<Seq<char>>) -> Result<
    (Seq<Seq<char>>, int),
    Seq<char>,
>
    decreases ts.len() - pos,
{
    if pos < 0 || pos >= ts.len() {
        Err(eof_msg())
    } else {
        match ts[pos].kind {
            Kind::RightParens => Ok((acc, pos + 1)),
            Kind::Identifier(n) => parse_params(ts, pos + 1, acc.push(n)),
            Kind::Comma => parse_params(ts, pos + 1, acc),
            _ => Err(param_msg()),
        }
    }
}

/// All expressions of a token stream, from `pos` on.
pub open spec fn parse_all(ts: Seq<TokenModel>, pos: int, acc: Seq<Expr>) -> Result<Seq<Expr>, Seq<char>>
    decreases ts.len() - pos,
{
    if pos < 0 || pos >= ts.len() {
        Ok(acc)
    } else {
        match parse_expr(ts, pos, 0) {
            Err(m) => Err(m),
            Ok((e, p)) => if p <= pos || p > ts.len() {
                Err(no_progress_msg())
            } else {
                parse_all(ts, p, acc.push(e))
            },
        }
    }
}

pub open spec fn parsed_view(r: Result<Expression, ParseError>, p: nat) -> Parsed {
    match r {
        Ok(e) => Ok((expr_model(e), p as int)),
        Err(err) => Err(err.msg@),
    }
}

pub open spec fn list_view(r: Result<Vec<Expression>, ParseError>, p: nat) -> Result<
    (Seq<Expr>, int),
    Seq<char>,
> {
    match r {
        Ok(es) => Ok((exprs_model(es@), p as int)),
        Err(err) => Err(err.msg@),
    }
}

proof fn lemma_exprs_push(v: Seq<Expression>, x: Expression)
    ensures
        exprs_model(v.push(x)) == exprs_model(v).push(expr_model(x)),
{
    assert(v.push(x).drop_last() =~= v);
}

proof fn lemma_names_push(v: Seq<IdentifierExpression>, x: IdentifierExpression)
    ensures
        param_names(v.push(x)) =~= param_names(v).push(x.name@),
{
    assert forall|i: int| 0 <= i < v.len() implies v.push(x)[i] == v[i] by {}
}

fn copy_kind(k: &TokenKind) -> (r: TokenKind)
    ensures
        r@ == k@,
{
    match k {
        TokenKind::Let => TokenKind::Let,
        TokenKind::Const => TokenKind::Const,
        TokenKind::Fun => TokenKind::Fun,
        TokenKind::Return => TokenKind::Return,
        TokenKind::If => TokenKind::If,
        TokenKind::True => TokenKind::True,
        TokenKind::False => TokenKind::False,
        TokenKind::Null => TokenKind::Null,
        TokenKind::Assign => TokenKind::Assign,
        TokenKind::Equals => TokenKind::Equals,
        TokenKind::NotEquals => TokenKind::NotEquals,
        TokenKind::Minus => TokenKind::Minus,
        TokenKind::Plus => TokenKind::Plus,
        TokenKind::Multiplication => TokenKind::Multiplication,
        TokenKind::Division => TokenKind::Division,
        TokenKind::Arrow => TokenKind::Arrow,
        TokenKind::Comma => TokenKind::Comma,
        TokenKind::Dot => TokenKind::Dot,
        TokenKind::Semicolon => TokenKind::Semicolon,
        TokenKind::LeftParens => TokenKind::LeftParens,
        TokenKind::RightParens => TokenKind::RightParens,
        TokenKind::LeftBrace => TokenKind::LeftBrace,
        TokenKind::RightBrace => TokenKind::RightBrace,
        TokenKind::Identifier(s) => TokenKind::Identifier(s.clone()),
        TokenKind::Integer(i) => TokenKind::Integer(*i),
        TokenKind::Float(s) => TokenKind::Float(s.clone()),
        TokenKind::Str(s) => TokenKind::Str(s.clone()),
    }
}

/// The kind of the token at the cursor.
fn peek_kind(lexer: &Lexer) -> (r: Option<TokenKind>)
    ensures
        lexer.position() < lexer.token_seq().len() ==> r is Some && r->0@
            == lexer.token_seq()[lexer.position() as int].kind,
        lexer.position() >= lexer.token_seq().len() ==> r is None,
{
    match lexer.peek() {
        Some(t) => Some(copy_kind(&t.token_kind)),
        None => None,
    }
}

/// The kind of the token at the cursor; the cursor moves past it.
fn next_kind(lexer: &mut Lexer) -> (r: Option<TokenKind>)
    ensures
        final(lexer).token_seq() == old(lexer).token_seq(),
        old(lexer).position() < old(lexer).token_seq().len() ==> r is Some && r->0@
            == old(lexer).token_seq()[old(lexer).position() as int].kind && final(lexer).position()
            == old(lexer).position() + 1,
        old(lexer).position() >= old(lexer).token_seq().len() ==> r is None && final(lexer).position()
            == old(lexer).position(),
{
    match lexer.next() {
        Some(t) => Some(copy_kind(&t.token_kind)),
        None => None,
    }
}

/// How a token kind reads in messages.
pub fn kind_str(k: &TokenKind) -> (r: &'static str)
    ensures
        r@ == kind_text(k@),
{
    match k {
        TokenKind::Let => "let",
        TokenKind::Const => "const",
        TokenKind::Fun => "fun",
        TokenKind::Return => "return",
        TokenKind::If => "if",
        TokenKind::True => "true",
        TokenKind::False => "false",
        TokenKind::Null => "null",
        TokenKind::Assign => "=",
        TokenKind::Equals => "==",
        TokenKind::NotEquals => "!=",
        TokenKind::Minus => "-",
        TokenKind::Plus => "+",
        TokenKind::Multiplication => "*",
        TokenKind::Division => "/",
        TokenKind::Arrow => "->",
        TokenKind::Comma => ",",
        TokenKind::Dot => ".",
        TokenKind::Semicolon => ";",
        TokenKind::LeftParens => "(",
        TokenKind::RightParens => ")",
        TokenKind::LeftBrace => "{",
        TokenKind::RightBrace => "}",
        TokenKind::Identifier(_) => "Identifier",
        TokenKind::Integer(_) => "Integer",
        TokenKind::Float(_) => "Float",
        TokenKind::Str(_) => "String",
    }
}

fn error_of(a: &str, b: &str, c: &str) -> (r: ParseError)
    ensures
        r.msg@ == a@ + b@ + c@,
{
    let mut m = String::from_str(a);
    m.append(b);
    m.append(c);
    ParseError { msg: m }
}

fn eof_error() -> (r: ParseError)
    ensures
        r.msg@ == eof_msg(),
{
    ParseError { msg: String::from_str("Lexer: Unexpected EOF") }
}

fn expect_error(what: &str, k: &TokenKind) -> (r: ParseError)
    ensures
        r.msg@ == expect_msg(what@, k@),
{
    let mut r = error_of("Expecting ", what, " but ");
    r.msg.append(kind_str(k));
    r.msg.append(" found");
    r
}

/// The right binding power of a token kind.
pub fn rbp_for(k: &TokenKind) -> (r: u32)
    ensures
        r == binding_power(k@),
{
    match k {
        TokenKind::Assign => 1,
        TokenKind::Semicolon => 1,
        TokenKind::RightParens => 1,
        TokenKind::RightBrace => 1,
        TokenKind::Plus => 5,
        TokenKind::Minus => 5,
        TokenKind::Multiplication => 10,
        TokenKind::Division => 10,
        TokenKind::Equals => 30,
        TokenKind::NotEquals => 30,
        TokenKind::LeftParens => 50,
        _ => 0,
    }
}

/// Parses one expression at the cursor, taking infix operators while they
/// bind tighter than `current_rbp`.
pub fn parse_expression(current_rbp: u32, lexer: &mut Lexer) -> (r: Result<Expression, ParseError>)
    requires
        old(lexer).position() <= old(lexer).token_seq().len(),
    ensures
        final(lexer).token_seq() == old(lexer).token_seq(),
        old(lexer).position() <= final(lexer).position() <= final(lexer).token_seq().len(),
        r is Ok ==> final(lexer).position() > old(lexer).position(),
        parsed_view(r, final(lexer).position()) == parse_expr(
            old(lexer).token_seq(),
            old(lexer).position() as int,
            current_rbp,
        ),
    decreases old(lexer).token_seq().len() - old(lexer).position(), 0nat,
{
    let ghost ts = lexer.token_seq();
    let ghost start = lexer.position();
    let kind = match next_kind(lexer) {
        Some(k) => k,
        None => {
            return Err(eof_error());
        },
    };
    let mut left = match parse_nud(kind, lexer) {
        Ok(l) => l,
        Err(err) => {
            return Err(err);
        },
    };
    let ghost next_at = lexer.position();
    #[verifier::loop_isolation(false)]
    loop
        invariant
            lexer.token_seq() == ts,
            start < next_at <= lexer.position() <= ts.len(),
            parse_expr(ts, start as int, current_rbp) == led_loop(
                ts,
                lexer.position() as int,
                current_rbp,
                expr_model(left),
            ),
        decreases ts.len() - lexer.position(),
    {
        let k = match peek_kind(lexer) {
            Some(k) => k,
            None => {
                return Ok(left);
            },
        };
        if rbp_for(&k) <= current_rbp {
            return Ok(left);
        }
        lexer.next();
        left = match parse_led(k, lexer, left) {
            Ok(l) => l,
            Err(err) => {
                return Err(err);
            },
        };
    }
}

/// A token in prefix role; the token was just consumed.
fn parse_nud(kind: TokenKind, lexer: &mut Lexer) -> (r: Result<Expression, ParseError>)
    requires
        old(lexer).position() <= old(lexer).token_seq().len(),
    ensures
        final(lexer).token_seq() == old(lexer).token_seq(),
        old(lexer).position() <= final(lexer).position() <= final(lexer).token_seq().len(),
        parsed_view(r, final(lexer).position()) == nud(
            old(lexer).token_seq(),
            kind@,
            old(lexer).position() as int,
        ),
    decreases old(lexer).token_seq().len() - old(lexer).position(), 2nat,
{
    let ghost ts = lexer.token_seq();
    let ghost pos = lexer.position() as int;
    match kind {
        TokenKind::Identifier(name) => Ok(Expression::Identifier(IdentifierExpression { name })),
        TokenKind::Integer(value) => Ok(Expression::Integer(IntegerExpression { value })),
        TokenKind::Str(value) => Ok(Expression::Str(StringExpression { value })),
        TokenKind::True => Ok(Expression::Boolean(BooleanExpression { value: true })),
        TokenKind::False => Ok(Expression::Boolean(BooleanExpression { value: false })),
        TokenKind::Null => Ok(Expression::Null(Null {})),
        TokenKind::Plus => parse_expression(0, lexer),
        TokenKind::LeftParens => parse_expression(0, lexer),
        TokenKind::Minus => match parse_expression(5, lexer) {
            Ok(e) => Ok(Expression::PrefixMinus(PrefixMinusExpression { expression: Box::new(e) })),
            Err(err) => Err(err),
        },
        TokenKind::Return => match parse_expression(1, lexer) {
            Ok(e) => Ok(Expression::Return(ReturnStatement { expression: Box::new(e) })),
            Err(err) => Err(err),
        },
        TokenKind::LeftBrace => match read_block(lexer) {
            Ok(es) => Ok(Expression::Grouped(GroupedStatement { expressions: es })),
            Err(err) => Err(err),
        },
        TokenKind::If => {
            let c = match parse_expression(1, lexer) {
                Ok(c) => c,
                Err(err) => {
                    return Err(err);
                },
            };
            match parse_expression(1, lexer) {
                Ok(b) => Ok(
                    Expression::If(IfStatement { condition: Box::new(c), branch: Box::new(b) }),
                ),
                Err(err) => Err(err),
            }
        },
        TokenKind::Let => {
            let name = match next_kind(lexer) {
                Some(TokenKind::Identifier(n)) => n,
                Some(other) => {
                    return Err(expect_error("Identifier", &other));
                },
                None => {
                    return Err(eof_error());
                },
            };
            match next_kind(lexer) {
                Some(TokenKind::Assign) => {},
                Some(other) => {
                    return Err(expect_error("=", &other));
                },
                None => {
                    return Err(eof_error());
                },
            }
            match parse_expression(0, lexer) {
                Ok(e) => Ok(
                    Expression::Let(LetStatement { identifier: name, expression: Box::new(e) }),
                ),
                Err(err) => Err(err),
            }
        },
        TokenKind::Fun => parse_fun(lexer),
        _ => Err(error_of("Can't parse ", kind_str(&kind), " in NUD position")),
    }
}

/// The rest of `fun [name](params) -> body`, after `fun`.
fn parse_fun(lexer: &mut Lexer) -> (r: Result<Expression, ParseError>)
    requires
        old(lexer).position() <= old(lexer).token_seq().len(),
    ensures
        final(lexer).token_seq() == old(lexer).token_seq(),
        old(lexer).position() <= final(lexer).position() <= final(lexer).token_seq().len(),
        parsed_view(r, final(lexer).position()) == nud(
            old(lexer).token_seq(),
            Kind::Fun,
            old(lexer).position() as int,
        ),
    decreases old(lexer).token_seq().len() - old(lexer).position(), 1nat,
{
    let ghost ts = lexer.token_seq();
    let ghost pos = lexer.position() as int;
    let name = match peek_kind(lexer) {
        Some(TokenKind::Identifier(n)) => {
            lexer.next();
            Some(n)
        },
        _ => None,
    };
    match next_kind(lexer) {
        Some(TokenKind::LeftParens) => {},
        Some(other) => {
            return Err(expect_error("(", &other));
        },
        None => {
            return Err(eof_error());
        },
    }
    let args = match read_params(lexer) {
        Ok(a) => a,
        Err(err) => {
            return Err(err);
        },
    };
    match next_kind(lexer) {
        Some(TokenKind::Arrow) => {},
        Some(other) => {
            return Err(expect_error("->", &other));
        },
        None => {
            return Err(eof_error());
        },
    }
    let body = match parse_expression(0, lexer) {
        Ok(b) => b,
        Err(err) => {
            return Err(err);
        },
    };
    match name {
        Some(identifier) => Ok(
            Expression::Fun(
                FunStatement { identifier, args: Rc::new(args), expression: Rc::new(body) },
            ),
        ),
        None => Ok(
            Expression::AnonFun(AnonFunction { args: Rc::new(args), expression: Rc::new(body) }),
        ),
    }
}

/// A parameter list after `(`, up to and including `)`.
fn read_params(lexer: &mut Lexer) -> (r: Result<Vec<IdentifierExpression>, ParseError>)
    requires
        old(lexer).position() <= old(lexer).token_seq().len(),
    ensures
        final(lexer).token_seq() == old(lexer).token_seq(),
        old(lexer).position() <= final(lexer).position() <= final(lexer).token_seq().len(),
        match parse_params(old(lexer).token_seq(), old(lexer).position() as int, Seq::empty()) {
            Ok((ps, p)) => r is Ok && param_names(r->Ok_0@) == ps && final(lexer).position() == p,
            Err(m) => r is Err && r->Err_0.msg@ == m,
        },
{
    let ghost ts = lexer.token_seq();
    let ghost start = lexer.position() as int;
    let mut args: Vec<IdentifierExpression> = Vec::new();
    proof {
        assert(param_names(args@) =~= Seq::<Seq<char>>::empty());
    }
    #[verifier::loop_isolation(false)]
    loop
        invariant
            lexer.token_seq() == ts,
            start <= lexer.position() <= ts.len(),
            parse_params(ts, start, Seq::empty()) == parse_params(
                ts,
                lexer.position() as int,
                param_names(args@),
            ),
        decreases ts.len() - lexer.position(),
    {
        match next_kind(lexer) {
            Some(TokenKind::RightParens) => {
                return Ok(args);
            },
            Some(TokenKind::Identifier(name)) => {
                let ghost before = args@;
                let id = IdentifierExpression { name };
                proof {
                    lemma_names_push(before, id);
                }
                args.push(id);
            },
            Some(TokenKind::Comma) => {},
            Some(_) => {
                return Err(ParseError { msg: String::from_str("Expecting identifier or ,") });
            },
            None => {
                return Err(eof_error());
            },
        }
    }
}

/// A token in infix role after `left`; the token was just consumed.
fn parse_led(kind: TokenKind, lexer: &mut Lexer, left: Expression) -> (r: Result<Expression, ParseError>)
    requires
        old(lexer).position() <= old(lexer).token_seq().len(),
    ensures
        final(lexer).token_seq() == old(lexer).token_seq(),
        old(lexer).position() <= final(lexer).position() <= final(lexer).token_seq().len(),
        parsed_view(r, final(lexer).position()) == led(
            old(lexer).token_seq(),
            kind@,
            old(lexer).position() as int,
            expr_model(left),
        ),
    decreases old(lexer).token_seq().len() - old(lexer).position(), 2nat,
{
    match kind {
        TokenKind::Plus => match parse_expression(5, lexer) {
            Ok(r) => Ok(
                Expression::Plus(PlusExpression { left: Box::new(left), right: Box::new(r) }),
            ),
            Err(err) => Err(err),
        },
        TokenKind::Minus => match parse_expression(5, lexer) {
            Ok(r) => Ok(
                Expression::Minus(MinusExpression { left: Box::new(left), right: Box::new(r) }),
            ),
            Err(err) => Err(err),
        },
        TokenKind::Multiplication => match parse_expression(10, lexer) {
            Ok(r) => Ok(
                Expression::Multiplication(
                    MultiplicationExpression { left: Box::new(left), right: Box::new(r) },
                ),
            ),
            Err(err) => Err(err),
        },
        TokenKind::Division => match parse_expression(10, lexer) {
            Ok(r) => Ok(
                Expression::Division(
                    DivisionExpression { left: Box::new(left), right: Box::new(r) },
                ),
            ),
            Err(err) => Err(err),
        },
        TokenKind::Equals => match parse_expression(5, lexer) {
            Ok(r) => Ok(
                Expression::Equals(
                    EqualsExpression { negate: false, left: Box::new(left), right: Box::new(r) },
                ),
            ),
            Err(err) => Err(err),
        },
        TokenKind::NotEquals => match parse_expression(5, lexer) {
            Ok(r) => Ok(
                Expression::Equals(
                    EqualsExpression { negate: true, left: Box::new(left), right: Box::new(r) },
                ),
            ),
            Err(err) => Err(err),
        },
        TokenKind::LeftParens => match read_args(lexer) {
            Ok(args) => Ok(Expression::Call(CallExpression { target: Box::new(left), args })),
            Err(err) => Err(err),
        },
        TokenKind::RightParens => Ok(left),
        TokenKind::RightBrace => Ok(left),
        TokenKind::Semicolon => Ok(left),
        TokenKind::Comma => Ok(left),
        TokenKind::Assign => match left {
            Expression::Identifier(id) => match parse_expression(1, lexer) {
                Ok(r) => Ok(
                    Expression::Assign(
                        AssignStatement { identifier: id.name, expression: Box::new(r) },
                    ),
                ),
                Err(err) => Err(err),
            },
            _ => Err(ParseError { msg: String::from_str("Expecting identifier before =") }),
        },
        _ => Err(error_of("Can't parse ", kind_str(&kind), " in LED position")),
    }
}

/// Call arguments after `(`, up to and including `)`.
fn read_args(lexer: &mut Lexer) -> (r: Result<Vec<Expression>, ParseError>)
    requires
        old(lexer).position() <= old(lexer).token_seq().len(),
    ensures
        final(lexer).token_seq() == old(lexer).token_seq(),
        old(lexer).position() <= final(lexer).position() <= final(lexer).token_seq().len(),
        list_view(r, final(lexer).position()) == parse_args(
            old(lexer).token_seq(),
            old(lexer).position() as int,
            Seq::empty(),
        ),
    decreases old(lexer).token_seq().len() - old(lexer).position(), 1nat,
{
    let ghost ts = lexer.token_seq();
    let ghost start = lexer.position() as int;
    let mut args: Vec<Expression> = Vec::new();
    proof {
        assert(exprs_model(args@) =~= Seq::<Expr>::empty());
    }
    #[verifier::loop_isolation(false)]
    loop
        invariant
            lexer.token_seq() == ts,
            start <= lexer.position() <= ts.len(),
            parse_args(ts, start, Seq::empty()) == parse_args(
                ts,
                lexer.position() as int,
                exprs_model(args@),
            ),
        decreases ts.len() - lexer.position(),
    {
        match peek_kind(lexer) {
            Some(TokenKind::RightParens) => {
                lexer.next();
                return Ok(args);
            },
            Some(_) => {},
            None => {
                return Err(eof_error());
            },
        }
        let a = match parse_expression(1, lexer) {
            Ok(a) => a,
            Err(err) => {
                return Err(err);
            },
        };
        proof {
            lemma_exprs_push(args@, a);
        }
        args.push(a);
        match peek_kind(lexer) {
            Some(TokenKind::Comma) => {
                lexer.next();
            },
            _ => {},
        }
    }
}

/// A block's children after `{`, up to and including `}`.
fn read_block(lexer: &mut Lexer) -> (r: Result<Vec<Expression>, ParseError>)
    requires
        old(lexer).position() <= old(lexer).token_seq().len(),
    ensures
        final(lexer).token_seq() == old(lexer).token_seq(),
        old(lexer).position() <= final(lexer).position() <= final(lexer).token_seq().len(),
        list_view(r, final(lexer).position()) == parse_block(
            old(lexer).token_seq(),
            old(lexer).position() as int,
            Seq::empty(),
        ),
    decreases old(lexer).token_seq().len() - old(lexer).position(), 1nat,
{
    let ghost ts = lexer.token_seq();
    let ghost start = lexer.position() as int;
    let mut children: Vec<Expression> = Vec::new();
    proof {
        assert(exprs_model(children@) =~= Seq::<Expr>::empty());
    }
    #[verifier::loop_isolation(false)]
    loop
        invariant
            lexer.token_seq() == ts,
            start <= lexer.position() <= ts.len(),
            parse_block(ts, start, Seq::empty()) == parse_block(
                ts,
                lexer.position() as int,
                exprs_model(children@),
            ),
        decreases ts.len() - lexer.position(),
    {
        match peek_kind(lexer) {
            Some(TokenKind::RightBrace) => {
                lexer.next();
                return Ok(children);
            },
            Some(_) => {},
            None => {
                return Err(eof_error());
            },
        }
        let c = match parse_expression(1, lexer) {
            Ok(c) => c,
            Err(err) => {
                return Err(err);
            },
        };
        proof {
            lemma_exprs_push(children@, c);
        }
        children.push(c);
        match peek_kind(lexer) {
            Some(TokenKind::Semicolon) => {
                lexer.next();
            },
            _ => {},
        }
    }
}

/// Parses the expressions of a lexed source, one after another.
pub struct Parser {
    lexer: Lexer,
}

impl Parser {
    pub closed spec fn lexer(&self) -> Lexer {
        self.lexer
    }

    pub fn new(lexer: Lexer) -> (r: Parser)
        ensures
            r.lexer() == lexer,
    {
        Parser { lexer }
    }

    /// All expressions up to the end of the tokens.
    pub fn parse(&mut self) -> (r: Result<Vec<Expression>, ParseError>)
        requires
            old(self).lexer().position() <= old(self).lexer().token_seq().len(),
        ensures
            match parse_all(
                old(self).lexer().token_seq(),
                old(self).lexer().position() as int,
                Seq::empty(),
            ) {
                Ok(es) => r is Ok && exprs_model(r->Ok_0@) == es,
                Err(m) => r is Err && r->Err_0.msg@ == m,
            },
    {
        let ghost ts = self.lexer.token_seq();
        let ghost start = self.lexer.position() as int;
        let mut output: Vec<Expression> = Vec::new();
        proof {
            assert(exprs_model(output@) =~= Seq::<Expr>::empty());
        }
        #[verifier::loop_isolation(false)]
        while self.lexer.has_next()
            invariant
                self.lexer.token_seq() == ts,
                start <= self.lexer.position() <= ts.len(),
                parse_all(ts, start, Seq::empty()) == parse_all(
                    ts,
                    self.lexer.position() as int,
                    exprs_model(output@),
                ),
            decreases ts.len() - self.lexer.position(),
        {
            let e = match parse_expression(0, &mut self.lexer) {
                Ok(e) => e,
                Err(err) => {
                    return Err(err);
                },
            };
            proof {
                lemma_exprs_push(output@, e);
            }
            output.push(e);
        }
        Ok(output)
    }
}

impl Token {
    /// The identifier's name, or an error naming what was found instead.
    pub fn is_identifier(&self) -> (r: Result<String, ParseError>)
        ensures
            match self.token_kind@ {
                Kind::Identifier(n) => r is Ok && r->Ok_0@ == n,
                k => r is Err && r->Err_0.msg@ == expect_msg("Identifier"@, k),
            },
    {
        match &self.token_kind {
            TokenKind::Identifier(name) => Ok(name.clone()),
            k => Err(expect_error("Identifier", k)),
        }
    }

    /// Succeeds on `=`; otherwise an error naming what was found.
    pub fn is_assing(&self) -> (r: Result<(), ParseError>)
        ensures
            r is Ok <==> self.token_kind@ is Assign,
            r is Err ==> r->Err_0.msg@ == expect_msg("="@, self.token_kind@),
    {
        match &self.token_kind {
            TokenKind::Assign => Ok(()),
            k => Err(expect_error("=", k)),
        }
    }

    /// Succeeds on `(`; otherwise an error naming what was found.
    pub fn is_left_parens(&self) -> (r: Result<(), ParseError>)
        ensures
            r is Ok <==> self.token_kind@ is LeftParens,
            r is Err ==> r->Err_0.msg@ == expect_msg("("@, self.token_kind@),
    {
        match &self.token_kind {
            TokenKind::LeftParens => Ok(()),
            k => Err(expect_error("(", k)),
        }
    }

    /// Succeeds on `)`; otherwise an error naming what was found.
    pub fn is_right_parens(&self) -> (r: Result<(), ParseError>)
        ensures
            r is Ok <==> self.token_kind@ is RightParens,
            r is Err ==> r->Err_0.msg@ == expect_msg(")"@, self.token_kind@),
    {
        match &self.token_kind {
            TokenKind::RightParens => Ok(()),
            k => Err(expect_error(")", k)),
        }
    }

    /// Succeeds on `}`; otherwise an error naming what was found.
    pub fn is_right_brace(&self) -> (r: Result<(), ParseError>)
        ensures
            r is Ok <==> self.token_kind@ is RightBrace,
            r is Err ==> r->Err_0.msg@ == expect_msg("}"@, self.token_kind@),
    {
        match &self.token_kind {
            TokenKind::RightBrace => Ok(()),
            k => Err(expect_error("}", k)),
        }
    }

    /// Succeeds on `;`; otherwise an error naming what was found.
    pub fn is_semicolon(&self) -> (r: Result<(), ParseError>)
        ensures
            r is Ok <==> self.token_kind@ is Semicolon,
            r is Err ==> r->Err_0.msg@ == expect_msg(";"@, self.token_kind@),
    {
        match &self.token_kind {
            TokenKind::Semicolon => Ok(()),
            k => Err(expect_error(";", k)),
        }
    }

    /// Succeeds on `->`; otherwise an error naming what was found.
    pub fn is_arrow(&self) -> (r: Result<(), ParseError>)
        ensures
            r is Ok <==> self.token_kind@ is Arrow,
            r is Err ==> r->Err_0.msg@ == expect_msg("->"@, self.token_kind@),
    {
        match &self.token_kind {
            TokenKind::Arrow => Ok(()),
            k => Err(expect_error("->", k)),
        }
    }

    /// Succeeds on `,`; otherwise an error naming what was found.
    pub fn is_comma(&self) -> (r: Result<(), ParseError>)
        ensures
            r is Ok <==> self.token_kind@ is Comma,
            r is Err ==> r->Err_0.msg@ == expect_msg(","@, self.token_kind@),
    {
        match &self.token_kind {
            TokenKind::Comma => Ok(()),
            k => Err(expect_error(",", k)),
        }
    }
}

} // verus!
