use vstd::prelude::*;
use crate::ast::{
    EvaluationError, Expression, Flow, Function, NativeFunction, Outcome, ReturnValue, Val, Value,
    arity_msg, cant_assign_msg, cant_resolve_msg, display_of, no_prefix_minus_msg,
    not_applicable_msg, not_callable_msg,
};
use crate::ast::{
    share, CallExpression, FunStatement, IdentifierExpression, IntegerExpression, MinusExpression,
    MultiplicationExpression, PlusExpression, StringExpression,
};
use crate::scope::{Scope, ScopeModel, param_names};
use crate::text::{decimal, decimal_string};

verus! {

broadcast use vstd::std_specs::vec::group_vec_axioms, vstd::seq::group_seq_axioms;

/// How deep function calls may nest before evaluation gives up.
pub const MAX_CALL_DEPTH: u64 = 200;

/// The binary operators.
#[derive(Debug, PartialEq, Eq, Structural, Clone, Copy)]
pub enum BinOp {
    Plus,
    Minus,
    Multiplication,
    Division,
    Equals,
    NotEquals,
}

pub open spec fn op_text(op: BinOp) -> Seq<char> {
    match op {
        BinOp::Plus => "+"@,
        BinOp::Minus => "-"@,
        BinOp::Multiplication => "*"@,
        BinOp::Division => "/"@,
        BinOp::Equals => "=="@,
        BinOp::NotEquals => "!="@,
    }
}

pub open spec fn overflow_msg() -> Seq<char> {
    "Integer overflow"@
}

pub open spec fn division_by_zero_msg() -> Seq<char> {
    "Division by zero"@
}

pub open spec fn call_depth_msg() -> Seq<char> {
    "Maximum call depth exceeded"@
}

/// An integer result, or an overflow error when it does not fit in `i32`.
pub open spec fn checked(x: int) -> Result<Val, Seq<char>> {
    if i32::MIN <= x <= i32::MAX {
        Ok(Val::Integer(x as i32))
    } else {
        Err(overflow_msg())
    }
}

pub open spec fn magnitude(x: int) -> int {
    if x < 0 {
        -x
    } else {
        x
    }
}

/// Integer division rounding toward zero.
pub open spec fn trunc_div(a: int, b: int) -> int {
    if (a < 0) == (b < 0) {
        magnitude(a) / magnitude(b)
    } else {
        -(magnitude(a) / magnitude(b))
    }
}

/// What a binary operator gives on two values.
pub open spec fn apply_binary(op: BinOp, l: Val, r: Val) -> Result<Val, Seq<char>> {
    match op {
        BinOp::Plus => match (l, r) {
            (Val::Integer(a), Val::Integer(b)) => checked(a + b),
            (Val::Str(a), Val::Integer(b)) => Ok(Val::Str(a + decimal(b as int))),
            (Val::Integer(a), Val::Str(b)) => Ok(Val::Str(decimal(a as int) + b)),
            (Val::Str(a), Val::Str(b)) => Ok(Val::Str(a + b)),
            (Val::Null, Val::Str(b)) => Ok(Val::Str("null"@ + b)),
            (Val::Str(a), Val::Null) => Ok(Val::Str(a + "null"@)),
            _ => Err(not_applicable_msg(op_text(op), l, r)),
        },
        BinOp::Minus => match (l, r) {
            (Val::Integer(a), Val::Integer(b)) => checked(a - b),
            _ => Err(not_applicable_msg(op_text(op), l, r)),
        },
        BinOp::Multiplication => match (l, r) {
            (Val::Integer(a), Val::Integer(b)) => checked(a * b),
            _ => Err(not_applicable_msg(op_text(op), l, r)),
        },
        BinOp::Division => match (l, r) {
            (Val::Integer(a), Val::Integer(b)) => if b == 0 {
                Err(division_by_zero_msg())
            } else {
                checked(trunc_div(a as int, b as int))
            },
            _ => Err(not_applicable_msg(op_text(op), l, r)),
        },
        BinOp::Equals => match (l, r) {
            (Val::Integer(a), Val::Integer(b)) => Ok(Val::Boolean(a == b)),
            _ => Err(not_applicable_msg(op_text(op), l, r)),
        },
        BinOp::NotEquals => match (l, r) {
            (Val::Integer(a), Val::Integer(b)) => Ok(Val::Boolean(a != b)),
            _ => Err(not_applicable_msg(op_text(op), l, r)),
        },
    }
}

/// What prefix minus gives on a value.
pub open spec fn prefix_minus(v: Val) -> Result<Val, Seq<char>> {
    match v {
        Val::Integer(a) => checked(-a),
        _ => Err(no_prefix_minus_msg(v)),
    }
}

pub open spec fn normal_or(r: Result<Val, Seq<char>>) -> Result<Flow, Seq<char>> {
    match r {
        Ok(v) => Ok(Flow::Normal(v)),
        Err(m) => Err(m),
    }
}

pub open spec fn is_binary(e: Expression) -> bool {
    e is Plus || e is Minus || e is Multiplication || e is Division || e is Equals
}

pub open spec fn binary_op(e: Expression) -> BinOp {
    match e {
        Expression::Minus(_) => BinOp::Minus,
        Expression::Multiplication(_) => BinOp::Multiplication,
        Expression::Division(_) => BinOp::Division,
        Expression::Equals(x) => if x.negate {
            BinOp::NotEquals
        } else {
            BinOp::Equals
        },
        _ => BinOp::Plus,
    }
}

pub open spec fn left_operand(e: Expression) -> Expression {
    match e {
        Expression::Plus(x) => *x.left,
        Expression::Minus(x) => *x.left,
        Expression::Multiplication(x) => *x.left,
        Expression::Division(x) => *x.left,
        Expression::Equals(x) => *x.left,
        _ => e,
    }
}

pub open spec fn right_operand(e: Expression) -> Expression {
    match e {
        Expression::Plus(x) => *x.right,
        Expression::Minus(x) => *x.right,
        Expression::Multiplication(x) => *x.right,
        Expression::Division(x) => *x.right,
        Expression::Equals(x) => *x.right,
        _ => e,
    }
}

/// The outcome of evaluating call arguments: their values, a `return` met
/// on the way, or an error.
pub enum ArgsOutcome {
    Values(Seq<Val>),
    Returned(Val),
    Failed(Seq<char>),
}

/// The scope after an evaluation, and its outcome or error message.
pub type Evaluated = (ScopeModel, Result<Flow, Seq<char>>);

/// Evaluation of an expression in a scope, with calls allowed to nest
/// `depth` deep. Operands are evaluated left to right; a `return` travels
/// outwards to the nearest enclosing call.
pub open spec fn eval(e: Expression, st: ScopeModel, depth: nat) -> Evaluated
    decreases depth, e, 2nat,
{
    match e {
        Expression::Integer(x) => (st, Ok(Flow::Normal(Val::Integer(x.value)))),
        Expression::Str(x) => (st, Ok(Flow::Normal(Val::Str(x.value@)))),
        Expression::Boolean(x) => (st, Ok(Flow::Normal(Val::Boolean(x.value)))),
        Expression::Null(_) => (st, Ok(Flow::Normal(Val::Null))),
        Expression::Identifier(x) => match st.resolve(x.name@) {
            Some(v) => (st, Ok(Flow::Normal(v))),
            None => (st, Err(cant_resolve_msg(x.name@))),
        },
        Expression::PrefixMinus(x) => {
            let (s1, r1) = eval(*x.expression, st, depth);
            match r1 {
                Ok(Flow::Normal(v)) => (s1, normal_or(prefix_minus(v))),
                _ => (s1, r1),
            }
        },
        Expression::Plus(_) => eval_binary(e, st, depth),
        Expression::Minus(_) => eval_binary(e, st, depth),
        Expression::Multiplication(_) => eval_binary(e, st, depth),
        Expression::Division(_) => eval_binary(e, st, depth),
        Expression::Equals(_) => eval_binary(e, st, depth),
        Expression::Call(x) => {
            let (s1, r1) = eval(*x.target, st, depth);
            match r1 {
                Ok(Flow::Normal(target)) => {
                    proof {
                        assert(decreases_to!(x.args => x.args@));
                    }
                    let (s2, r2) = eval_args(x.args@, 0, s1, depth, Seq::empty());
                    match r2 {
                        ArgsOutcome::Values(vals) => match target {
                            Val::Function(f) => {
                                if f.args@.len() != vals.len() {
                                    (s2, Err(arity_msg(f.args@.len() as int, vals.len() as int)))
                                } else if depth == 0 {
                                    (s2, Err(call_depth_msg()))
                                } else {
                                    let s3 = s2.enter(f.scope, param_names(f.args@), vals);
                                    let (s4, r4) = eval(*f.expression, s3, (depth - 1) as nat);
                                    let s5 = ScopeModel { current: s2.current, ..s4 };
                                    match r4 {
                                        Ok(Flow::Returned(v)) => (s5, Ok(Flow::Normal(v))),
                                        _ => (s5, r4),
                                    }
                                }
                            },
                            _ => (s2, Err(not_callable_msg(target))),
                        },
                        ArgsOutcome::Returned(v) => (s2, Ok(Flow::Returned(v))),
                        ArgsOutcome::Failed(m) => (s2, Err(m)),
                    }
                },
                _ => (s1, r1),
            }
        },
        Expression::Grouped(x) => {
            proof {
                assert(decreases_to!(x.expressions => x.expressions@));
            }
            eval_block(x.expressions@, 0, st, depth)
        },
        Expression::Let(x) => {
            let (s1, r1) = eval(*x.expression, st, depth);
            match r1 {
                Ok(Flow::Normal(v)) => (s1.store(x.identifier@, v), Ok(Flow::Normal(Val::Void))),
                _ => (s1, r1),
            }
        },
        Expression::Assign(x) => {
            if st.resolve(x.identifier@) is None {
                (st, Err(cant_assign_msg(x.identifier@)))
            } else {
                let (s1, r1) = eval(*x.expression, st, depth);
                match r1 {
                    Ok(Flow::Normal(v)) => (
                        s1.reassign(x.identifier@, v),
                        Ok(Flow::Normal(Val::Void)),
                    ),
                    _ => (s1, r1),
                }
            }
        },
        Expression::Fun(x) => (
            st.store(
                x.identifier@,
                Val::Function(
                    Function {
                        args: x.args,
                        expression: x.expression,
                        scope: Some(st.current as usize),
                    },
                ),
            ),
            Ok(Flow::Normal(Val::Void)),
        ),
        Expression::AnonFun(x) => (
            st,
            Ok(
                Flow::Normal(
                    Val::Function(
                        Function {
                            args: x.args,
                            expression: x.expression,
                            scope: Some(st.current as usize),
                        },
                    ),
                ),
            ),
        ),
        Expression::Return(x) => {
            let (s1, r1) = eval(*x.expression, st, depth);
            match r1 {
                Ok(Flow::Normal(v)) => (s1, Ok(Flow::Returned(v))),
                _ => (s1, r1),
            }
        },
        Expression::If(x) => {
            let (s1, r1) = eval(*x.condition, st, depth);
            match r1 {
                Ok(Flow::Normal(c)) => if c == Val::Boolean(true) {
                    eval(*x.branch, s1, depth)
                } else {
                    (s1, Ok(Flow::Normal(Val::Void)))
                },
                _ => (s1, r1),
            }
        },
        Expression::Native(k) => match st.resolve("a"@) {
            Some(v) => (
                ScopeModel { output: st.output + native_text(k, v), ..st },
                Ok(Flow::Normal(Val::Void)),
            ),
            None => (st, Err(cant_resolve_msg("a"@))),
        },
    }
}

/// What a host function writes for its argument.
pub open spec fn native_text(k: NativeFunction, v: Val) -> Seq<char> {
    match k {
        NativeFunction::Print => display_of(v),
        NativeFunction::PrintLine => display_of(v) + "\n"@,
    }
}

/// A binary operator: the left operand, then the right one, then the
/// operator on their values.
pub open spec fn eval_binary(e: Expression, st: ScopeModel, depth: nat) -> Evaluated
    decreases depth, e, 1nat,
{
    if is_binary(e) {
        proof {
            lemma_operands_smaller(e);
        }
        let (s1, r1) = eval(left_operand(e), st, depth);
        match r1 {
            Ok(Flow::Normal(lv)) => {
                let (s2, r2) = eval(right_operand(e), s1, depth);
                match r2 {
                    Ok(Flow::Normal(rv)) => (s2, normal_or(apply_binary(binary_op(e), lv, rv))),
                    _ => (s2, r2),
                }
            },
            _ => (s1, r1),
        }
    } else {
        (st, Ok(Flow::Normal(Val::Void)))
    }
}

pub proof fn lemma_operands_smaller(e: Expression)
    requires
        is_binary(e),
    ensures
        decreases_to!(e => left_operand(e)),
        decreases_to!(e => right_operand(e)),
{
    match e {
        Expression::Plus(x) => {
            assert(decreases_to!(e => x));
        },
        Expression::Minus(x) => {
            assert(decreases_to!(e => x));
        },
        Expression::Multiplication(x) => {
            assert(decreases_to!(e => x));
        },
        Expression::Division(x) => {
            assert(decreases_to!(e => x));
        },
        Expression::Equals(x) => {
            assert(decreases_to!(e => x));
        },
        _ => {},
    }
}

/// Call arguments from index `i` on, left to right, after the values `acc`
/// of those before it.
pub open spec fn eval_args(
    es: Seq<Expression>,
    i: int,
    st: ScopeModel,
    depth: nat,
    acc: Seq<Val>,
) -> (ScopeModel, ArgsOutcome)
    decreases depth, es, if 0 <= i <= es.len() {
        (es.len() - i) as nat
    } else {
        0nat
    },
{
    if i < 0 || i >= es.len() {
        (st, ArgsOutcome::Values(acc))
    } else {
        let (s1, r1) = eval(es[i], st, depth);
        match r1 {
            Ok(Flow::Normal(v)) => eval_args(es, i + 1, s1, depth, acc.push(v)),
            Ok(Flow::Returned(v)) => (s1, ArgsOutcome::Returned(v)),
            Err(m) => (s1, ArgsOutcome::Failed(m)),
        }
    }
}

/// A block from index `i` on: each child in order; a `return` or an error
/// ends the block; a block that completes gives `Void`.
pub open spec fn eval_block(es: Seq<Expression>, i: int, st: ScopeModel, depth: nat) -> Evaluated
    decreases depth, es, if 0 <= i <= es.len() {
        (es.len() - i) as nat
    } else {
        0nat
    },
{
    if i < 0 || i >= es.len() {
        (st, Ok(Flow::Normal(Val::Void)))
    } else {
        let (s1, r1) = eval(es[i], st, depth);
        match r1 {
            Ok(Flow::Normal(_)) => eval_block(es, i + 1, s1, depth),
            _ => (s1, r1),
        }
    }
}

pub open spec fn result_view(r: Result<Outcome, EvaluationError>) -> Result<Flow, Seq<char>> {
    match r {
        Ok(o) => Ok(o@),
        Err(e) => Err(e.msg@),
    }
}

pub open spec fn value_result_view(r: Result<Value, EvaluationError>) -> Result<Val, Seq<char>> {
    match r {
        Ok(v) => Ok(v@),
        Err(e) => Err(e.msg@),
    }
}

/// Evaluation of a top-level expression: a `return` outside any function
/// gives its value.
pub open spec fn evaluate(e: Expression, st: ScopeModel) -> (ScopeModel, Result<Val, Seq<char>>) {
    let (s, r) = eval(e, st, MAX_CALL_DEPTH as nat);
    (
        s,
        match r {
            Ok(Flow::Normal(v)) => Ok(v),
            Ok(Flow::Returned(v)) => Ok(v),
            Err(m) => Err(m),
        },
    )
}

fn op_str(op: BinOp) -> (r: &'static str)
    ensures
        r@ == op_text(op),
{
    match op {
        BinOp::Plus => "+",
        BinOp::Minus => "-",
        BinOp::Multiplication => "*",
        BinOp::Division => "/",
        BinOp::Equals => "==",
        BinOp::NotEquals => "!=",
    }
}

fn error_of(msg: &str) -> (r: EvaluationError)
    ensures
        r.msg@ == msg@,
{
    EvaluationError { msg: String::from_str(msg) }
}

fn checked_value(x: i64) -> (r: Result<Value, EvaluationError>)
    ensures
        value_result_view(r) == checked(x as int),
{
    if x < i32::MIN as i64 || x > i32::MAX as i64 {
        Err(error_of("Integer overflow"))
    } else {
        Ok(Value::Integer(x as i32))
    }
}

fn concat(a: &String, b: &str) -> (r: String)
    ensures
        r@ == a@ + b@,
{
    a.clone().concat(b)
}

/// Applies a binary operator to two values.
pub fn apply_values(op: BinOp, l: &Value, r: &Value) -> (res: Result<Value, EvaluationError>)
    ensures
        value_result_view(res) == apply_binary(op, l@, r@),
{
    match (l, r) {
        (Value::Integer(a), Value::Integer(b)) => {
            let a = *a as i64;
            let b = *b as i64;
            match op {
                BinOp::Plus => checked_value(a + b),
                BinOp::Minus => checked_value(a - b),
                BinOp::Multiplication => {
                    proof {
                        assert(-4611686018427387904 <= a * b <= 4611686018427387904)
                            by (nonlinear_arith)
                            requires
                                -2147483648 <= a <= 2147483647,
                                -2147483648 <= b <= 2147483647,
                        ;
                    }
                    checked_value(a * b)
                },
                BinOp::Division => {
                    if b == 0 {
                        Err(error_of("Division by zero"))
                    } else {
                        let ma: i64 = if a < 0 {
                            -a
                        } else {
                            a
                        };
                        let mb: i64 = if b < 0 {
                            -b
                        } else {
                            b
                        };
                        let q = ma / mb;
                        if (a < 0) == (b < 0) {
                            checked_value(q)
                        } else {
                            checked_value(-q)
                        }
                    }
                },
                BinOp::Equals => Ok(Value::Boolean(a == b)),
                BinOp::NotEquals => Ok(Value::Boolean(a != b)),
            }
        },
        (Value::String(a), Value::Integer(b)) if op == BinOp::Plus => {
            let d = decimal_string(*b);
            Ok(Value::String(concat(a, d.as_str())))
        },
        (Value::Integer(a), Value::String(b)) if op == BinOp::Plus => {
            let d = decimal_string(*a);
            Ok(Value::String(concat(&d, b.as_str())))
        },
        (Value::String(a), Value::String(b)) if op == BinOp::Plus => {
            Ok(Value::String(concat(a, b.as_str())))
        },
        (Value::Null, Value::String(b)) if op == BinOp::Plus => {
            let n = String::from_str("null");
            Ok(Value::String(concat(&n, b.as_str())))
        },
        (Value::String(a), Value::Null) if op == BinOp::Plus => {
            Ok(Value::String(concat(a, "null")))
        },
        _ => Err(EvaluationError::operator_not_applicable(op_str(op), l, r)),
    }
}

/// Applies prefix minus to a value.
pub fn negate(v: &Value) -> (res: Result<Value, EvaluationError>)
    ensures
        value_result_view(res) == prefix_minus(v@),
{
    match v {
        Value::Integer(a) => checked_value(-(*a as i64)),
        _ => Err(EvaluationError::does_not_support_prefix_minus(v)),
    }
}

fn eval_binary_exec(e: &Expression, scope: &mut Scope, depth: u64) -> (r: Result<Outcome, EvaluationError>)
    requires
        old(scope).wf(),
    ensures
        final(scope).wf(),
        final(scope)@.frames.len() >= old(scope)@.frames.len(),
        (final(scope)@, result_view(r)) == eval_binary(*e, old(scope)@, depth as nat),
    decreases depth, *e, 1nat,
{
    let (op, left, right) = match e {
        Expression::Plus(x) => (BinOp::Plus, &*x.left, &*x.right),
        Expression::Minus(x) => (BinOp::Minus, &*x.left, &*x.right),
        Expression::Multiplication(x) => (BinOp::Multiplication, &*x.left, &*x.right),
        Expression::Division(x) => (BinOp::Division, &*x.left, &*x.right),
        Expression::Equals(x) => (
            if x.negate {
                BinOp::NotEquals
            } else {
                BinOp::Equals
            },
            &*x.left,
            &*x.right,
        ),
        _ => {
            return Ok(Outcome::Normal(Value::Void));
        },
    };
    let r1 = eval_expr(left, scope, depth);
    let lv = match r1 {
        Ok(Outcome::Normal(v)) => v,
        other => {
            return other;
        },
    };
    let r2 = eval_expr(right, scope, depth);
    let rv = match r2 {
        Ok(Outcome::Normal(v)) => v,
        other => {
            return other;
        },
    };
    match apply_values(op, &lv, &rv) {
        Ok(v) => Ok(Outcome::Normal(v)),
        Err(err) => Err(err),
    }
}

/// A call: the target, the arguments left to right, then the function body in a new frame.
fn eval_call_exec(e: &Expression, scope: &mut Scope, depth: u64) -> (r: Result<Outcome, EvaluationError>)
    requires
        old(scope).wf(),
        *e is Call,
    ensures
        final(scope).wf(),
        final(scope)@.frames.len() >= old(scope)@.frames.len(),
        (final(scope)@, result_view(r)) == eval(*e, old(scope)@, depth as nat),
    decreases depth, *e, 1nat,
{
    let ghost initial = scope@;
    let x = match e {
        Expression::Call(x) => x,
        _ => {
            return Ok(Outcome::Normal(Value::Void));
        },
    };
        let r1 = eval_expr(&*x.target, scope, depth);
        let target = match r1 {
            Ok(Outcome::Normal(v)) => v,
            other => {
                return other;
            },
        };
        let ghost s1 = scope@;
        let ghost start_len = initial.frames.len();
        let mut vals: Vec<Value> = Vec::new();
        let mut i: usize = 0;
        proof {
            assert(vals@.map_values(|v: Value| v@) =~= Seq::<Val>::empty());
        }
        #[verifier::loop_isolation(false)]
        while i < x.args.len()
            invariant
                scope.wf(),
                scope@.frames.len() >= start_len,
                i <= x.args@.len(),
                eval_args(x.args@, 0, s1, depth as nat, Seq::empty()) == eval_args(
                    x.args@,
                    i as int,
                    scope@,
                    depth as nat,
                    vals@.map_values(|v: Value| v@),
                ),
            decreases x.args@.len() - i,
        {
            proof {
                assert(decreases_to!(*e => *x));
                assert(decreases_to!(*x => x.args));
                assert(decreases_to!(x.args => x.args[i as int]));
                assert(decreases_to!(*e => x.args[i as int]));
            }
            let r = eval_expr(&x.args[i], scope, depth);
            match r {
                Ok(Outcome::Normal(v)) => {
                    let ghost before = vals@;
                    vals.push(v);
                    proof {
                        assert(vals@.map_values(|v: Value| v@) =~= before.map_values(
                            |v: Value| v@,
                        ).push(v@));
                    }
                },
                Ok(Outcome::Returned(rv)) => {
                    return Ok(Outcome::Returned(rv));
                },
                Err(err) => {
                    return Err(err);
                },
            }
            i = i + 1;
        }
        match target {
            Value::Function(f) => {
                if f.args.len() != vals.len() {
                    return Err(EvaluationError::invalid_arity(f.args.len(), vals.len()));
                }
                if depth == 0 {
                    return Err(error_of("Maximum call depth exceeded"));
                }
                let saved = scope.enter(f.scope, &*f.args, &vals);
                let r4 = eval_expr(&*f.expression, scope, depth - 1);
                scope.leave(saved);
                match r4 {
                    Ok(Outcome::Returned(rv)) => Ok(Outcome::Normal(rv.value)),
                    other => other,
                }
            },
            _ => Err(EvaluationError::not_callable(&target)),
        }
}

/// A block: its children in order until one returns or fails.
fn eval_block_exec(e: &Expression, scope: &mut Scope, depth: u64) -> (r: Result<Outcome, EvaluationError>)
    requires
        old(scope).wf(),
        *e is Grouped,
    ensures
        final(scope).wf(),
        final(scope)@.frames.len() >= old(scope)@.frames.len(),
        (final(scope)@, result_view(r)) == eval(*e, old(scope)@, depth as nat),
    decreases depth, *e, 1nat,
{
    let ghost initial = scope@;
    let x = match e {
        Expression::Grouped(x) => x,
        _ => {
            return Ok(Outcome::Normal(Value::Void));
        },
    };
        let ghost s0 = scope@;
        let ghost start_len = initial.frames.len();
        let mut i: usize = 0;
        #[verifier::loop_isolation(false)]
        while i < x.expressions.len()
            invariant
                scope.wf(),
                scope@.frames.len() >= start_len,
                i <= x.expressions@.len(),
                eval_block(x.expressions@, 0, s0, depth as nat) == eval_block(
                    x.expressions@,
                    i as int,
                    scope@,
                    depth as nat,
                ),
            decreases x.expressions@.len() - i,
        {
            proof {
                assert(decreases_to!(*e => *x));
                assert(decreases_to!(*x => x.expressions));
                assert(decreases_to!(x.expressions => x.expressions[i as int]));
                assert(decreases_to!(*e => x.expressions[i as int]));
            }
            let r = eval_expr(&x.expressions[i], scope, depth);
            match r {
                Ok(Outcome::Normal(_)) => {},
                other => {
                    return other;
                },
            }
            i = i + 1;
        }
        Ok(Outcome::Normal(Value::Void))
}

/// Evaluates `e` in `scope`, with calls allowed to nest `depth` deep.
pub fn eval_expr(e: &Expression, scope: &mut Scope, depth: u64) -> (r: Result<Outcome, EvaluationError>)
    requires
        old(scope).wf(),
    ensures
        final(scope).wf(),
        final(scope)@.frames.len() >= old(scope)@.frames.len(),
        (final(scope)@, result_view(r)) == eval(*e, old(scope)@, depth as nat),
    decreases depth, *e, 2nat,
{
    let ghost initial = scope@;
    match e {
        Expression::Integer(x) => Ok(Outcome::Normal(Value::Integer(x.value))),
        Expression::Str(x) => Ok(Outcome::Normal(Value::String(x.value.clone()))),
        Expression::Boolean(x) => Ok(Outcome::Normal(Value::Boolean(x.value))),
        Expression::Null(_) => Ok(Outcome::Normal(Value::Null)),
        Expression::Identifier(x) => match scope.resolve(&x.name) {
            Some(v) => Ok(Outcome::Normal(v)),
            None => Err(EvaluationError::cant_resolve(x.name.as_str())),
        },
        Expression::PrefixMinus(x) => {
            let r1 = eval_expr(&*x.expression, scope, depth);
            match r1 {
                Ok(Outcome::Normal(v)) => match negate(&v) {
                    Ok(n) => Ok(Outcome::Normal(n)),
                    Err(err) => Err(err),
                },
                other => other,
            }
        },
        Expression::Plus(_) => eval_binary_exec(e, scope, depth),
        Expression::Minus(_) => eval_binary_exec(e, scope, depth),
        Expression::Multiplication(_) => eval_binary_exec(e, scope, depth),
        Expression::Division(_) => eval_binary_exec(e, scope, depth),
        Expression::Equals(_) => eval_binary_exec(e, scope, depth),
        Expression::Call(_) => eval_call_exec(e, scope, depth),
        Expression::Grouped(_) => eval_block_exec(e, scope, depth),
        Expression::Let(x) => {
            let r1 = eval_expr(&*x.expression, scope, depth);
            match r1 {
                Ok(Outcome::Normal(v)) => {
                    scope.store(x.identifier.clone(), v);
                    Ok(Outcome::Normal(Value::Void))
                },
                other => other,
            }
        },
        Expression::Assign(x) => {
            if scope.resolve(&x.identifier).is_none() {
                return Err(EvaluationError::cant_assing(x.identifier.as_str()));
            }
            let r1 = eval_expr(&*x.expression, scope, depth);
            match r1 {
                Ok(Outcome::Normal(v)) => {
                    scope.reassign(x.identifier.clone(), v);
                    Ok(Outcome::Normal(Value::Void))
                },
                other => other,
            }
        },
        Expression::Fun(x) => {
            let f = Function {
                args: share(&x.args),
                expression: share(&x.expression),
                scope: Some(scope.current_frame()),
            };
            scope.store(x.identifier.clone(), Value::Function(f));
            Ok(Outcome::Normal(Value::Void))
        },
        Expression::AnonFun(x) => {
            let f = Function {
                args: share(&x.args),
                expression: share(&x.expression),
                scope: Some(scope.current_frame()),
            };
            Ok(Outcome::Normal(Value::Function(f)))
        },
        Expression::Return(x) => {
            let r1 = eval_expr(&*x.expression, scope, depth);
            match r1 {
                Ok(Outcome::Normal(v)) => Ok(Outcome::Returned(ReturnValue { value: v })),
                other => other,
            }
        },
        Expression::If(x) => {
            let r1 = eval_expr(&*x.condition, scope, depth);
            match r1 {
                Ok(Outcome::Normal(c)) => {
                    if c.is_truthy() {
                        eval_expr(&*x.branch, scope, depth)
                    } else {
                        Ok(Outcome::Normal(Value::Void))
                    }
                },
                other => other,
            }
        },
        Expression::Native(k) => {
            let name = String::from_str("a");
            match scope.resolve(&name) {
                Some(v) => {
                    let text = v.display();
                    let ghost before = scope@.output;
                    scope.write_output(text.as_str());
                    if *k == NativeFunction::PrintLine {
                        scope.write_output("\n");
                        proof {
                            assert(before + text@ + "\n"@ =~= before + (text@ + "\n"@));
                        }
                    }
                    Ok(Outcome::Normal(Value::Void))
                },
                None => Err(EvaluationError::cant_resolve("a")),
            }
        },
    }
}

impl Expression {
    /// Evaluates the expression in `scope`. A `return` outside any function
    /// gives its value.
    pub fn evaluate(&self, scope: &mut Scope) -> (r: Result<Value, EvaluationError>)
        requires
            old(scope).wf(),
        ensures
            final(scope).wf(),
            (final(scope)@, value_result_view(r)) == evaluate(*self, old(scope)@),
    {
        match eval_expr(self, scope, MAX_CALL_DEPTH) {
            Ok(Outcome::Normal(v)) => Ok(v),
            Ok(Outcome::Returned(rv)) => Ok(rv.value),
            Err(err) => Err(err),
        }
    }
}

impl CallExpression {
    /// Evaluates the call in `scope`.
    pub fn evaluate(self, scope: &mut Scope) -> (r: Result<Value, EvaluationError>)
        requires
            old(scope).wf(),
        ensures
            final(scope).wf(),
            (final(scope)@, value_result_view(r)) == evaluate(Expression::Call(self), old(scope)@),
    {
        Expression::Call(self).evaluate(scope)
    }
}

impl FunStatement {
    /// Evaluates the definition in `scope`.
    pub fn evaluate(self, scope: &mut Scope) -> (r: Result<Value, EvaluationError>)
        requires
            old(scope).wf(),
        ensures
            final(scope).wf(),
            (final(scope)@, value_result_view(r)) == evaluate(Expression::Fun(self), old(scope)@),
    {
        Expression::Fun(self).evaluate(scope)
    }
}

impl IdentifierExpression {
    /// Evaluates the name in `scope`.
    pub fn evaluate(self, scope: &mut Scope) -> (r: Result<Value, EvaluationError>)
        requires
            old(scope).wf(),
        ensures
            final(scope).wf(),
            (final(scope)@, value_result_view(r)) == evaluate(Expression::Identifier(self), old(scope)@),
    {
        Expression::Identifier(self).evaluate(scope)
    }
}

impl IntegerExpression {
    /// Evaluates the literal in `scope`.
    pub fn evaluate(self, scope: &mut Scope) -> (r: Result<Value, EvaluationError>)
        requires
            old(scope).wf(),
        ensures
            final(scope).wf(),
            (final(scope)@, value_result_view(r)) == evaluate(Expression::Integer(self), old(scope)@),
    {
        Expression::Integer(self).evaluate(scope)
    }
}

impl StringExpression {
    /// Evaluates the literal in `scope`.
    pub fn evaluate(self, scope: &mut Scope) -> (r: Result<Value, EvaluationError>)
        requires
            old(scope).wf(),
        ensures
            final(scope).wf(),
            (final(scope)@, value_result_view(r)) == evaluate(Expression::Str(self), old(scope)@),
    {
        Expression::Str(self).evaluate(scope)
    }
}

impl PlusExpression {
    /// Evaluates the sum in `scope`.
    pub fn evaluate(self, scope: &mut Scope) -> (r: Result<Value, EvaluationError>)
        requires
            old(scope).wf(),
        ensures
            final(scope).wf(),
            (final(scope)@, value_result_view(r)) == evaluate(Expression::Plus(self), old(scope)@),
    {
        Expression::Plus(self).evaluate(scope)
    }
}

impl MinusExpression {
    /// Evaluates the difference in `scope`.
    pub fn evaluate(self, scope: &mut Scope) -> (r: Result<Value, EvaluationError>)
        requires
            old(scope).wf(),
        ensures
            final(scope).wf(),
            (final(scope)@, value_result_view(r)) == evaluate(Expression::Minus(self), old(scope)@),
    {
        Expression::Minus(self).evaluate(scope)
    }
}

impl MultiplicationExpression {
    /// Evaluates the product in `scope`.
    pub fn evaluate(self, scope: &mut Scope) -> (r: Result<Value, EvaluationError>)
        requires
            old(scope).wf(),
        ensures
            final(scope).wf(),
            (final(scope)@, value_result_view(r)) == evaluate(Expression::Multiplication(self), old(scope)@),
    {
        Expression::Multiplication(self).evaluate(scope)
    }
}

} // verus!
