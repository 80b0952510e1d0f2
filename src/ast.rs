use vstd::prelude::*;
use std::rc::Rc;

verus! {

/// A name in an expression.
#[derive(Debug)]
pub struct IdentifierExpression {
    pub name: String,
}

/// An integer literal.
#[derive(Debug)]
pub struct IntegerExpression {
    pub value: i32,
}

/// A string literal.
#[derive(Debug)]
pub struct StringExpression {
    pub value: String,
}

/// A boolean literal.
#[derive(Debug)]
pub struct BooleanExpression {
    pub value: bool,
}

/// The `null` literal.
#[derive(Debug)]
pub struct Null {}

/// `-child`.
#[derive(Debug)]
pub struct PrefixMinusExpression {
    pub expression: Box<Expression>,
}

/// `left + right`.
#[derive(Debug)]
pub struct PlusExpression {
    pub left: Box<Expression>,
    pub right: Box<Expression>,
}

/// `left - right`.
#[derive(Debug)]
pub struct MinusExpression {
    pub left: Box<Expression>,
    pub right: Box<Expression>,
}

/// `left * right`.
#[derive(Debug)]
pub struct MultiplicationExpression {
    pub left: Box<Expression>,
    pub right: Box<Expression>,
}

/// `left / right`.
#[derive(Debug)]
pub struct DivisionExpression {
    pub left: Box<Expression>,
    pub right: Box<Expression>,
}

/// `left == right`, or `left != right` when `negate` is set.
#[derive(Debug)]
pub struct EqualsExpression {
    pub negate: bool,
    pub left: Box<Expression>,
    pub right: Box<Expression>,
}

/// `target(args...)`.
#[derive(Debug)]
pub struct CallExpression {
    pub target: Box<Expression>,
    pub args: Vec<Expression>,
}

/// `{ expressions... }`: a block body.
#[derive(Debug)]
pub struct GroupedStatement {
    pub expressions: Vec<Expression>,
}

/// `let identifier = expression`.
#[derive(Debug)]
pub struct LetStatement {
    pub identifier: String,
    pub expression: Box<Expression>,
}

/// `identifier = expression`.
#[derive(Debug)]
pub struct AssignStatement {
    pub identifier: String,
    pub expression: Box<Expression>,
}

/// `fun identifier(args...) -> expression`.
#[derive(Debug)]
pub struct FunStatement {
    pub identifier: String,
    pub args: Rc<Vec<IdentifierExpression>>,
    pub expression: Rc<Expression>,
}

/// `fun (args...) -> expression`.
#[derive(Debug)]
pub struct AnonFunction {
    pub args: Rc<Vec<IdentifierExpression>>,
    pub expression: Rc<Expression>,
}

/// `return expression`.
#[derive(Debug)]
pub struct ReturnStatement {
    pub expression: Box<Expression>,
}

/// `if condition branch`.
#[derive(Debug)]
pub struct IfStatement {
    pub condition: Box<Expression>,
    pub branch: Box<Expression>,
}

/// The host functions that the standard library provides.
#[derive(Debug, PartialEq, Eq, Structural, Clone, Copy)]
pub enum NativeFunction {
    /// Writes its argument `a`.
    Print,
    /// Writes its argument `a` and a newline.
    PrintLine,
}

/// An expression tree.
#[derive(Debug)]
pub enum Expression {
    Integer(IntegerExpression),
    Str(StringExpression),
    Boolean(BooleanExpression),
    Null(Null),
    Identifier(IdentifierExpression),
    PrefixMinus(PrefixMinusExpression),
    Plus(PlusExpression),
    Minus(MinusExpression),
    Multiplication(MultiplicationExpression),
    Division(DivisionExpression),
    Equals(EqualsExpression),
    Call(CallExpression),
    Grouped(GroupedStatement),
    Let(LetStatement),
    Assign(AssignStatement),
    Fun(FunStatement),
    AnonFun(AnonFunction),
    Return(ReturnStatement),
    If(IfStatement),
    Native(NativeFunction),
}

/// A function value: its parameters, its body and the frame it was defined
/// in (`None` for a function made by the host).
#[derive(Debug)]
pub struct Function {
    pub args: Rc<Vec<IdentifierExpression>>,
    pub expression: Rc<Expression>,
    pub scope: Option<usize>,
}

/// A runtime value.
#[derive(Debug)]
pub enum Value {
    Integer(i32),
    String(String),
    Boolean(bool),
    Null,
    Void,
    Function(Function),
}

/// The mathematical form of a value.
pub enum Val {
    Integer(i32),
    Str(Seq<char>),
    Boolean(bool),
    Null,
    Void,
    Function(Function),
}

impl View for Value {
    type V = Val;

    open spec fn view(&self) -> Val {
        match self {
            Value::Integer(i) => Val::Integer(*i),
            Value::String(s) => Val::Str(s@),
            Value::Boolean(b) => Val::Boolean(*b),
            Value::Null => Val::Null,
            Value::Void => Val::Void,
            Value::Function(f) => Val::Function(*f),
        }
    }
}

/// A value that a `return` hands to the enclosing function call.
#[derive(Debug)]
pub struct ReturnValue {
    pub value: Value,
}

/// How an expression completed: with a value, or by a `return` that is still
/// on its way to the enclosing call.
#[derive(Debug)]
pub enum Outcome {
    Normal(Value),
    Returned(ReturnValue),
}

/// The mathematical form of an outcome.
pub enum Flow {
    Normal(Val),
    Returned(Val),
}

impl View for Outcome {
    type V = Flow;

    open spec fn view(&self) -> Flow {
        match self {
            Outcome::Normal(v) => Flow::Normal(v@),
            Outcome::Returned(r) => Flow::Returned(r.value@),
        }
    }
}

/// A value's type and primitive datum, for messages and comparisons.
#[derive(Debug, PartialEq)]
pub enum TypeMatcher {
    Integer(i32),
    String(String),
    Boolean(bool),
    Null,
    Void,
    Function,
}

/// The name of a value's type, as messages show it.
pub open spec fn type_name_of(v: Val) -> Seq<char> {
    match v {
        Val::Integer(_) => "Integer"@,
        Val::Str(_) => "String"@,
        Val::Boolean(_) => "Boolean"@,
        Val::Null => "Null"@,
        Val::Void => "Void"@,
        Val::Function(_) => "Fn"@,
    }
}

/// The text that `print` writes for a value.
pub open spec fn display_of(v: Val) -> Seq<char> {
    match v {
        Val::Integer(i) => crate::text::decimal(i as int),
        Val::Str(s) => s,
        Val::Boolean(b) => if b {
            "true"@
        } else {
            "false"@
        },
        _ => type_name_of(v),
    }
}

/// An error found while evaluating.
#[derive(Debug)]
pub struct EvaluationError {
    pub msg: String,
}

pub open spec fn cant_resolve_msg(name: Seq<char>) -> Seq<char> {
    "Can't resolve variable `"@ + name + "`"@
}

pub open spec fn cant_assign_msg(name: Seq<char>) -> Seq<char> {
    "Can't assing to variable `"@ + name + "`"@
}

pub open spec fn not_callable_msg(v: Val) -> Seq<char> {
    type_name_of(v) + " is not callable"@
}

pub open spec fn no_prefix_minus_msg(v: Val) -> Seq<char> {
    type_name_of(v) + " does not support prefix minus"@
}

pub open spec fn not_applicable_msg(op: Seq<char>, l: Val, r: Val) -> Seq<char> {
    "Can't apply "@ + type_name_of(l) + " "@ + op + " "@ + type_name_of(r)
}

pub open spec fn arity_msg(expected: int, received: int) -> Seq<char> {
    "Expecting "@ + crate::text::decimal(expected) + " arguments for call but "@
        + crate::text::decimal(received) + " given"@
}

/// Relies on `Rc::clone`: the copy points to the same value.
#[verifier::external_body]
pub(crate) fn share<T>(r: &Rc<T>) -> (s: Rc<T>)
    ensures
        s == *r,
{
    Rc::clone(r)
}

impl Function {
    /// A copy of this function value.
    pub fn copy(&self) -> (r: Function)
        ensures
            r == *self,
    {
        Function { args: share(&self.args), expression: share(&self.expression), scope: self.scope }
    }
}

impl Value {
    /// A copy of this value.
    pub fn copy(&self) -> (r: Value)
        ensures
            r@ == self@,
    {
        match self {
            Value::Integer(i) => Value::Integer(*i),
            Value::String(s) => Value::String(s.clone()),
            Value::Boolean(b) => Value::Boolean(*b),
            Value::Null => Value::Null,
            Value::Void => Value::Void,
            Value::Function(f) => Value::Function(f.copy()),
        }
    }
}

impl Value {
    /// The name of the value's type.
    pub fn kind_name(&self) -> (r: &'static str)
        ensures
            r@ == type_name_of(self@),
    {
        match self {
            Value::Integer(_) => "Integer",
            Value::String(_) => "String",
            Value::Boolean(_) => "Boolean",
            Value::Null => "Null",
            Value::Void => "Void",
            Value::Function(_) => "Fn",
        }
    }

    /// The value's type and primitive datum.
    pub fn type_matcher(&self) -> (r: TypeMatcher)
        ensures
            r == type_matcher_of(*self),
    {
        match self {
            Value::Integer(i) => TypeMatcher::Integer(*i),
            Value::String(s) => TypeMatcher::String(s.clone()),
            Value::Boolean(b) => TypeMatcher::Boolean(*b),
            Value::Null => TypeMatcher::Null,
            Value::Void => TypeMatcher::Void,
            Value::Function(_) => TypeMatcher::Function,
        }
    }

    /// The text that `print` writes for the value.
    pub fn display(&self) -> (r: String)
        ensures
            r@ == display_of(self@),
    {
        match self {
            Value::Integer(i) => crate::text::decimal_string(*i),
            Value::String(s) => s.clone(),
            Value::Boolean(b) => if *b {
                String::from_str("true")
            } else {
                String::from_str("false")
            },
            _ => String::from_str(self.kind_name()),
        }
    }

    /// Only `true` is truthy.
    pub fn is_truthy(&self) -> (r: bool)
        ensures
            r == (self@ == Val::Boolean(true)),
    {
        match self {
            Value::Boolean(b) => *b,
            _ => false,
        }
    }
}

pub open spec fn type_matcher_of(v: Value) -> TypeMatcher {
    match v {
        Value::Integer(i) => TypeMatcher::Integer(i),
        Value::String(s) => TypeMatcher::String(s),
        Value::Boolean(b) => TypeMatcher::Boolean(b),
        Value::Null => TypeMatcher::Null,
        Value::Void => TypeMatcher::Void,
        Value::Function(_) => TypeMatcher::Function,
    }
}

impl TypeMatcher {
    /// The name of the type.
    pub fn kind_name(&self) -> (r: &'static str)
        ensures
            self is Integer ==> r@ == "Integer"@,
            self is String ==> r@ == "String"@,
            self is Boolean ==> r@ == "Boolean"@,
            self is Null ==> r@ == "Null"@,
            self is Void ==> r@ == "Void"@,
            self is Function ==> r@ == "Fn"@,
    {
        match self {
            TypeMatcher::Integer(_) => "Integer",
            TypeMatcher::String(_) => "String",
            TypeMatcher::Boolean(_) => "Boolean",
            TypeMatcher::Null => "Null",
            TypeMatcher::Void => "Void",
            TypeMatcher::Function => "Fn",
        }
    }
}

fn join2(a: &str, b: &str) -> (r: String)
    ensures
        r@ == a@ + b@,
{
    let mut m = String::from_str(a);
    m.append(b);
    m
}

fn join3(a: &str, b: &str, c: &str) -> (r: String)
    ensures
        r@ == a@ + b@ + c@,
{
    let mut m = String::from_str(a);
    m.append(b);
    m.append(c);
    m
}

impl EvaluationError {
    pub fn new(msg: String) -> (r: EvaluationError)
        ensures
            r.msg == msg,
    {
        EvaluationError { msg }
    }

    pub fn cant_resolve(name: &str) -> (r: EvaluationError)
        ensures
            r.msg@ == cant_resolve_msg(name@),
    {
        EvaluationError { msg: join3("Can't resolve variable `", name, "`") }
    }

    pub fn cant_assing(name: &str) -> (r: EvaluationError)
        ensures
            r.msg@ == cant_assign_msg(name@),
    {
        EvaluationError { msg: join3("Can't assing to variable `", name, "`") }
    }

    pub fn not_callable(me: &Value) -> (r: EvaluationError)
        ensures
            r.msg@ == not_callable_msg(me@),
    {
        EvaluationError { msg: join2(me.kind_name(), " is not callable") }
    }

    pub fn does_not_support_prefix_minus(me: &Value) -> (r: EvaluationError)
        ensures
            r.msg@ == no_prefix_minus_msg(me@),
    {
        EvaluationError { msg: join2(me.kind_name(), " does not support prefix minus") }
    }

    pub fn operator_not_applicable(operator: &str, me: &Value, he_or_she: &Value) -> (r:
        EvaluationError)
        ensures
            r.msg@ == not_applicable_msg(operator@, me@, he_or_she@),
    {
        let mut m = join3("Can't apply ", me.kind_name(), " ");
        m.append(operator);
        m.append(" ");
        m.append(he_or_she.kind_name());
        EvaluationError { msg: m }
    }

    pub fn invalid_arity(expected: usize, received: usize) -> (r: EvaluationError)
        ensures
            r.msg@ == arity_msg(expected as int, received as int),
    {
        let e = crate::text::count_string(expected);
        let g = crate::text::count_string(received);
        let mut m = join3("Expecting ", e.as_str(), " arguments for call but ");
        m.append(g.as_str());
        m.append(" given");
        EvaluationError { msg: m }
    }
}

impl IdentifierExpression {
    pub fn new(name: String) -> (r: IdentifierExpression)
        ensures
            r.name == name,
    {
        IdentifierExpression { name }
    }

    /// The identifier as an expression.
    pub fn rc(name: String) -> (r: Expression)
        ensures
            r == Expression::Identifier(IdentifierExpression { name }),
    {
        Expression::Identifier(IdentifierExpression { name })
    }

    /// The identifier as an expression.
    pub fn boxed(name: String) -> (r: Expression)
        ensures
            r == Expression::Identifier(IdentifierExpression { name }),
    {
        Expression::Identifier(IdentifierExpression { name })
    }

    pub fn name(&self) -> (r: String)
        ensures
            r == self.name,
    {
        self.name.clone()
    }
}

impl IntegerExpression {
    pub fn new(value: i32) -> (r: IntegerExpression)
        ensures
            r.value == value,
    {
        IntegerExpression { value }
    }

    /// The literal as an expression.
    pub fn rc(value: i32) -> (r: Expression)
        ensures
            r == Expression::Integer(IntegerExpression { value }),
    {
        Expression::Integer(IntegerExpression { value })
    }

    /// The literal as an expression.
    pub fn boxed(value: i32) -> (r: Expression)
        ensures
            r == Expression::Integer(IntegerExpression { value }),
    {
        Expression::Integer(IntegerExpression { value })
    }
}

impl StringExpression {
    pub fn new(value: String) -> (r: StringExpression)
        ensures
            r.value == value,
    {
        StringExpression { value }
    }

    /// The literal as an expression.
    pub fn rc(value: String) -> (r: Expression)
        ensures
            r == Expression::Str(StringExpression { value }),
    {
        Expression::Str(StringExpression { value })
    }
}

impl BooleanExpression {
    /// The literal as an expression.
    pub fn rc(value: bool) -> (r: Expression)
        ensures
            r == Expression::Boolean(BooleanExpression { value }),
    {
        Expression::Boolean(BooleanExpression { value })
    }
}

impl Null {
    /// The `null` literal as an expression.
    pub fn rc() -> (r: Expression)
        ensures
            r == Expression::Null(Null {}),
    {
        Expression::Null(Null {})
    }
}

impl PrefixMinusExpression {
    pub fn new(expression: Expression) -> (r: PrefixMinusExpression)
        ensures
            *r.expression == expression,
    {
        PrefixMinusExpression { expression: Box::new(expression) }
    }
}

impl PlusExpression {
    pub fn new(left: Expression, right: Expression) -> (r: PlusExpression)
        ensures
            *r.left == left,
            *r.right == right,
    {
        PlusExpression { left: Box::new(left), right: Box::new(right) }
    }

    /// The sum as an expression.
    pub fn rc(left: Expression, right: Expression) -> (r: Expression)
        ensures
            r is Plus && *r->Plus_0.left == left && *r->Plus_0.right == right,
    {
        Expression::Plus(PlusExpression::new(left, right))
    }
}

impl MinusExpression {
    pub fn new(left: Expression, right: Expression) -> (r: MinusExpression)
        ensures
            *r.left == left,
            *r.right == right,
    {
        MinusExpression { left: Box::new(left), right: Box::new(right) }
    }

    /// The difference as an expression.
    pub fn rc(left: Expression, right: Expression) -> (r: Expression)
        ensures
            r is Minus && *r->Minus_0.left == left && *r->Minus_0.right == right,
    {
        Expression::Minus(MinusExpression::new(left, right))
    }
}

impl MultiplicationExpression {
    pub fn new(left: Expression, right: Expression) -> (r: MultiplicationExpression)
        ensures
            *r.left == left,
            *r.right == right,
    {
        MultiplicationExpression { left: Box::new(left), right: Box::new(right) }
    }

    /// The product as an expression.
    pub fn rc(left: Expression, right: Expression) -> (r: Expression)
        ensures
            r is Multiplication && *r->Multiplication_0.left == left
                && *r->Multiplication_0.right == right,
    {
        Expression::Multiplication(MultiplicationExpression::new(left, right))
    }
}

impl EqualsExpression {
    pub fn new(negate: bool, left: Expression, right: Expression) -> (r: EqualsExpression)
        ensures
            r.negate == negate,
            *r.left == left,
            *r.right == right,
    {
        EqualsExpression { negate, left: Box::new(left), right: Box::new(right) }
    }

    /// The comparison as an expression.
    pub fn rc(negate: bool, left: Expression, right: Expression) -> (r: Expression)
        ensures
            r is Equals && r->Equals_0.negate == negate && *r->Equals_0.left == left
                && *r->Equals_0.right == right,
    {
        Expression::Equals(EqualsExpression::new(negate, left, right))
    }
}

impl CallExpression {
    pub fn new(identifier: Expression, args: Vec<Expression>) -> (r: CallExpression)
        ensures
            *r.target == identifier,
            r.args == args,
    {
        CallExpression { target: Box::new(identifier), args }
    }

    /// The call as an expression.
    pub fn rc(identifier: Expression, args: Vec<Expression>) -> (r: Expression)
        ensures
            r is Call && *r->Call_0.target == identifier && r->Call_0.args == args,
    {
        Expression::Call(CallExpression::new(identifier, args))
    }
}

impl GroupedStatement {
    pub fn new(expressions: Vec<Expression>) -> (r: GroupedStatement)
        ensures
            r.expressions == expressions,
    {
        GroupedStatement { expressions }
    }

    /// The block as an expression.
    pub fn rc(expressions: Vec<Expression>) -> (r: Expression)
        ensures
            r == Expression::Grouped(GroupedStatement { expressions }),
    {
        Expression::Grouped(GroupedStatement { expressions })
    }
}

impl LetStatement {
    pub fn new(identifier: String, expression: Expression) -> (r: LetStatement)
        ensures
            r.identifier == identifier,
            *r.expression == expression,
    {
        LetStatement { identifier, expression: Box::new(expression) }
    }

    /// The definition as an expression.
    pub fn rc(identifier: String, expression: Expression) -> (r: Expression)
        ensures
            r is Let && r->Let_0.identifier == identifier && *r->Let_0.expression == expression,
    {
        Expression::Let(LetStatement::new(identifier, expression))
    }
}

impl AssignStatement {
    pub fn new(identifier: String, expression: Expression) -> (r: AssignStatement)
        ensures
            r.identifier == identifier,
            *r.expression == expression,
    {
        AssignStatement { identifier, expression: Box::new(expression) }
    }

    /// The assignment as an expression.
    pub fn rc(identifier: String, expression: Expression) -> (r: Expression)
        ensures
            r is Assign && r->Assign_0.identifier == identifier && *r->Assign_0.expression
                == expression,
    {
        Expression::Assign(AssignStatement::new(identifier, expression))
    }
}

impl ReturnStatement {
    pub fn new(expression: Expression) -> (r: ReturnStatement)
        ensures
            *r.expression == expression,
    {
        ReturnStatement { expression: Box::new(expression) }
    }

    /// The `return` as an expression.
    pub fn rc(expression: Expression) -> (r: Expression)
        ensures
            r is Return && *r->Return_0.expression == expression,
    {
        Expression::Return(ReturnStatement::new(expression))
    }
}

impl IfStatement {
    pub fn new(condition: Expression, branch: Expression) -> (r: IfStatement)
        ensures
            *r.condition == condition,
            *r.branch == branch,
    {
        IfStatement { condition: Box::new(condition), branch: Box::new(branch) }
    }

    /// The `if` as an expression.
    pub fn rc(condition: Expression, branch: Expression) -> (r: Expression)
        ensures
            r is If && *r->If_0.condition == condition && *r->If_0.branch == branch,
    {
        Expression::If(IfStatement::new(condition, branch))
    }
}

impl FunStatement {
    pub fn new(identifier: String, args: Vec<IdentifierExpression>, expression: Expression) -> (r:
        FunStatement)
        ensures
            r.identifier == identifier,
            *r.args == args,
            *r.expression == expression,
    {
        FunStatement { identifier, args: Rc::new(args), expression: Rc::new(expression) }
    }

    /// The definition as an expression.
    pub fn rc(identifier: String, args: Vec<IdentifierExpression>, expression: Expression) -> (r:
        Expression)
        ensures
            r is Fun && r->Fun_0.identifier == identifier && *r->Fun_0.args == args
                && *r->Fun_0.expression == expression,
    {
        Expression::Fun(FunStatement::new(identifier, args, expression))
    }
}

impl AnonFunction {
    /// The anonymous function as an expression.
    pub fn rc(args: Vec<IdentifierExpression>, expression: Expression) -> (r: Expression)
        ensures
            r is AnonFun && *r->AnonFun_0.args == args && *r->AnonFun_0.expression == expression,
    {
        Expression::AnonFun(AnonFunction { args: Rc::new(args), expression: Rc::new(expression) })
    }
}

impl Function {
    /// A function value made by the host: it sees only its parameters.
    pub fn rc(args: Vec<IdentifierExpression>, expression: Expression) -> (r: Value)
        ensures
            r is Function && *r->Function_0.args == args && *r->Function_0.expression
                == expression && r->Function_0.scope is None,
    {
        Value::Function(Function { args: Rc::new(args), expression: Rc::new(expression), scope: None })
    }
}

/// Integer values.
pub struct IntegerValue {}

impl IntegerValue {
    pub fn rc_value(value: i32) -> (r: Value)
        ensures
            r == Value::Integer(value),
    {
        Value::Integer(value)
    }

    pub fn rc_from(expr: &IntegerExpression) -> (r: Value)
        ensures
            r == Value::Integer(expr.value),
    {
        Value::Integer(expr.value)
    }

    pub fn boxed_value(value: i32) -> (r: Value)
        ensures
            r == Value::Integer(value),
    {
        Value::Integer(value)
    }

    pub fn boxed_from(expr: &IntegerExpression) -> (r: Value)
        ensures
            r == Value::Integer(expr.value),
    {
        Value::Integer(expr.value)
    }
}

/// String values.
pub struct StringValue {}

impl StringValue {
    pub fn rc_value(value: String) -> (r: Value)
        ensures
            r == Value::String(value),
    {
        Value::String(value)
    }

    pub fn rc_from(value: &StringExpression) -> (r: Value)
        ensures
            r@ == Val::Str(value.value@),
    {
        Value::String(value.value.clone())
    }
}

/// Boolean values.
pub struct BooleanValue {}

impl BooleanValue {
    pub fn rc(value: bool) -> (r: Value)
        ensures
            r == Value::Boolean(value),
    {
        Value::Boolean(value)
    }
}

} // verus!
