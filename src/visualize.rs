use vstd::prelude::*;
use crate::ast::Expression;
use crate::eval::BinOp;
use crate::parser::{Expr, expr_model, exprs_model};
use crate::text::{count_string, decimal, decimal_string, string_of};

verus! {

broadcast use vstd::std_specs::vec::group_vec_axioms, vstd::seq::group_seq_axioms;

/// `n` dashes: the indentation of a tree line at depth `n`.
pub open spec fn dashes(n: nat) -> Seq<char>
    decreases n,
{
    if n == 0 {
        Seq::empty()
    } else {
        dashes((n - 1) as nat).push('-')
    }
}

/// One line of the tree: indentation, a space, the label and a newline.
pub open spec fn line(level: nat, label: Seq<char>) -> Seq<char> {
    dashes(level) + " "@ + label + "\n"@
}

pub open spec fn op_name(op: BinOp) -> Seq<char> {
    match op {
        BinOp::Plus => "PlusExpression"@,
        BinOp::Minus => "MinusExpression"@,
        BinOp::Multiplication => "MultiplicationExpression"@,
        BinOp::Division => "DivisionExpression"@,
        BinOp::Equals => "EqualsExpression"@,
        BinOp::NotEquals => "NotEqualsExpression"@,
    }
}

/// The text of an expression tree, one node per line, children indented one
/// step deeper than their parent.
pub open spec fn render(e: Expr, level: nat) -> Seq<char>
    decreases e, 1nat,
{
    match e {
        Expr::Integer(v) => line(level, "Integer("@ + decimal(v as int) + ")"@),
        Expr::Str(s) => line(level, "String("@ + s + ")"@),
        Expr::Boolean(b) => line(
            level,
            if b {
                "Boolean(true)"@
            } else {
                "Boolean(false)"@
            },
        ),
        Expr::Null => line(level, "Null"@),
        Expr::Identifier(n) => line(level, "Identifier("@ + n + ")"@),
        Expr::PrefixMinus(c) => line(level, "PrefixMinusExpression"@) + render(*c, level + 1),
        Expr::Binary(op, l, r) => line(level, op_name(op)) + line(level + 1, "Left"@) + render(
            *l,
            level + 2,
        ) + line(level + 1, "Right"@) + render(*r, level + 2),
        Expr::Call(t, args) => line(level, "CallExpression"@) + render(*t, level + 1)
            + render_list(args, level + 1),
        Expr::Grouped(es) => line(level, "GroupedStatement"@) + render_list(es, level + 1),
        Expr::Let(n, c) => line(level, "LetStatement ("@ + n + ")"@) + render(*c, level + 1),
        Expr::Assign(n, c) => line(level, "AssignStatement ("@ + n + ")"@) + render(*c, level + 1),
        Expr::Fun(n, ps, b) => line(
            level,
            "FunStatement "@ + n + "("@ + decimal(ps.len() as int) + " args)"@,
        ) + render(*b, level + 1),
        Expr::AnonFun(ps, b) => line(
            level,
            "AnonFunction _("@ + decimal(ps.len() as int) + " args)"@,
        ) + render(*b, level + 1),
        Expr::Return(c) => line(level, "ReturnStatement"@) + render(*c, level + 1),
        Expr::If(c, b) => line(level, "IfStatement"@) + render(*c, level + 1) + render(
            *b,
            level + 1,
        ),
        Expr::Native(_) => line(level, "NativeFunction"@),
    }
}

pub open spec fn render_list(es: Seq<Expr>, level: nat) -> Seq<char>
    decreases es, 0nat,
{
    if es.len() == 0 {
        Seq::empty()
    } else {
        proof {
            assert(decreases_to!(es => es.drop_last()));
        }
        render_list(es.drop_last(), level) + render(es.last(), level)
    }
}

pub open spec fn joined(parts: Seq<&str>, n: int) -> Seq<char>
    decreases n,
{
    if n <= 0 {
        Seq::empty()
    } else {
        joined(parts, n - 1) + parts[n - 1]@
    }
}

/// `indent` with one more dash.
fn deeper(indent: &Vec<char>) -> (r: Vec<char>)
    requires
        indent@ == dashes(indent@.len()),
    ensures
        r@ == dashes(r@.len()),
        r@.len() == indent@.len() + 1,
{
    let mut r: Vec<char> = Vec::new();
    let mut i: usize = 0;
    while i < indent.len()
        invariant
            i <= indent@.len(),
            indent@ == dashes(indent@.len()),
            r@ == dashes(i as nat),
        decreases indent@.len() - i,
    {
        proof {
            lemma_dashes_index(indent@.len(), i as int);
        }
        r.push(indent[i]);
        i = i + 1;
    }
    r.push('-');
    r
}

proof fn lemma_dashes_index(n: nat, i: int)
    requires
        0 <= i < n,
    ensures
        dashes(n)[i] == '-',
        dashes(n).len() == n,
    decreases n,
{
    lemma_dashes_len(n);
    if i < n - 1 {
        lemma_dashes_index((n - 1) as nat, i);
    }
}

proof fn lemma_dashes_len(n: nat)
    ensures
        dashes(n).len() == n,
    decreases n,
{
    if n > 0 {
        lemma_dashes_len((n - 1) as nat);
    }
}

fn push_line(out: &mut String, indent: &Vec<char>, parts: &[&str])
    ensures
        final(out)@ == old(out)@ + indent@ + " "@ + joined(parts@, parts@.len() as int) + "\n"@,
{
    let d = string_of(indent);
    let ghost before = out@;
    out.append(d.as_str());
    out.append(" ");
    let ghost after_head = out@;
    let mut i: usize = 0;
    while i < parts.len()
        invariant
            i <= parts@.len(),
            after_head == before + indent@ + " "@,
            out@ == after_head + joined(parts@, i as int),
        decreases parts@.len() - i,
    {
        let ghost at = out@;
        out.append(parts[i]);
        proof {
            assert(at + parts@[i as int]@ =~= after_head + joined(parts@, i + 1));
        }
        i = i + 1;
    }
    out.append("\n");
}

proof fn lemma_exprs_prefix(v: Seq<Expression>, i: int)
    requires
        0 <= i < v.len(),
    ensures
        exprs_model(v.subrange(0, i + 1)) == exprs_model(v.subrange(0, i)).push(expr_model(v[i])),
{
    let p = v.subrange(0, i + 1);
    assert(p.drop_last() =~= v.subrange(0, i));
}

fn write_list(
    es: &Vec<Expression>,
    indent: &Vec<char>,
    out: &mut String,
    Ghost(parent): Ghost<Expression>,
)
    requires
        indent@ == dashes(indent@.len()),
        forall|i: int| 0 <= i < es@.len() ==> decreases_to!(parent => #[trigger] es@[i]),
    ensures
        final(out)@ == old(out)@ + render_list(exprs_model(es@), indent@.len()),
    decreases parent, 0nat,
{
    let mut i: usize = 0;
    proof {
        assert(es@.subrange(0, 0) =~= Seq::<Expression>::empty());
        assert(old(out)@ + Seq::<char>::empty() =~= old(out)@);
    }
    #[verifier::loop_isolation(false)]
    while i < es.len()
        invariant
            i <= es@.len(),
            out@ == old(out)@ + render_list(exprs_model(es@.subrange(0, i as int)), indent@.len()),
        decreases es@.len() - i,
    {
        let ghost before = out@;
        proof {
            assert(decreases_to!(parent => es@[i as int]));
        }
        write_tree(&es[i], indent, out);
        proof {
            lemma_exprs_prefix(es@, i as int);
            let m = exprs_model(es@.subrange(0, i + 1));
            assert(m.drop_last() =~= exprs_model(es@.subrange(0, i as int)));
            assert(m.last() == expr_model(es@[i as int]));
            assert(before + render(expr_model(es@[i as int]), indent@.len()) =~= old(out)@
                + render_list(m, indent@.len()));
        }
        i = i + 1;
    }
    proof {
        assert(es@.subrange(0, es@.len() as int) =~= es@);
    }
}

fn write_binary(
    name: &str,
    left: &Expression,
    right: &Expression,
    indent: &Vec<char>,
    out: &mut String,
    Ghost(parent): Ghost<Expression>,
)
    requires
        indent@ == dashes(indent@.len()),
        decreases_to!(parent => *left),
        decreases_to!(parent => *right),
    ensures
        final(out)@ == old(out)@ + line(indent@.len(), name@) + line(indent@.len() + 1, "Left"@)
            + render(expr_model(*left), indent@.len() + 2) + line(indent@.len() + 1, "Right"@)
            + render(expr_model(*right), indent@.len() + 2),
    decreases parent, 0nat,
{
    let ghost start = out@;
    let ghost n = indent@.len();
    push_line(out, indent, &[name]);
    let one = deeper(indent);
    let two = deeper(&one);
    push_line(out, &one, &["Left"]);
    write_tree(left, &two, out);
    push_line(out, &one, &["Right"]);
    write_tree(right, &two, out);
    proof {
        reveal_with_fuel(joined, 2);
        assert(start + line(n, name@) + line(n + 1, "Left"@) + render(expr_model(*left), n + 2)
            + line(n + 1, "Right"@) + render(expr_model(*right), n + 2) =~= out@);
    }
}

fn write_unary(
    parts: &[&str],
    child: &Expression,
    indent: &Vec<char>,
    out: &mut String,
    Ghost(parent): Ghost<Expression>,
)
    requires
        indent@ == dashes(indent@.len()),
        decreases_to!(parent => *child),
    ensures
        final(out)@ == old(out)@ + line(indent@.len(), joined(parts@, parts@.len() as int))
            + render(expr_model(*child), indent@.len() + 1),
    decreases parent, 0nat,
{
    push_line(out, indent, parts);
    let one = deeper(indent);
    write_tree(child, &one, out);
    proof {
        let n = indent@.len();
        assert(old(out)@ + indent@ + " "@ + joined(parts@, parts@.len() as int) + "\n"@ + render(
            expr_model(*child),
            n + 1,
        ) =~= old(out)@ + line(n, joined(parts@, parts@.len() as int)) + render(
            expr_model(*child),
            n + 1,
        ));
    }
}

#[verifier::rlimit(80)]
fn write_tree(e: &Expression, indent: &Vec<char>, out: &mut String)
    requires
        indent@ == dashes(indent@.len()),
    ensures
        final(out)@ == old(out)@ + render(expr_model(*e), indent@.len()),
    decreases *e, 1nat,
{
    let ghost start = out@;
    let ghost n = indent@.len();
    match e {
        Expression::Integer(x) => {
            let d = decimal_string(x.value);
            push_line(out, indent, &["Integer(", d.as_str(), ")"]);
            proof {
                reveal_with_fuel(joined, 4);
                assert(out@ =~= start + render(expr_model(*e), n));
            }
        },
        Expression::Str(x) => {
            push_line(out, indent, &["String(", x.value.as_str(), ")"]);
            proof {
                reveal_with_fuel(joined, 4);
                assert(out@ =~= start + render(expr_model(*e), n));
            }
        },
        Expression::Boolean(x) => {
            if x.value {
                push_line(out, indent, &["Boolean(true)"]);
            } else {
                push_line(out, indent, &["Boolean(false)"]);
            }
            proof {
                reveal_with_fuel(joined, 2);
                assert(out@ =~= start + render(expr_model(*e), n));
            }
        },
        Expression::Null(_) => {
            push_line(out, indent, &["Null"]);
            proof {
                reveal_with_fuel(joined, 2);
                assert(out@ =~= start + render(expr_model(*e), n));
            }
        },
        Expression::Identifier(x) => {
            push_line(out, indent, &["Identifier(", x.name.as_str(), ")"]);
            proof {
                reveal_with_fuel(joined, 4);
                assert(out@ =~= start + render(expr_model(*e), n));
            }
        },
        Expression::PrefixMinus(x) => {
            write_unary(&["PrefixMinusExpression"], &*x.expression, indent, out, Ghost(*e));
            proof {
                reveal_with_fuel(joined, 2);
            }
        },
        Expression::Plus(x) => {
            write_binary("PlusExpression", &*x.left, &*x.right, indent, out, Ghost(*e));
        },
        Expression::Minus(x) => {
            write_binary("MinusExpression", &*x.left, &*x.right, indent, out, Ghost(*e));
        },
        Expression::Multiplication(x) => {
            write_binary("MultiplicationExpression", &*x.left, &*x.right, indent, out, Ghost(*e));
        },
        Expression::Division(x) => {
            write_binary("DivisionExpression", &*x.left, &*x.right, indent, out, Ghost(*e));
        },
        Expression::Equals(x) => {
            if x.negate {
                write_binary("NotEqualsExpression", &*x.left, &*x.right, indent, out, Ghost(*e));
            } else {
                write_binary("EqualsExpression", &*x.left, &*x.right, indent, out, Ghost(*e));
            }
        },
        Expression::Call(x) => {
            push_line(out, indent, &["CallExpression"]);
            let ghost head = out@;
            let one = deeper(indent);
            write_tree(&*x.target, &one, out);
            let ghost mid = out@;
            proof {
                assert forall|i: int| 0 <= i < x.args@.len() implies decreases_to!(
                    *e => #[trigger] x.args@[i]
                ) by {
                    assert(decreases_to!(*e => *x));
                    assert(decreases_to!(*x => x.args));
                    assert(decreases_to!(x.args => x.args[i]));
                }
            }
            write_list(&x.args, &one, out, Ghost(*e));
            proof {
                reveal_with_fuel(joined, 2);
                assert(out@ =~= start + render(expr_model(*e), n));
            }
        },
        Expression::Grouped(x) => {
            push_line(out, indent, &["GroupedStatement"]);
            let one = deeper(indent);
            proof {
                assert forall|i: int| 0 <= i < x.expressions@.len() implies decreases_to!(
                    *e => #[trigger] x.expressions@[i]
                ) by {
                    assert(decreases_to!(*e => *x));
                    assert(decreases_to!(*x => x.expressions));
                    assert(decreases_to!(x.expressions => x.expressions[i]));
                }
            }
            write_list(&x.expressions, &one, out, Ghost(*e));
            proof {
                reveal_with_fuel(joined, 2);
                assert(out@ =~= start + render(expr_model(*e), n));
            }
        },
        Expression::Let(x) => {
            write_unary(&["LetStatement (", x.identifier.as_str(), ")"], &*x.expression, indent, out, Ghost(*e));
            proof {
                reveal_with_fuel(joined, 4);
            }
        },
        Expression::Assign(x) => {
            write_unary(&["AssignStatement (", x.identifier.as_str(), ")"], &*x.expression, indent, out, Ghost(*e));
            proof {
                reveal_with_fuel(joined, 4);
            }
        },
        Expression::Fun(x) => {
            let count = count_string(x.args.len());
            write_unary(&["FunStatement ", x.identifier.as_str(), "(", count.as_str(), " args)"], &*x.expression, indent, out, Ghost(*e));
            proof {
                reveal_with_fuel(joined, 6);
                assert(out@ =~= start + render(expr_model(*e), n));
            }
        },
        Expression::AnonFun(x) => {
            let count = count_string(x.args.len());
            write_unary(&["AnonFunction _(", count.as_str(), " args)"], &*x.expression, indent, out, Ghost(*e));
            proof {
                reveal_with_fuel(joined, 4);
                assert(out@ =~= start + render(expr_model(*e), n));
            }
        },
        Expression::Return(x) => {
            write_unary(&["ReturnStatement"], &*x.expression, indent, out, Ghost(*e));
            proof {
                reveal_with_fuel(joined, 2);
            }
        },
        Expression::If(x) => {
            write_unary(&["IfStatement"], &*x.condition, indent, out, Ghost(*e));
            let one = deeper(indent);
            write_tree(&*x.branch, &one, out);
            proof {
                reveal_with_fuel(joined, 2);
                assert(out@ =~= start + render(expr_model(*e), n));
            }
        },
        Expression::Native(_) => {
            push_line(out, indent, &["NativeFunction"]);
            proof {
                reveal_with_fuel(joined, 2);
                assert(out@ =~= start + render(expr_model(*e), n));
            }
        },
    }
}

impl Expression {
    /// The tree of the expression as text, starting at depth `level`.
    pub fn visualize(&self, level: usize) -> (r: String)
        ensures
            r@ == render(expr_model(*self), level as nat),
    {
        let mut indent: Vec<char> = Vec::new();
        let mut i: usize = 0;
        while i < level
            invariant
                i <= level,
                indent@ == dashes(i as nat),
            decreases level - i,
        {
            indent.push('-');
            i = i + 1;
        }
        proof {
            lemma_dashes_len(level as nat);
        }
        let mut out = String::new();
        write_tree(self, &indent, &mut out);
        proof {
            assert(Seq::<char>::empty() + render(expr_model(*self), level as nat) =~= render(
                expr_model(*self),
                level as nat,
            ));
        }
        out
    }
}

} // verus!
