use vstd::prelude::*;
use crate::ast::{Expression, Val, display_of};
use crate::eval::evaluate;
use crate::lexer::{LexErrorModel, Lexer, lex};
use crate::parser::{Parser, exprs_model, parse_all};
use crate::scope::{Scope, ScopeModel};
use crate::text::{count_string, decimal};

verus! {

/// The line shown for a top-level result: nothing for `Void`.
pub open spec fn result_text(r: Result<Val, Seq<char>>) -> Seq<char> {
    match r {
        Ok(Val::Void) => Seq::empty(),
        Ok(v) => display_of(v) + "\n"@,
        Err(m) => "Evaluation Error: "@ + m + "\n"@,
    }
}

pub open spec fn lexing_error_text(e: LexErrorModel) -> Seq<char> {
    "LexingError: "@ + e.msg + " @ ["@ + decimal(e.location.line as int) + ":"@ + decimal(
        e.location.column as int,
    ) + "]\n"@
}

pub open spec fn parsing_error_text(m: Seq<char>) -> Seq<char> {
    "Parsing Error: "@ + m + "\n"@
}

/// Runs the top-level expressions from index `i` on, each after the one
/// before. What each writes comes first, then its result line; `failed`
/// records whether any of them ended in an error.
pub open spec fn run_from(
    es: Seq<Expression>,
    i: int,
    st: ScopeModel,
    out: Seq<char>,
    failed: bool,
) -> (ScopeModel, Seq<char>, bool)
    decreases es.len() - i,
{
    if i < 0 || i >= es.len() {
        (st, out, failed)
    } else {
        let (s1, r) = evaluate(es[i], st);
        run_from(
            es,
            i + 1,
            ScopeModel { output: Seq::empty(), ..s1 },
            out + s1.output + result_text(r),
            failed || r is Err,
        )
    }
}

/// What running a source text gives the host: the text to show, and whether
/// lexing, parsing or any evaluation failed.
pub struct SessionOutput {
    pub text: String,
    pub failed: bool,
}

fn append_all(out: &mut String, parts: &Vec<String>)
    ensures
        final(out)@ == old(out)@ + concat_all(parts@, parts@.len() as int),
{
    let mut i: usize = 0;
    while i < parts.len()
        invariant
            i <= parts@.len(),
            out@ == old(out)@ + concat_all(parts@, i as int),
        decreases parts@.len() - i,
    {
        out.append(parts[i].as_str());
        proof {
            assert(old(out)@ + concat_all(parts@, i as int) + parts@[i as int]@ =~= old(out)@
                + concat_all(parts@, i + 1));
        }
        i = i + 1;
    }
}

pub open spec fn concat_all(parts: Seq<String>, n: int) -> Seq<char>
    decreases n,
{
    if n <= 0 {
        Seq::empty()
    } else {
        concat_all(parts, n - 1) + parts[n - 1]@
    }
}

fn join(parts: Vec<String>) -> (r: String)
    ensures
        r@ == concat_all(parts@, parts@.len() as int),
{
    let mut r = String::new();
    append_all(&mut r, &parts);
    r
}

fn result_line(r: &Result<crate::ast::Value, crate::ast::EvaluationError>) -> (s: String)
    ensures
        s@ == result_text(crate::eval::value_result_view(*r)),
{
    match r {
        Ok(crate::ast::Value::Void) => String::new(),
        Ok(v) => {
            let mut parts: Vec<String> = Vec::new();
            parts.push(v.display());
            parts.push(String::from_str("\n"));
            let s = join(parts);
            proof {
                reveal_with_fuel(concat_all, 3);
            }
            s
        },
        Err(e) => {
            let mut parts: Vec<String> = Vec::new();
            parts.push(String::from_str("Evaluation Error: "));
            parts.push(e.msg.clone());
            parts.push(String::from_str("\n"));
            let s = join(parts);
            proof {
                reveal_with_fuel(concat_all, 4);
            }
            s
        },
    }
}

/// Lexes, parses and evaluates a source text in `scope`, and returns the
/// text to show: what the program writes, the value of each top-level
/// expression that is not `Void`, and the first lexing or parsing error.
pub fn eval_source(input: &str, scope: &mut Scope) -> (r: SessionOutput)
    requires
        old(scope).wf(),
        input@.len() + 3 < u32::MAX,
    ensures
        final(scope).wf(),
        match lex(input@) {
            Err(e) => r.text@ == lexing_error_text(e) && r.failed && final(scope)@ == old(scope)@,
            Ok(ts) => match parse_all(ts, 0, Seq::empty()) {
                Err(m) => r.text@ == parsing_error_text(m) && r.failed && final(scope)@ == old(
                    scope,
                )@,
                Ok(models) => exists|es: Seq<Expression>|
                    exprs_model(es) == models && (final(scope)@, r.text@, r.failed) == run_from(
                        es,
                        0,
                        old(scope)@,
                        Seq::empty(),
                        false,
                    ),
            },
        },
{
    let lexer = match Lexer::new(input) {
        Ok(l) => l,
        Err(e) => {
            let mut parts: Vec<String> = Vec::new();
            parts.push(String::from_str("LexingError: "));
            parts.push(e.msg);
            parts.push(String::from_str(" @ ["));
            parts.push(count_string(e.location.line as usize));
            parts.push(String::from_str(":"));
            parts.push(count_string(e.location.column as usize));
            parts.push(String::from_str("]\n"));
            let s = join(parts);
            proof {
                reveal_with_fuel(concat_all, 8);
            }
            return SessionOutput { text: s, failed: true };
        },
    };
    let mut parser = Parser::new(lexer);
    let things = match parser.parse() {
        Ok(t) => t,
        Err(e) => {
            let mut parts: Vec<String> = Vec::new();
            parts.push(String::from_str("Parsing Error: "));
            parts.push(e.msg);
            parts.push(String::from_str("\n"));
            let s = join(parts);
            proof {
                reveal_with_fuel(concat_all, 4);
            }
            return SessionOutput { text: s, failed: true };
        },
    };
    let ghost es = things@;
    let ghost start = scope@;
    let mut out = String::new();
    let mut failed = false;
    let mut i: usize = 0;
    #[verifier::loop_isolation(false)]
    while i < things.len()
        invariant
            scope.wf(),
            i <= es.len(),
            es == things@,
            run_from(es, 0, start, Seq::empty(), false) == run_from(
                es,
                i as int,
                scope@,
                out@,
                failed,
            ),
        decreases es.len() - i,
    {
        let r = things[i].evaluate(scope);
        let written = scope.take_output();
        out.append(written.as_str());
        let line = result_line(&r);
        out.append(line.as_str());
        failed = failed || r.is_err();
        i = i + 1;
    }
    SessionOutput { text: out, failed }
}

} // verus!
