use vstd::prelude::*;
use crate::ast::{Expression, Function, IdentifierExpression, NativeFunction, Val, Value};
use crate::scope::Scope;

verus! {

/// A name and the value that the standard library binds to it.
pub struct NameAndValue {
    pub name: String,
    pub value: Value,
}

/// The host function `name(a)` that runs `k`.
pub open spec fn is_native(v: Val, k: NativeFunction) -> bool {
    &&& v is Function
    &&& v->Function_0.args@.len() == 1
    &&& v->Function_0.args@[0].name@ == "a"@
    &&& *v->Function_0.expression == Expression::Native(k)
    &&& v->Function_0.scope is None
}

fn native(k: NativeFunction) -> (r: Value)
    ensures
        is_native(r@, k),
{
    let mut args: Vec<IdentifierExpression> = Vec::new();
    args.push(IdentifierExpression::new(String::from_str("a")));
    Function::rc(args, Expression::Native(k))
}

/// `print` and `println`: each writes its one argument; `println` adds a
/// newline.
pub fn io_functions() -> (r: Vec<NameAndValue>)
    ensures
        r@.len() == 2,
        r@[0].name@ == "print"@,
        is_native(r@[0].value@, NativeFunction::Print),
        r@[1].name@ == "println"@,
        is_native(r@[1].value@, NativeFunction::PrintLine),
{
    let mut r: Vec<NameAndValue> = Vec::new();
    r.push(NameAndValue { name: String::from_str("print"), value: native(NativeFunction::Print) });
    r.push(
        NameAndValue {
            name: String::from_str("println"),
            value: native(NativeFunction::PrintLine),
        },
    );
    r
}

/// Binds the standard library in the current frame of `scope`.
pub fn prepare_scope(scope: &mut Scope)
    requires
        old(scope).wf(),
    ensures
        final(scope).wf(),
        exists|p: Val, q: Val|
            is_native(p, NativeFunction::Print) && is_native(q, NativeFunction::PrintLine)
                && final(scope)@ == old(scope)@.store("print"@, p).store("println"@, q),
{
    let fs = io_functions();
    let mut i: usize = 0;
    let ghost start = scope@;
    #[verifier::loop_isolation(false)]
    while i < fs.len()
        invariant
            scope.wf(),
            i <= 2,
            i == 0 ==> scope@ == start,
            i >= 1 ==> scope@.frames.len() == start.frames.len(),
            i == 1 ==> scope@ == start.store("print"@, fs@[0].value@),
            i == 2 ==> scope@ == start.store("print"@, fs@[0].value@).store(
                "println"@,
                fs@[1].value@,
            ),
        decreases fs@.len() - i,
    {
        let f = &fs[i];
        scope.store(f.name.clone(), f.value.copy());
        i = i + 1;
    }
}

} // verus!
