use vstd::prelude::*;
use crate::ast::{Expression, IntegerExpression, MultiplicationExpression, PlusExpression, PrefixMinusExpression, Val};
use crate::eval::{evaluate, overflow_msg};
use crate::scope::ScopeModel;
use crate::lexer::{
    LexErrorModel, LexModel, LexingState, all_digits, counters_step, delimiting, digits_value,
    emit_step, fill_step, initial_state, integer_literal, is_digit_char, is_whitespace_char, lex,
    lex_prefix, peek_at, punctuation, push_step, reserved_word, float_literal, fraction_ok,
};
use crate::tokens::{Kind, SourceRef, TokenModel};

verus! {

pub open spec fn int_lit(a: i32) -> Expression {
    Expression::Integer(IntegerExpression { value: a })
}

/// The result of an integer operation: the value when it fits in `i32`,
/// otherwise an overflow error.
pub open spec fn int_outcome(x: int) -> Result<Val, Seq<char>> {
    if i32::MIN <= x <= i32::MAX {
        Ok(Val::Integer(x as i32))
    } else {
        Err(overflow_msg())
    }
}

/// `a + b` on two integer literals evaluates to the integer `a + b` when the
/// sum fits, in any scope, and leaves the scope as it was.
pub proof fn lemma_sum_of_literals(a: i32, b: i32, st: ScopeModel)
    ensures
        evaluate(
            Expression::Plus(PlusExpression { left: Box::new(int_lit(a)), right: Box::new(int_lit(b)) }),
            st,
        ) == (st, int_outcome(a + b)),
{
    reveal_with_fuel(crate::eval::eval, 3);
}

/// `a * b` on two integer literals evaluates to the integer `a * b` when the
/// product fits, in any scope, and leaves the scope as it was.
pub proof fn lemma_product_of_literals(a: i32, b: i32, st: ScopeModel)
    ensures
        evaluate(
            Expression::Multiplication(
                MultiplicationExpression { left: Box::new(int_lit(a)), right: Box::new(int_lit(b)) },
            ),
            st,
        ) == (st, int_outcome(a * b)),
{
    reveal_with_fuel(crate::eval::eval, 3);
}

/// `-(a)` on an integer literal evaluates to `-a` for every `a` but the
/// smallest `i32`.
pub proof fn lemma_negation_of_literal(a: i32, st: ScopeModel)
    requires
        a != i32::MIN,
    ensures
        evaluate(
            Expression::PrefixMinus(PrefixMinusExpression { expression: Box::new(int_lit(a)) }),
            st,
        ) == (st, Ok::<Val, Seq<char>>(Val::Integer((-a) as i32))),
{
    reveal_with_fuel(crate::eval::eval, 3);
}

/// A word: it does not start with a digit, a quote or a brace, and holds no
/// delimiting character. It lexes as one reserved word or identifier.
pub open spec fn word_text(s: Seq<char>) -> bool {
    &&& s.len() > 0
    &&& !is_digit_char(s[0]) && s[0] != '"' && s[0] != '{' && s[0] != '}'
    &&& forall|i: int| 0 <= i < s.len() ==> !delimiting(#[trigger] s[i])
}

/// The kind of token a word makes.
pub open spec fn word_kind(s: Seq<char>) -> Kind {
    match reserved_word(s) {
        Some(k) => k,
        None => Kind::Identifier(s),
    }
}

pub open spec fn first_token(kind: Kind) -> TokenModel {
    TokenModel { kind, source_ref: SourceRef { line: 1, column: 0 } }
}

spec fn reading_state(s: Seq<char>, k: int, mode: LexingState) -> LexModel {
    LexModel {
        buffer: s.subrange(0, k),
        mode,
        line: 1,
        column: k as u32,
        marker: 0,
        escape: false,
    }
}

/// Only these first characters can begin a punctuation token.
proof fn lemma_punctuation_start(p: Seq<char>)
    requires
        punctuation(p) is Some,
    ensures
        delimiting(p[0]) || p[0] == '{' || p[0] == '}' || (p.len() == 2 && p[1] == '='),
{
    reveal_strlit("(");
    reveal_strlit(")");
    reveal_strlit("{");
    reveal_strlit("}");
    reveal_strlit(",");
    reveal_strlit(".");
    reveal_strlit("+");
    reveal_strlit("/");
    reveal_strlit("*");
    reveal_strlit(";");
    reveal_strlit("->");
    reveal_strlit("==");
    reveal_strlit("!=");
}

proof fn lemma_word_prefix(s: Seq<char>, k: nat)
    requires
        word_text(s),
        k < s.len(),
        s.len() + 3 < u32::MAX,
    ensures
        lex_prefix(s, k) == (
            reading_state(s, k as int, LexingState::Normal),
            Ok::<Seq<TokenModel>, LexErrorModel>(Seq::empty()),
        ),
    decreases k,
{
    reveal_strlit("-");
    reveal_strlit("=");
    reveal_strlit("!");
    if k == 0 {
        assert(s.subrange(0, 0) =~= Seq::<char>::empty());
    } else {
        let j = k - 1;
        lemma_word_prefix(s, j as nat);
        let st = reading_state(s, j, LexingState::Normal);
        let c = s[j];
        let p = s.subrange(0, k as int);
        assert(s.subrange(0, j).push(c) =~= p);
        assert(!delimiting(c));
        assert(!delimiting(s[k as int]));
        assert(peek_at(s, k as int) == Some(s[k as int]));
        assert(p[0] == s[0]);
        if punctuation(p) is Some {
            lemma_punctuation_start(p);
            if p.len() == 2 {
                assert(p[1] == s[1]);
            }
        }
        assert(push_step(st, c, Some(s[k as int])).1 == Ok::<Option<TokenModel>, LexErrorModel>(None));
        assert(push_step(st, c, Some(s[k as int])).0 == reading_state(s, k as int, LexingState::Normal));
    }
}

/// A word lexes to exactly one token: its reserved word, or an identifier
/// holding the word, at line 1, column 0.
pub proof fn lemma_word_lexes_alone(s: Seq<char>)
    requires
        word_text(s),
        s.len() + 3 < u32::MAX,
    ensures
        lex(s) == Ok::<Seq<TokenModel>, LexErrorModel>(seq![first_token(word_kind(s))]),
{
    reveal_strlit("-");
    reveal_strlit("=");
    reveal_strlit("!");
    let n = s.len();
    let j = n - 1;
    lemma_word_prefix(s, j as nat);
    let st = reading_state(s, j, LexingState::Normal);
    let c = s[j];
    assert(s.subrange(0, j).push(c) =~= s);
    assert(!delimiting(c));
    assert(peek_at(s, n as int) == None::<char>);
    if punctuation(s) is Some {
        lemma_punctuation_start(s);
        if s.len() == 2 {
            assert(!delimiting(s[1]));
        }
    }
    assert(Seq::<TokenModel>::empty().push(first_token(word_kind(s))) =~= seq![first_token(word_kind(s))]);
}

proof fn lemma_numeral_prefix(s: Seq<char>, k: nat)
    requires
        s.len() > 0,
        all_digits(s),
        k < s.len(),
        s.len() + 3 < u32::MAX,
    ensures
        lex_prefix(s, k) == (
            reading_state(
                s,
                k as int,
                if k == 0 {
                    LexingState::Normal
                } else {
                    LexingState::Integer
                },
            ),
            Ok::<Seq<TokenModel>, LexErrorModel>(Seq::empty()),
        ),
    decreases k,
{
    if k == 0 {
        assert(s.subrange(0, 0) =~= Seq::<char>::empty());
    } else {
        let j = k - 1;
        lemma_numeral_prefix(s, j as nat);
        assert(s.subrange(0, j).push(s[j]) =~= s.subrange(0, k as int));
        assert(is_digit_char(s[j]));
        assert(is_digit_char(s[k as int]));
        assert(peek_at(s, k as int) == Some(s[k as int]));
    }
}

/// A decimal numeral whose value fits in `i32` lexes to exactly one integer
/// token with that value, at line 1, column 0.
pub proof fn lemma_numeral_lexes_alone(s: Seq<char>)
    requires
        s.len() > 0,
        all_digits(s),
        digits_value(s) <= i32::MAX,
        s.len() + 3 < u32::MAX,
    ensures
        lex(s) == Ok::<Seq<TokenModel>, LexErrorModel>(
            seq![first_token(Kind::Integer(digits_value(s) as i32))],
        ),
{
    let n = s.len();
    let j = n - 1;
    lemma_numeral_prefix(s, j as nat);
    assert(s.subrange(0, j).push(s[j]) =~= s);
    assert(is_digit_char(s[j]));
    assert(peek_at(s, n as int) == None::<char>);
    assert(integer_literal(s) == Some(digits_value(s) as i32));
    assert(Seq::<TokenModel>::empty().push(first_token(Kind::Integer(digits_value(s) as i32)))
        =~= seq![first_token(Kind::Integer(digits_value(s) as i32))]);
}

/// The punctuation and operator characters that make a token on their own.
pub open spec fn single_char_kind(c: char) -> Option<Kind> {
    if c == '-' {
        Some(Kind::Minus)
    } else if c == '=' {
        Some(Kind::Assign)
    } else {
        punctuation(seq![c])
    }
}

/// A punctuation or operator character alone lexes to exactly one token of
/// its kind, at line 1, column 0.
pub proof fn lemma_single_char_lexes_alone(c: char)
    requires
        single_char_kind(c) is Some,
    ensures
        lex(seq![c]) == Ok::<Seq<TokenModel>, LexErrorModel>(
            seq![first_token(single_char_kind(c)->0)],
        ),
{
    reveal_strlit("-");
    reveal_strlit("=");
    reveal_strlit("!");
    reveal_strlit("let");
    reveal_strlit("const");
    reveal_strlit("fun");
    reveal_strlit("return");
    reveal_strlit("if");
    reveal_strlit("true");
    reveal_strlit("false");
    reveal_strlit("null");
    reveal_strlit("(");
    reveal_strlit(")");
    reveal_strlit("{");
    reveal_strlit("}");
    reveal_strlit(",");
    reveal_strlit(".");
    reveal_strlit("+");
    reveal_strlit("/");
    reveal_strlit("*");
    reveal_strlit(";");
    reveal_strlit("->");
    reveal_strlit("==");
    reveal_strlit("!=");
    let s = seq![c];
    reveal_with_fuel(lex_prefix, 2);
    assert(s.subrange(0, 0) =~= Seq::<char>::empty());
    assert(Seq::<char>::empty().push(c) =~= s);
    if punctuation(s) is Some {
        lemma_punctuation_start(s);
    }
    assert(reserved_word(s) is None);
    assert(peek_at(s, 1) == None::<char>);
    assert(s[0] == c);
    assert(!is_whitespace_char(c));
    assert(c != '"');
    assert(!is_digit_char(c));
    let st0 = initial_state();
    let s1 = counters_step(st0, c).0;
    assert(!counters_step(st0, c).1);
    let s2 = fill_step(s1, c, None).0;
    assert(!fill_step(s1, c, None).1);
    assert(s2.buffer =~= s);
    assert(s2.mode == LexingState::Normal);
    assert(s2.line == 1 && s2.marker == 0);
    if c == '-' {
        assert(punctuation(s) is None);
        assert(s2.buffer == "-"@);
    } else if c == '=' {
        assert(punctuation(s) is None);
        assert(s2.buffer == "="@);
    } else {
        assert(punctuation(s2.buffer) is Some);
    }
    let kind = single_char_kind(c)->0;
    assert(emit_step(s2, c, None).1 == Ok::<Option<TokenModel>, LexErrorModel>(
        Some(first_token(kind)),
    ));
    assert(lex_prefix(s, 1).1 == Ok::<Seq<TokenModel>, LexErrorModel>(seq![first_token(kind)]));
    assert(Seq::<TokenModel>::empty().push(first_token(single_char_kind(c)->0)) =~= seq![
        first_token(single_char_kind(c)->0),
    ]);
}

/// `->`, `==` and `!=` each lex to exactly one token of their kind, at line
/// 1, column 0.
pub proof fn lemma_two_char_operator_lexes_alone(s: Seq<char>)
    requires
        s == "->"@ || s == "=="@ || s == "!="@,
    ensures
        lex(s) == Ok::<Seq<TokenModel>, LexErrorModel>(
            seq![first_token(punctuation(s)->0)],
        ),
{
    reveal_strlit("-");
    reveal_strlit("=");
    reveal_strlit("!");
    reveal_strlit("let");
    reveal_strlit("const");
    reveal_strlit("fun");
    reveal_strlit("return");
    reveal_strlit("if");
    reveal_strlit("true");
    reveal_strlit("false");
    reveal_strlit("null");
    reveal_strlit("(");
    reveal_strlit(")");
    reveal_strlit("{");
    reveal_strlit("}");
    reveal_strlit(",");
    reveal_strlit(".");
    reveal_strlit("+");
    reveal_strlit("/");
    reveal_strlit("*");
    reveal_strlit(";");
    reveal_strlit("->");
    reveal_strlit("==");
    reveal_strlit("!=");
    reveal_with_fuel(lex_prefix, 3);
    let c0 = s[0];
    let c1 = s[1];
    let st0 = initial_state();
    let first = push_step(st0, c0, Some(c1));
    assert(seq![c0] == Seq::<char>::empty().push(c0));
    assert(punctuation(seq![c0]) is None);
    assert(reserved_word(seq![c0]) is None);
    let s1 = counters_step(st0, c0).0;
    let s2 = fill_step(s1, c0, Some(c1)).0;
    assert(!fill_step(s1, c0, Some(c1)).1);
    assert(s2.buffer =~= seq![c0]);
    if s == "->"@ {
        assert(c0 == '-' && c1 == '>');
        assert(s2.buffer == "-"@);
    } else if s == "=="@ {
        assert(c0 == '=' && c1 == '=');
        assert(s2.buffer == "="@);
    } else {
        assert(c0 == '!' && c1 == '=');
        assert(s2.buffer == "!"@);
    }
    assert(first.1 == Ok::<Option<TokenModel>, LexErrorModel>(None));
    assert(first.0.buffer == seq![c0]);
    assert(first.0.mode == LexingState::Normal);
    assert(peek_at(s, 1) == Some(c1));
    assert(peek_at(s, 2) == None::<char>);
    assert(lex_prefix(s, 1) == (first.0, Ok::<Seq<TokenModel>, LexErrorModel>(Seq::empty())));
    assert(first.0.buffer.push(c1) =~= s);
    assert(reserved_word(s) is None);
    assert(Seq::<TokenModel>::empty().push(first_token(punctuation(s)->0)) =~= seq![
        first_token(punctuation(s)->0),
    ]);
}

/// Text that a string literal holds as it is: no quote, backslash or
/// newline.
pub open spec fn plain_text(body: Seq<char>) -> bool {
    forall|i: int| 0 <= i < body.len() ==> #[trigger] body[i] != '"' && body[i] != '\\' && body[i] != '\n'
}

spec fn string_state(body: Seq<char>, k: int) -> LexModel {
    LexModel {
        buffer: body.subrange(0, k),
        mode: LexingState::Str,
        line: 1,
        column: (k + 1) as u32,
        marker: 0,
        escape: false,
    }
}

proof fn lemma_string_prefix(body: Seq<char>, k: nat)
    requires
        plain_text(body),
        k <= body.len(),
        body.len() + 5 < u32::MAX,
    ensures
        lex_prefix(seq!['"'] + body + seq!['"'], k + 1) == (
            string_state(body, k as int),
            Ok::<Seq<TokenModel>, LexErrorModel>(Seq::empty()),
        ),
    decreases k,
{
    let s = seq!['"'] + body + seq!['"'];
    assert(s[0] == '"');
    if k == 0 {
        reveal_with_fuel(lex_prefix, 2);
        assert(body.subrange(0, 0) =~= Seq::<char>::empty());
        assert(peek_at(s, 1) is Some);
    } else {
        lemma_string_prefix(body, (k - 1) as nat);
        let c = body[k - 1];
        assert(s[k as int] == c);
        assert(peek_at(s, (k + 1) as int) is Some);
        assert(body.subrange(0, k - 1).push(c) =~= body.subrange(0, k as int));
    }
}

/// A string literal with plain text lexes to exactly one string token
/// holding that text, at line 1, column 0.
pub proof fn lemma_string_lexes_alone(body: Seq<char>)
    requires
        plain_text(body),
        body.len() + 5 < u32::MAX,
    ensures
        lex(seq!['"'] + body + seq!['"']) == Ok::<Seq<TokenModel>, LexErrorModel>(
            seq![first_token(Kind::Str(body))],
        ),
{
    let s = seq!['"'] + body + seq!['"'];
    let n = body.len();
    lemma_string_prefix(body, n);
    assert(s.len() == n + 2);
    assert(s[(n + 1) as int] == '"');
    assert(peek_at(s, (n + 2) as int) == None::<char>);
    assert(body.subrange(0, n as int) =~= body);
    assert(Seq::<TokenModel>::empty().push(first_token(Kind::Str(body))) =~= seq![
        first_token(Kind::Str(body)),
    ]);
}

/// Whitespace other than a newline.
pub open spec fn blank(c: char) -> bool {
    is_whitespace_char(c) && c != '\n'
}

/// The state where a whitespace character is about to be read is never in
/// the middle of a number.
proof fn lemma_no_number_before_whitespace(s: Seq<char>, k: nat)
    requires
        k <= s.len(),
        k == 0 || (k < s.len() && is_whitespace_char(s[k as int])),
        lex_prefix(s, k).1 is Ok,
    ensures
        lex_prefix(s, k).0.mode != LexingState::Integer,
        lex_prefix(s, k).0.mode != LexingState::Float,
    decreases k,
{
    if k > 0 {
        let j = (k - 1) as nat;
        let x = s[j as int];
        assert(peek_at(s, k as int) == Some(s[k as int]));
        if x == '\n' {
            lemma_no_number_before_whitespace(s, j);
        }
    }
}

/// Two blanks look the same to the lexer when they come next.
proof fn lemma_blank_peek(st: LexModel, x: char, a: char, b: char)
    requires
        blank(a),
        blank(b),
    ensures
        push_step(st, x, Some(a)) == push_step(st, x, Some(b)),
{
}

proof fn lemma_blank_swap_prefix(s: Seq<char>, i: int, c: char, k: nat)
    requires
        0 <= i < s.len(),
        blank(s[i]),
        blank(c),
        lex_prefix(s, i as nat).0.mode != LexingState::Str,
        k <= s.len(),
    ensures
        lex_prefix(s.update(i, c), k) == lex_prefix(s, k),
    decreases k,
{
    let t = s.update(i, c);
    if k > 0 {
        let j = (k - 1) as nat;
        lemma_blank_swap_prefix(s, i, c, j);
        let st = lex_prefix(s, j).0;
        if lex_prefix(s, j).1 is Ok {
            if k as int == i {
                assert(t[j as int] == s[j as int]);
                assert(peek_at(t, k as int) == Some(c));
                assert(peek_at(s, k as int) == Some(s[i]));
                lemma_blank_peek(st, s[j as int], c, s[i]);
            } else if j as int == i {
                assert(t[i] == c);
                assert(peek_at(t, k as int) == peek_at(s, k as int));
                lemma_no_number_before_whitespace(s, j);
            } else {
                assert(t[j as int] == s[j as int]);
                assert(peek_at(t, k as int) == peek_at(s, k as int));
            }
        }
    }
}

/// Replacing one blank outside a string literal by another blank changes
/// nothing that the lexer produces: the same tokens at the same places, or
/// the same error.
pub proof fn lemma_blank_swap(s: Seq<char>, i: int, c: char)
    requires
        0 <= i < s.len(),
        blank(s[i]),
        blank(c),
        lex_prefix(s, i as nat).0.mode != LexingState::Str,
    ensures
        lex(s.update(i, c)) == lex(s),
{
    lemma_blank_swap_prefix(s, i, c, s.len());
}

spec fn decimal_mode(whole: int, k: int) -> LexingState {
    if k == 0 {
        LexingState::Normal
    } else if k < whole {
        LexingState::Integer
    } else {
        LexingState::Float
    }
}

proof fn lemma_decimal_prefix(whole: Seq<char>, frac: Seq<char>, k: nat)
    requires
        whole.len() > 0,
        all_digits(whole),
        all_digits(frac),
        k < whole.len() + 1 + frac.len(),
        whole.len() + frac.len() + 5 < u32::MAX,
    ensures
        lex_prefix(whole + seq!['.'] + frac, k) == (
            reading_state(whole + seq!['.'] + frac, k as int, decimal_mode(whole.len() as int, k as int)),
            Ok::<Seq<TokenModel>, LexErrorModel>(Seq::empty()),
        ),
    decreases k,
{
    let s = whole + seq!['.'] + frac;
    let w = whole.len() as int;
    if k == 0 {
        assert(s.subrange(0, 0) =~= Seq::<char>::empty());
    } else {
        let j = k - 1;
        lemma_decimal_prefix(whole, frac, j as nat);
        assert(s.subrange(0, j).push(s[j]) =~= s.subrange(0, k as int));
        assert(peek_at(s, k as int) == Some(s[k as int]));
        if j < w {
            assert(s[j] == whole[j]);
            assert(is_digit_char(s[j]));
        } else if j > w {
            assert(s[j] == frac[j - w - 1]);
            assert(is_digit_char(s[j]));
        } else {
            assert(s[j] == '.');
        }
        if k < w {
            assert(s[k as int] == whole[k as int]);
            assert(is_digit_char(s[k as int]));
        } else if k > w {
            assert(s[k as int] == frac[k - w - 1]);
            assert(is_digit_char(s[k as int]));
        } else {
            assert(s[k as int] == '.');
        }
    }
}

/// Digits, a point and more digits lex to exactly one float token holding
/// that text, at line 1, column 0.
pub proof fn lemma_decimal_lexes_alone(whole: Seq<char>, frac: Seq<char>)
    requires
        whole.len() > 0,
        all_digits(whole),
        all_digits(frac),
        whole.len() + frac.len() + 5 < u32::MAX,
    ensures
        lex(whole + seq!['.'] + frac) == Ok::<Seq<TokenModel>, LexErrorModel>(
            seq![first_token(Kind::Float(whole + seq!['.'] + frac))],
        ),
{
    let s = whole + seq!['.'] + frac;
    let w = whole.len() as int;
    let n = s.len() as int;
    lemma_decimal_prefix(whole, frac, (n - 1) as nat);
    assert(s.subrange(0, n - 1).push(s[n - 1]) =~= s);
    assert(peek_at(s, n) == None::<char>);
    assert(s.subrange(0, w) =~= whole);
    assert(s.subrange(w + 1, n) =~= frac);
    assert(s[w] == '.');
    assert(fraction_ok(s.subrange(w + 1, n)));
    assert(float_literal(s));
    if n - 1 > w {
        assert(s[n - 1] == frac[n - 1 - w - 1]);
    }
    assert(Seq::<TokenModel>::empty().push(first_token(Kind::Float(s))) =~= seq![
        first_token(Kind::Float(s)),
    ]);
}

} // verus!
