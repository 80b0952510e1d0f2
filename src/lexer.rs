use vstd::prelude::*;
use crate::tokens::{Kind, SourceRef, Token, TokenKind, TokenModel};
use crate::text::string_of;
use vstd::std_specs::iter::IteratorSpec;

verus! {

/// An error found while lexing, with the place of the offending token.
#[derive(Debug)]
pub struct LexingError {
    pub msg: String,
    pub location: SourceRef,
}

/// The mathematical form of a lexing error.
pub struct LexErrorModel {
    pub msg: Seq<char>,
    pub location: SourceRef,
}

impl View for LexingError {
    type V = LexErrorModel;

    open spec fn view(&self) -> LexErrorModel {
        LexErrorModel { msg: self.msg@, location: self.location }
    }
}

/// The token stream ended where a token was required.
#[derive(Debug)]
pub struct UnexpectedEOFError {}

/// The modes of the lexer's state machine.
#[derive(Debug, PartialEq, Eq, Structural, Clone, Copy)]
pub enum LexingState {
    Normal,
    Integer,
    Float,
    Str,
    LineComment,
}

/// The state of the lexer between two characters.
pub struct LexBuffer {
    buffer: Vec<char>,
    mode: LexingState,
    current_line: u32,
    current_column: u32,
    token_column_marker: u32,
    string_escape_flag: bool,
}

/// The mathematical form of the lexer's state.
pub struct LexModel {
    pub buffer: Seq<char>,
    pub mode: LexingState,
    pub line: u32,
    pub column: u32,
    pub marker: u32,
    pub escape: bool,
}

impl View for LexBuffer {
    type V = LexModel;

    closed spec fn view(&self) -> LexModel {
        LexModel {
            buffer: self.buffer@,
            mode: self.mode,
            line: self.current_line,
            column: self.current_column,
            marker: self.token_column_marker,
            escape: self.string_escape_flag,
        }
    }
}

/// What one character does to the lexer: the next state and the token it
/// completes, or an error.
pub type Step = (LexModel, Result<Option<TokenModel>, LexErrorModel>);

pub open spec fn is_whitespace_char(c: char) -> bool {
    c == ' ' || c == '\t' || c == '\n' || c == '\u{0B}' || c == '\u{0C}' || c == '\r'
        || c == '\u{85}' || c == '\u{A0}' || c == '\u{1680}' || ('\u{2000}' <= c
        && c <= '\u{200A}') || c == '\u{2028}' || c == '\u{2029}' || c == '\u{202F}'
        || c == '\u{205F}' || c == '\u{3000}'
}

pub open spec fn is_digit_char(c: char) -> bool {
    '0' <= c && c <= '9'
}

/// A character that ends the token before it.
pub open spec fn delimiting(c: char) -> bool {
    is_whitespace_char(c) || c == ';' || c == '(' || c == ')' || c == '+' || c == '-' || c
        == '*' || c == '/' || c == ',' || c == '.' || c == '='
}

/// The end of input ends a token too.
pub open spec fn delimiting_opt(c: Option<char>) -> bool {
    match c {
        Some(c) => delimiting(c),
        None => true,
    }
}

/// The value of a sequence of decimal digits.
pub open spec fn digits_value(s: Seq<char>) -> int
    decreases s.len(),
{
    if s.len() == 0 {
        0
    } else {
        digits_value(s.drop_last()) * 10 + (s.last() as int - '0' as int)
    }
}

pub open spec fn all_digits(s: Seq<char>) -> bool {
    forall|i: int| 0 <= i < s.len() ==> is_digit_char(#[trigger] s[i])
}

/// What `i32` parsing accepts of a buffer that starts with a digit.
pub open spec fn integer_literal(s: Seq<char>) -> Option<i32> {
    if s.len() > 0 && all_digits(s) && digits_value(s) <= i32::MAX {
        Some(digits_value(s) as i32)
    } else {
        None
    }
}

/// The part of a float literal after the point: digits, then optionally an
/// exponent marker and at least one digit.
pub open spec fn fraction_ok(s: Seq<char>) -> bool {
    ||| all_digits(s)
    ||| exists|k: int|
        0 <= k < s.len() - 1 && (s[k] == 'e' || s[k] == 'E') && all_digits(
            #[trigger] s.subrange(0, k),
        ) && all_digits(s.subrange(k + 1, s.len() as int))
}

/// What `f32` parsing accepts of a float buffer: digits, a point, and a
/// fraction part.
pub open spec fn float_literal(s: Seq<char>) -> bool {
    exists|k: int|
        0 < k < s.len() && s[k] == '.' && all_digits(#[trigger] s.subrange(0, k))
            && fraction_ok(s.subrange(k + 1, s.len() as int))
}

pub open spec fn reserved_word(s: Seq<char>) -> Option<Kind> {
    if s == "let"@ {
        Some(Kind::Let)
    } else if s == "const"@ {
        Some(Kind::Const)
    } else if s == "fun"@ {
        Some(Kind::Fun)
    } else if s == "return"@ {
        Some(Kind::Return)
    } else if s == "if"@ {
        Some(Kind::If)
    } else if s == "true"@ {
        Some(Kind::True)
    } else if s == "false"@ {
        Some(Kind::False)
    } else if s == "null"@ {
        Some(Kind::Null)
    } else {
        None
    }
}

/// Punctuation and operators that are complete as soon as they are read.
pub open spec fn punctuation(s: Seq<char>) -> Option<Kind> {
    if s == "("@ {
        Some(Kind::LeftParens)
    } else if s == ")"@ {
        Some(Kind::RightParens)
    } else if s == "{"@ {
        Some(Kind::LeftBrace)
    } else if s == "}"@ {
        Some(Kind::RightBrace)
    } else if s == ","@ {
        Some(Kind::Comma)
    } else if s == "."@ {
        Some(Kind::Dot)
    } else if s == "+"@ {
        Some(Kind::Plus)
    } else if s == "/"@ {
        Some(Kind::Division)
    } else if s == "*"@ {
        Some(Kind::Multiplication)
    } else if s == ";"@ {
        Some(Kind::Semicolon)
    } else if s == "->"@ {
        Some(Kind::Arrow)
    } else if s == "=="@ {
        Some(Kind::Equals)
    } else if s == "!="@ {
        Some(Kind::NotEquals)
    } else {
        None
    }
}

/// The state after a token is emitted: the buffer is empty, the mode normal
/// and the next token starts where the current column is.
pub open spec fn popped(s: LexModel) -> LexModel {
    LexModel { mode: LexingState::Normal, buffer: Seq::empty(), marker: s.column, ..s }
}

pub open spec fn token_at(s: LexModel, kind: Kind) -> TokenModel {
    TokenModel { kind, source_ref: SourceRef { line: s.line, column: s.marker } }
}

pub open spec fn pop_step(s: LexModel, kind: Kind) -> Step {
    (popped(s), Ok(Some(token_at(s, kind))))
}

pub open spec fn pop_step_if(s: LexModel, kind: Kind, cond: bool) -> Step {
    if cond {
        pop_step(s, kind)
    } else {
        (s, Ok(None))
    }
}

pub open spec fn error_step(s: LexModel, msg: Seq<char>) -> Step {
    (s, Err(LexErrorModel { msg, location: SourceRef { line: s.line, column: s.marker } }))
}

/// First phase of a character: the column advances; a newline ends a line
/// comment, starts a new line and produces nothing else (`true`: stop here).
pub open spec fn counters_step(s: LexModel, c: char) -> (LexModel, bool) {
    let s1 = LexModel { column: (s.column + 1) as u32, ..s };
    if c == '\n' {
        (
            LexModel {
                mode: if s.mode == LexingState::LineComment {
                    LexingState::Normal
                } else {
                    s.mode
                },
                line: (s.line + 1) as u32,
                column: 0,
                marker: 0,
                ..s1
            },
            true,
        )
    } else {
        (s1, false)
    }
}

/// Second phase: the character goes to the buffer or changes the mode
/// (`true`: no token can come from this character).
pub open spec fn fill_step(s: LexModel, c: char, peek: Option<char>) -> (LexModel, bool) {
    match s.mode {
        LexingState::LineComment => (s, true),
        LexingState::Normal => {
            if is_whitespace_char(c) {
                (LexModel { marker: (s.marker + 1) as u32, ..s }, true)
            } else if c == '/' && peek == Some('/') {
                (LexModel { mode: LexingState::LineComment, ..s }, true)
            } else if s.buffer.len() == 0 && is_digit_char(c) {
                if peek == Some('.') {
                    (LexModel { mode: LexingState::Float, buffer: s.buffer.push(c), ..s }, true)
                } else {
                    (LexModel { mode: LexingState::Integer, buffer: s.buffer.push(c), ..s }, false)
                }
            } else if c == '"' && s.buffer.len() == 0 {
                (LexModel { mode: LexingState::Str, ..s }, true)
            } else {
                (LexModel { buffer: s.buffer.push(c), ..s }, false)
            }
        },
        LexingState::Str => {
            if s.escape {
                (LexModel { buffer: s.buffer.push(c), escape: false, ..s }, true)
            } else if c == '\\' {
                (LexModel { escape: true, ..s }, true)
            } else if c == '"' {
                (s, false)
            } else {
                (LexModel { buffer: s.buffer.push(c), ..s }, false)
            }
        },
        LexingState::Integer => {
            if peek == Some('.') {
                (LexModel { mode: LexingState::Float, buffer: s.buffer.push(c), ..s }, true)
            } else {
                (LexModel { buffer: s.buffer.push(c), ..s }, false)
            }
        },
        LexingState::Float => (LexModel { buffer: s.buffer.push(c), ..s }, false),
    }
}

/// Third phase: emit the token that the buffer holds when it is complete.
pub open spec fn emit_step(s: LexModel, c: char, peek: Option<char>) -> Step {
    match s.mode {
        LexingState::LineComment => (s, Ok(None)),
        LexingState::Integer => {
            if delimiting_opt(peek) {
                match integer_literal(s.buffer) {
                    Some(v) => pop_step(s, Kind::Integer(v)),
                    None => error_step(s, "identifier can't start with digit"@),
                }
            } else {
                (s, Ok(None))
            }
        },
        LexingState::Float => {
            if delimiting_opt(peek) {
                if float_literal(s.buffer) {
                    pop_step(s, Kind::Float(s.buffer))
                } else {
                    error_step(s, "identifier can't start with digit"@)
                }
            } else {
                (s, Ok(None))
            }
        },
        LexingState::Str => {
            if c == '"' {
                pop_step(s, Kind::Str(s.buffer))
            } else if peek is None {
                error_step(s, "string is not terminated"@)
            } else {
                (s, Ok(None))
            }
        },
        LexingState::Normal => {
            if reserved_word(s.buffer) is Some {
                pop_step_if(s, reserved_word(s.buffer)->0, delimiting_opt(peek))
            } else if punctuation(s.buffer) is Some {
                pop_step(s, punctuation(s.buffer)->0)
            } else if s.buffer == "-"@ {
                pop_step_if(s, Kind::Minus, peek != Some('>'))
            } else if s.buffer == "="@ {
                pop_step_if(s, Kind::Assign, peek != Some('='))
            } else if s.buffer == "!"@ && peek == Some('=') {
                (s, Ok(None))
            } else {
                pop_step_if(s, Kind::Identifier(s.buffer), delimiting_opt(peek))
            }
        },
    }
}

/// One character through the three phases.
pub open spec fn push_step(s: LexModel, c: char, peek: Option<char>) -> Step {
    let (s1, stop1) = counters_step(s, c);
    if stop1 {
        (s1, Ok(None))
    } else {
        let (s2, stop2) = fill_step(s1, c, peek);
        if stop2 {
            (s2, Ok(None))
        } else {
            emit_step(s2, c, peek)
        }
    }
}

pub open spec fn initial_state() -> LexModel {
    LexModel {
        buffer: Seq::empty(),
        mode: LexingState::Normal,
        line: 1,
        column: 0,
        marker: 0,
        escape: false,
    }
}

pub open spec fn peek_at(chars: Seq<char>, i: int) -> Option<char> {
    if 0 <= i < chars.len() {
        Some(chars[i])
    } else {
        None
    }
}

/// The state and the tokens after the first `n` characters of `chars`.
pub open spec fn lex_prefix(chars: Seq<char>, n: nat) -> (LexModel, Result<Seq<TokenModel>, LexErrorModel>)
    decreases n,
{
    if n == 0 {
        (initial_state(), Ok(Seq::empty()))
    } else {
        let (s, r) = lex_prefix(chars, (n - 1) as nat);
        match r {
            Err(e) => (s, Err(e)),
            Ok(toks) => {
                let (s2, r2) = push_step(s, chars[n - 1], peek_at(chars, n as int));
                match r2 {
                    Err(e) => (s2, Err(e)),
                    Ok(None) => (s2, Ok(toks)),
                    Ok(Some(t)) => (s2, Ok(toks.push(t))),
                }
            },
        }
    }
}

/// The tokens of a whole source text, or the first error. A string that is
/// still open at the end of the input is an error.
pub open spec fn lex(chars: Seq<char>) -> Result<Seq<TokenModel>, LexErrorModel> {
    let (s, r) = lex_prefix(chars, chars.len());
    match r {
        Err(e) => Err(e),
        Ok(toks) => {
            if s.mode == LexingState::Str {
                Err(
                    LexErrorModel {
                        msg: "string is not terminated"@,
                        location: SourceRef { line: s.line, column: s.marker },
                    },
                )
            } else {
                Ok(toks)
            }
        },
    }
}

/// Whether `buf` holds exactly the characters of `text`.
fn holds_text(buf: &Vec<char>, text: &str) -> (r: bool)
    ensures
        r == (buf@ == text@),
{
    let n = text.unicode_len();
    if buf.len() != n {
        return false;
    }
    let mut i: usize = 0;
    while i < n
        invariant
            n == text@.len(),
            buf@.len() == n,
            i <= n,
            forall|j: int| 0 <= j < i ==> buf@[j] == text@[j],
        decreases n - i,
    {
        if buf[i] != text.get_char(i) {
            return false;
        }
        i = i + 1;
    }
    proof {
        assert(buf@ =~= text@);
    }
    true
}

/// Whitespace as Unicode's `White_Space` property defines it.
pub fn is_whitespace(c: char) -> (r: bool)
    ensures
        r == is_whitespace_char(c),
{
    c == ' ' || c == '\t' || c == '\n' || c == '\u{0B}' || c == '\u{0C}' || c == '\r' || c
        == '\u{85}' || c == '\u{A0}' || c == '\u{1680}' || ('\u{2000}' <= c && c <= '\u{200A}')
        || c == '\u{2028}' || c == '\u{2029}' || c == '\u{202F}' || c == '\u{205F}' || c
        == '\u{3000}'
}

/// Tells if `c` ends the token before it: `foo(` makes an identifier and `(`.
pub fn is_delimiting(c: char) -> (r: bool)
    ensures
        r == delimiting(c),
{
    is_whitespace(c) || c == ';' || c == '(' || c == ')' || c == '+' || c == '-' || c == '*'
        || c == '/' || c == ',' || c == '.' || c == '='
}

/// Like `is_delimiting`; the end of input (`None`) is delimiting.
pub fn is_delimiting_opt(c: Option<char>) -> (r: bool)
    ensures
        r == delimiting_opt(c),
{
    match c {
        Some(c) => is_delimiting(c),
        None => true,
    }
}

pub fn char_is(peek: Option<char>, this: char) -> (r: bool)
    ensures
        r == (peek == Some(this)),
{
    match peek {
        Some(p) => p == this,
        None => false,
    }
}

pub fn char_is_not(peek: Option<char>, this: char) -> (r: bool)
    ensures
        r == (peek != Some(this)),
{
    !char_is(peek, this)
}

proof fn lemma_digits_value_grows(s: Seq<char>, j: int)
    requires
        0 <= j <= s.len(),
        all_digits(s),
    ensures
        digits_value(s.subrange(0, j)) <= digits_value(s),
        0 <= digits_value(s.subrange(0, j)),
    decreases s.len(),
{
    if s.len() > 0 {
        if j == s.len() {
            assert(s.subrange(0, j) == s);
            lemma_digits_value_grows(s.drop_last(), 0);
            assert(s.drop_last().subrange(0, 0) == s.subrange(0, 0));
        } else {
            assert(all_digits(s.drop_last())) by {
                assert forall|i: int| 0 <= i < s.drop_last().len() implies is_digit_char(
                    s.drop_last()[i],
                ) by {
                    assert(s.drop_last()[i] == s[i]);
                }
            }
            lemma_digits_value_grows(s.drop_last(), j);
            assert(s.drop_last().subrange(0, j) == s.subrange(0, j));
            assert(is_digit_char(s[s.len() - 1]));
        }
    }
}

/// Reads a buffer that starts with a digit as an `i32`, as `str::parse` does.
fn parse_integer(buf: &Vec<char>) -> (r: Option<i32>)
    ensures
        r == integer_literal(buf@),
{
    let n = buf.len();
    if n == 0 {
        return None;
    }
    let mut acc: i64 = 0;
    let mut too_big = false;
    let mut i: usize = 0;
    while i < n
        invariant
            n == buf@.len(),
            i <= n,
            all_digits(buf@.subrange(0, i as int)),
            !too_big ==> acc == digits_value(buf@.subrange(0, i as int)),
            !too_big ==> 0 <= acc <= i32::MAX,
            too_big ==> digits_value(buf@.subrange(0, i as int)) > i32::MAX,
        decreases n - i,
    {
        let c = buf[i];
        if !('0' <= c && c <= '9') {
            proof {
                assert(buf@[i as int] == c);
            }
            return None;
        }
        proof {
            let p = buf@.subrange(0, i + 1);
            assert(p.drop_last() == buf@.subrange(0, i as int));
            assert(p.last() == c);
            assert(all_digits(p)) by {
                assert forall|j: int| 0 <= j < p.len() implies is_digit_char(p[j]) by {
                    if j < i {
                        assert(p[j] == buf@.subrange(0, i as int)[j]);
                    }
                }
            }
            if too_big {
                lemma_digits_value_grows(buf@.subrange(0, i as int), 0);
                assert(buf@.subrange(0, i as int).subrange(0, 0) =~= Seq::<char>::empty());
            }
        }
        if !too_big {
            let d = (c as u32 - '0' as u32) as i64;
            acc = acc * 10 + d;
            if acc > i32::MAX as i64 {
                too_big = true;
            }
        }
        i = i + 1;
    }
    proof {
        assert(buf@.subrange(0, n as int) == buf@);
    }
    if too_big {
        None
    } else {
        Some(acc as i32)
    }
}

/// How many digits `buf` holds from `from` on before anything else.
fn digit_run(buf: &Vec<char>, from: usize) -> (r: usize)
    requires
        from <= buf@.len(),
    ensures
        from <= r <= buf@.len(),
        all_digits(buf@.subrange(from as int, r as int)),
        r < buf@.len() ==> !is_digit_char(buf@[r as int]),
{
    let mut i = from;
    while i < buf.len() && '0' <= buf[i] && buf[i] <= '9'
        invariant
            from <= i <= buf@.len(),
            all_digits(buf@.subrange(from as int, i as int)),
        decreases buf@.len() - i,
    {
        proof {
            let p = buf@.subrange(from as int, i + 1);
            assert forall|j: int| 0 <= j < p.len() implies is_digit_char(p[j]) by {
                if j < i - from {
                    assert(p[j] == buf@.subrange(from as int, i as int)[j]);
                }
            }
        }
        i = i + 1;
    }
    i
}

proof fn lemma_digit_prefix_unique(s: Seq<char>, k: int, r: int)
    requires
        0 <= k < s.len(),
        0 <= r <= s.len(),
        all_digits(s.subrange(0, k)),
        !is_digit_char(s[k]),
        all_digits(s.subrange(0, r)),
        r < s.len() ==> !is_digit_char(s[r]),
    ensures
        k == r,
{
    if k < r {
        assert(s.subrange(0, r)[k] == s[k]);
    }
    if r < k {
        assert(s.subrange(0, k)[r] == s[r]);
    }
}

/// Whether a float buffer is what `f32` parsing accepts.
fn float_ok(buf: &Vec<char>) -> (r: bool)
    ensures
        r == float_literal(buf@),
{
    let s = Ghost(buf@);
    let k = digit_run(buf, 0);
    if k == 0 || k >= buf.len() || buf[k] != '.' {
        proof {
            if float_literal(s@) {
                let w = choose|w: int|
                    0 < w < s@.len() && s@[w] == '.' && all_digits(#[trigger] s@.subrange(0, w))
                        && fraction_ok(s@.subrange(w + 1, s@.len() as int));
                lemma_digit_prefix_unique(s@, w, k as int);
            }
        }
        return false;
    }
    let rest = Ghost(buf@.subrange(k + 1, buf@.len() as int));
    let j = digit_run(buf, k + 1);
    proof {
        assert forall|w: int|
            0 < w < s@.len() && s@[w] == '.' && all_digits(#[trigger] s@.subrange(0, w)) implies w
            == k by {
            lemma_digit_prefix_unique(s@, w, k as int);
        }
        assert(rest@.subrange(0, j - k - 1) == buf@.subrange(k + 1, j as int));
    }
    let mut ok = j == buf.len();
    let mut m: usize = j;
    if !ok && (buf[j] == 'e' || buf[j] == 'E') && j + 1 < buf.len() {
        m = digit_run(buf, j + 1);
        ok = m == buf.len();
    }
    proof {
        if j == buf.len() {
            assert(rest@ == buf@.subrange(k + 1, j as int));
        }
        if ok && j < buf.len() {
            let e = j - k - 1;
            assert(rest@.subrange(e + 1, rest@.len() as int) == buf@.subrange(j + 1, buf@.len() as int));
            assert(fraction_ok(rest@));
        }
        if fraction_ok(rest@) && !ok {
            assert(j < buf.len());
            assert(rest@[j - k - 1] == buf@[j as int]);
            if !all_digits(rest@) {
                let e = choose|e: int|
                    0 <= e < rest@.len() - 1 && (rest@[e] == 'e' || rest@[e] == 'E') && all_digits(
                        #[trigger] rest@.subrange(0, e),
                    ) && all_digits(rest@.subrange(e + 1, rest@.len() as int));
                lemma_digit_prefix_unique(rest@, e, j - k - 1);
                let tail = rest@.subrange(e + 1, rest@.len() as int);
                assert(tail == buf@.subrange(j + 1, buf@.len() as int));
                assert(tail[m - j - 1] == buf@[m as int]);
            }
        }
    }
    ok
}


fn reserved_word_kind(buf: &Vec<char>) -> (r: Option<TokenKind>)
    ensures
        r is Some <==> reserved_word(buf@) is Some,
        r is Some ==> r->0@ == reserved_word(buf@)->0,
{
    if holds_text(buf, "let") {
        Some(TokenKind::Let)
    } else if holds_text(buf, "const") {
        Some(TokenKind::Const)
    } else if holds_text(buf, "fun") {
        Some(TokenKind::Fun)
    } else if holds_text(buf, "return") {
        Some(TokenKind::Return)
    } else if holds_text(buf, "if") {
        Some(TokenKind::If)
    } else if holds_text(buf, "true") {
        Some(TokenKind::True)
    } else if holds_text(buf, "false") {
        Some(TokenKind::False)
    } else if holds_text(buf, "null") {
        Some(TokenKind::Null)
    } else {
        None
    }
}

fn punctuation_kind(buf: &Vec<char>) -> (r: Option<TokenKind>)
    ensures
        r is Some <==> punctuation(buf@) is Some,
        r is Some ==> r->0@ == punctuation(buf@)->0,
{
    if holds_text(buf, "(") {
        Some(TokenKind::LeftParens)
    } else if holds_text(buf, ")") {
        Some(TokenKind::RightParens)
    } else if holds_text(buf, "{") {
        Some(TokenKind::LeftBrace)
    } else if holds_text(buf, "}") {
        Some(TokenKind::RightBrace)
    } else if holds_text(buf, ",") {
        Some(TokenKind::Comma)
    } else if holds_text(buf, ".") {
        Some(TokenKind::Dot)
    } else if holds_text(buf, "+") {
        Some(TokenKind::Plus)
    } else if holds_text(buf, "/") {
        Some(TokenKind::Division)
    } else if holds_text(buf, "*") {
        Some(TokenKind::Multiplication)
    } else if holds_text(buf, ";") {
        Some(TokenKind::Semicolon)
    } else if holds_text(buf, "->") {
        Some(TokenKind::Arrow)
    } else if holds_text(buf, "==") {
        Some(TokenKind::Equals)
    } else if holds_text(buf, "!=") {
        Some(TokenKind::NotEquals)
    } else {
        None
    }
}

pub open spec fn step_result_view(r: Result<Option<Token>, LexingError>) -> Result<
    Option<TokenModel>,
    LexErrorModel,
> {
    match r {
        Ok(Some(t)) => Ok(Some(t@)),
        Ok(None) => Ok(None),
        Err(e) => Err(e@),
    }
}

/// The counters stay within what the number of characters read allows.
pub open spec fn counters_bounded(s: LexModel, n: int) -> bool {
    s.marker <= s.column <= n && s.line <= n + 1
}

proof fn lemma_step_bounds(s: LexModel, c: char, peek: Option<char>, n: int)
    requires
        counters_bounded(s, n),
        n + 3 < u32::MAX,
    ensures
        counters_bounded(push_step(s, c, peek).0, n + 1),
{
}

impl LexBuffer {
    pub fn new() -> (r: LexBuffer)
        ensures
            r@ == initial_state(),
    {
        LexBuffer {
            mode: LexingState::Normal,
            buffer: Vec::new(),
            current_line: 1,
            current_column: 0,
            token_column_marker: 0,
            string_escape_flag: false,
        }
    }

    /// Increments the counters; leaves a line comment at a newline. Returns
    /// `true` when the character was a newline and gives no token.
    fn proceed_with_counters(&mut self, current_char: char) -> (bail: bool)
        requires
            old(self)@.line < u32::MAX,
            old(self)@.column < u32::MAX,
        ensures
            (final(self)@, bail) == counters_step(old(self)@, current_char),
    {
        self.current_column = self.current_column + 1;
        if current_char == '\n' {
            if self.mode == LexingState::LineComment {
                self.mode = LexingState::Normal;
            }
            self.current_line = self.current_line + 1;
            self.current_column = 0;
            self.token_column_marker = 0;
            true
        } else {
            false
        }
    }

    /// Fills the buffer according to the mode and changes the mode where the
    /// character calls for it. Returns `true` when no token can follow.
    fn fill_buffer(&mut self, current_char: char, peek: Option<char>) -> (bail: bool)
        requires
            old(self)@.marker < u32::MAX,
        ensures
            (final(self)@, bail) == fill_step(old(self)@, current_char, peek),
    {
        let c = current_char;
        match self.mode {
            LexingState::LineComment => true,
            LexingState::Normal => {
                if is_whitespace(c) {
                    self.token_column_marker = self.token_column_marker + 1;
                    true
                } else if c == '/' && char_is(peek, '/') {
                    self.mode = LexingState::LineComment;
                    true
                } else if self.buffer.len() == 0 && '0' <= c && c <= '9' {
                    self.buffer.push(c);
                    if char_is(peek, '.') {
                        self.mode = LexingState::Float;
                        true
                    } else {
                        self.mode = LexingState::Integer;
                        false
                    }
                } else if c == '"' && self.buffer.len() == 0 {
                    self.mode = LexingState::Str;
                    true
                } else {
                    self.buffer.push(c);
                    false
                }
            },
            LexingState::Str => {
                if self.string_escape_flag {
                    self.buffer.push(c);
                    self.string_escape_flag = false;
                    true
                } else if c == '\\' {
                    self.string_escape_flag = true;
                    true
                } else if c == '"' {
                    false
                } else {
                    self.buffer.push(c);
                    false
                }
            },
            LexingState::Integer => {
                self.buffer.push(c);
                if char_is(peek, '.') {
                    self.mode = LexingState::Float;
                    true
                } else {
                    false
                }
            },
            LexingState::Float => {
                self.buffer.push(c);
                false
            },
        }
    }

    /// Makes a token of the given kind at the token's first column, and
    /// resets the buffer and the mode.
    fn pop_buffer(&mut self, kind: TokenKind) -> (t: Token)
        ensures
            final(self)@ == popped(old(self)@),
            t@ == token_at(old(self)@, kind@),
    {
        let t = Token::new(kind, self.current_line, self.token_column_marker);
        self.mode = LexingState::Normal;
        self.buffer = Vec::new();
        self.token_column_marker = self.current_column;
        t
    }

    fn pop_buffer_cond(&mut self, kind: TokenKind, should_pop: bool) -> (r: Option<Token>)
        ensures
            (final(self)@, step_result_view(Ok(r))) == pop_step_if(old(self)@, kind@, should_pop),
    {
        if should_pop {
            Some(self.pop_buffer(kind))
        } else {
            None
        }
    }

    fn error_here(&self, msg: &str) -> (e: LexingError)
        ensures
            e@ == error_step(self@, msg@).1->Err_0,
    {
        LexingError {
            msg: String::from_str(msg),
            location: SourceRef { line: self.current_line, column: self.token_column_marker },
        }
    }

    /// Pushes one character, with the character after it. Returns the token
    /// that the character completes, if any.
    pub fn push_char(&mut self, current_char: char, peek: Option<char>) -> (r: Result<
        Option<Token>,
        LexingError,
    >)
        requires
            old(self)@.line < u32::MAX,
            old(self)@.marker <= old(self)@.column,
            old(self)@.column + 1 < u32::MAX,
        ensures
            final(self)@ == push_step(old(self)@, current_char, peek).0,
            step_result_view(r) == push_step(old(self)@, current_char, peek).1,
    {
        if self.proceed_with_counters(current_char) {
            return Ok(None);
        }
        if self.fill_buffer(current_char, peek) {
            return Ok(None);
        }
        match self.mode {
            LexingState::LineComment => Ok(None),
            LexingState::Integer => {
                if is_delimiting_opt(peek) {
                    match parse_integer(&self.buffer) {
                        Some(v) => Ok(Some(self.pop_buffer(TokenKind::Integer(v)))),
                        None => Err(self.error_here("identifier can't start with digit")),
                    }
                } else {
                    Ok(None)
                }
            },
            LexingState::Float => {
                if is_delimiting_opt(peek) {
                    if float_ok(&self.buffer) {
                        let text = string_of(&self.buffer);
                        Ok(Some(self.pop_buffer(TokenKind::Float(text))))
                    } else {
                        Err(self.error_here("identifier can't start with digit"))
                    }
                } else {
                    Ok(None)
                }
            },
            LexingState::Str => {
                if current_char == '"' {
                    let text = string_of(&self.buffer);
                    Ok(Some(self.pop_buffer(TokenKind::Str(text))))
                } else if peek.is_none() {
                    Err(self.error_here("string is not terminated"))
                } else {
                    Ok(None)
                }
            },
            LexingState::Normal => {
                match reserved_word_kind(&self.buffer) {
                    Some(k) => Ok(self.pop_buffer_cond(k, is_delimiting_opt(peek))),
                    None => match punctuation_kind(&self.buffer) {
                        Some(k) => Ok(Some(self.pop_buffer(k))),
                        None => {
                            if holds_text(&self.buffer, "-") {
                                Ok(self.pop_buffer_cond(TokenKind::Minus, char_is_not(peek, '>')))
                            } else if holds_text(&self.buffer, "=") {
                                Ok(self.pop_buffer_cond(TokenKind::Assign, char_is_not(peek, '=')))
                            } else if holds_text(&self.buffer, "!") && char_is(peek, '=') {
                                Ok(None)
                            } else {
                                let name = string_of(&self.buffer);
                                Ok(self.pop_buffer_cond(TokenKind::Identifier(name), is_delimiting_opt(peek)))
                            }
                        },
                    },
                }
            },
        }
    }
}


/// The characters of `s`, in order.
fn chars_of(s: &str) -> (r: Vec<char>)
    ensures
        r@ == s@,
{
    broadcast use vstd::string::group_string_axioms;

    let n = s.unicode_len();
    let mut it = s.chars();
    let mut r: Vec<char> = Vec::new();
    let mut i: usize = 0;
    while i < n
        invariant
            n == s@.len(),
            i <= n,
            r@ == s@.subrange(0, i as int),
            it.remaining() == s@.subrange(i as int, n as int),
        decreases n - i,
    {
        let c = it.next();
        match c {
            Some(c) => {
                r.push(c);
            },
            None => {},
        }
        proof {
            assert(s@.subrange(0, i + 1) == s@.subrange(0, i as int).push(s@[i as int]));
            assert(s@.subrange(i + 1, n as int) == s@.subrange(i as int, n as int).drop_first());
        }
        i = i + 1;
    }
    proof {
        assert(s@.subrange(0, n as int) == s@);
    }
    r
}

pub open spec fn token_models(ts: Seq<Token>) -> Seq<TokenModel> {
    ts.map_values(|t: Token| t@)
}

proof fn lemma_error_stays(chars: Seq<char>, m: nat, n: nat)
    requires
        m <= n,
        lex_prefix(chars, m).1 is Err,
    ensures
        lex_prefix(chars, n).1 == lex_prefix(chars, m).1,
    decreases n - m,
{
    if m < n {
        lemma_error_stays(chars, m, (n - 1) as nat);
    }
}

/// A lexed source: its tokens and a cursor over them.
pub struct Lexer {
    tokens: Vec<Token>,
    pointer: usize,
}

impl Lexer {
    /// The tokens, in order.
    pub closed spec fn token_seq(&self) -> Seq<TokenModel> {
        token_models(self.tokens@)
    }

    /// The index of the next token.
    pub closed spec fn position(&self) -> nat {
        self.pointer as nat
    }

    /// Lexes the whole source up front.
    pub fn new(source: &str) -> (r: Result<Lexer, LexingError>)
        requires
            source@.len() + 3 < u32::MAX,
        ensures
            match r {
                Ok(l) => lex(source@) == Ok::<Seq<TokenModel>, LexErrorModel>(l.token_seq())
                    && l.position() == 0,
                Err(e) => lex(source@) == Err::<Seq<TokenModel>, LexErrorModel>(e@),
            },
    {
        let chars = chars_of(source);
        let n = chars.len();
        let mut tokens: Vec<Token> = Vec::new();
        let mut buffer = LexBuffer::new();
        let mut i: usize = 0;
        proof {
            assert(token_models(tokens@) =~= Seq::<TokenModel>::empty());
        }
        while i < n
            invariant
                n == chars@.len(),
                chars@ == source@,
                i <= n,
                n + 3 < u32::MAX,
                lex_prefix(chars@, i as nat) == (
                    buffer@,
                    Ok::<Seq<TokenModel>, LexErrorModel>(token_models(tokens@)),
                ),
                counters_bounded(buffer@, i as int),
            decreases n - i,
        {
            let peek = if i + 1 < n {
                Some(chars[i + 1])
            } else {
                None
            };
            proof {
                assert(peek == peek_at(chars@, i + 1));
                lemma_step_bounds(buffer@, chars@[i as int], peek, i as int);
            }
            let pushed = buffer.push_char(chars[i], peek);
            match pushed {
                Err(e) => {
                    proof {
                        lemma_error_stays(chars@, (i + 1) as nat, n as nat);
                    }
                    return Err(e);
                },
                Ok(Some(t)) => {
                    tokens.push(t);
                    proof {
                        assert(token_models(tokens@) == lex_prefix(chars@, i as nat).1->Ok_0.push(
                            t@,
                        ));
                    }
                },
                Ok(None) => {},
            }
            i = i + 1;
        }
        if buffer.mode == LexingState::Str {
            return Err(buffer.error_here("string is not terminated"));
        }
        Ok(Lexer { pointer: 0, tokens })
    }

    /// The token at the cursor, if any.
    pub fn peek(&self) -> (r: Option<&Token>)
        ensures
            self.position() < self.token_seq().len() ==> r is Some && r->0@ == self.token_seq()[self.position() as int],
            self.position() >= self.token_seq().len() ==> r is None,
    {
        if self.pointer < self.tokens.len() {
            Some(&self.tokens[self.pointer])
        } else {
            None
        }
    }

    /// The token at the cursor, if any; the cursor moves past it.
    pub fn next(&mut self) -> (r: Option<&Token>)
        ensures
            final(self).token_seq() == old(self).token_seq(),
            old(self).position() < old(self).token_seq().len() ==> r is Some && r->0@
                == old(self).token_seq()[old(self).position() as int] && final(self).position()
                == old(self).position() + 1,
            old(self).position() >= old(self).token_seq().len() ==> r is None && final(self).position() == old(self).position(),
    {
        let p = self.pointer;
        if p < self.tokens.len() {
            self.pointer = p + 1;
            Some(&self.tokens[p])
        } else {
            None
        }
    }

    /// `next()`, with the end of the tokens as an error.
    pub fn next_or_err(&mut self) -> (r: Result<&Token, UnexpectedEOFError>)
        ensures
            final(self).token_seq() == old(self).token_seq(),
            old(self).position() < old(self).token_seq().len() ==> r is Ok && r->Ok_0@
                == old(self).token_seq()[old(self).position() as int] && final(self).position()
                == old(self).position() + 1,
            old(self).position() >= old(self).token_seq().len() ==> r is Err && final(self).position() == old(self).position(),
    {
        match self.next() {
            Some(token) => Ok(token),
            None => Err(UnexpectedEOFError {}),
        }
    }

    /// `peek()`, with the end of the tokens as an error.
    pub fn peek_or_err(&self) -> (r: Result<&Token, UnexpectedEOFError>)
        ensures
            self.position() < self.token_seq().len() ==> r is Ok && r->Ok_0@ == self.token_seq()[self.position() as int],
            self.position() >= self.token_seq().len() ==> r is Err,
    {
        match self.peek() {
            Some(token) => Ok(token),
            None => Err(UnexpectedEOFError {}),
        }
    }

    /// Whether a token is left at the cursor.
    pub fn has_next(&self) -> (r: bool)
        ensures
            r == (self.position() < self.token_seq().len()),
    {
        self.pointer < self.tokens.len()
    }
}

} // verus!
