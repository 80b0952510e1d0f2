use vstd::prelude::*;

verus! {

/// What the interactive loop does with an input line.
#[derive(Debug, PartialEq, Eq, Structural, Clone, Copy)]
pub enum ReplMode {
    Normal,
    Lexus,
    Ast,
}

/// What the interactive loop is to do next.
#[derive(Debug, PartialEq, Eq, Structural, Clone, Copy)]
pub enum ReplAction {
    /// Nothing: the line was empty.
    Skip,
    /// Switch to another mode.
    Switch(ReplMode),
    /// Show the tokens of the line.
    Lex,
    /// Show the expression trees of the line.
    Ast,
    /// Evaluate the line.
    Eval,
}

pub fn prompt(repl_mode: &ReplMode) -> (r: &'static str)
    ensures
        *repl_mode == ReplMode::Normal ==> r@ == "bogus> "@,
        *repl_mode == ReplMode::Lexus ==> r@ == "bogus [lex]> "@,
        *repl_mode == ReplMode::Ast ==> r@ == "bogus [ast]> "@,
{
    match repl_mode {
        ReplMode::Normal => "bogus> ",
        ReplMode::Lexus => "bogus [lex]> ",
        ReplMode::Ast => "bogus [ast]> ",
    }
}

pub open spec fn has_prefix(s: Seq<char>, p: Seq<char>) -> bool {
    s.len() >= p.len() && s.subrange(0, p.len() as int) == p
}

fn starts_with(line: &str, prefix: &str) -> (r: bool)
    ensures
        r == has_prefix(line@, prefix@),
{
    let n = line.unicode_len();
    let m = prefix.unicode_len();
    if n < m {
        return false;
    }
    let mut i: usize = 0;
    while i < m
        invariant
            n == line@.len(),
            m == prefix@.len(),
            m <= n,
            i <= m,
            forall|j: int| 0 <= j < i ==> line@[j] == prefix@[j],
        decreases m - i,
    {
        if line.get_char(i) != prefix.get_char(i) {
            proof {
                assert(line@.subrange(0, m as int)[i as int] != prefix@[i as int]);
            }
            return false;
        }
        i = i + 1;
    }
    proof {
        assert(line@.subrange(0, m as int) =~= prefix@);
    }
    true
}

/// The decision for one input line in mode `mode`.
pub open spec fn action_for(mode: ReplMode, line: Seq<char>) -> ReplAction {
    if line.len() == 0 {
        ReplAction::Skip
    } else if has_prefix(line, ":normal"@) {
        ReplAction::Switch(ReplMode::Normal)
    } else if has_prefix(line, ":lexus"@) {
        ReplAction::Switch(ReplMode::Lexus)
    } else if has_prefix(line, ":ast"@) {
        ReplAction::Switch(ReplMode::Ast)
    } else {
        match mode {
            ReplMode::Lexus => ReplAction::Lex,
            ReplMode::Ast => ReplAction::Ast,
            ReplMode::Normal => ReplAction::Eval,
        }
    }
}

/// Decides what to do with one input line.
pub fn repl_action(mode: ReplMode, line: &str) -> (r: ReplAction)
    ensures
        r == action_for(mode, line@),
{
    if line.unicode_len() == 0 {
        ReplAction::Skip
    } else if starts_with(line, ":normal") {
        ReplAction::Switch(ReplMode::Normal)
    } else if starts_with(line, ":lexus") {
        ReplAction::Switch(ReplMode::Lexus)
    } else if starts_with(line, ":ast") {
        ReplAction::Switch(ReplMode::Ast)
    } else {
        match mode {
            ReplMode::Lexus => ReplAction::Lex,
            ReplMode::Ast => ReplAction::Ast,
            ReplMode::Normal => ReplAction::Eval,
        }
    }
}

} // verus!
