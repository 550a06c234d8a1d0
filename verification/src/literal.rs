//! A law of evaluation: a numeric literal by itself evaluates to itself.
//!
//! A numeric literal is a sentence by itself, and whatever derivation the
//! parser finds for it, its reduction is the program that pushes that
//! literal and does nothing else.

use crate::derivation::sentence;
use crate::equation::{evaluated, first_unrecognized, parsed, recognized, reduces, SyntaxError};
use crate::derivation::{
    derives, leaf_terminal, leaves, lemma_failed_step, shift, stack_after, Step,
};
use crate::grammar::{Nonterminal, Production, Symbol, Terminal};
use crate::number::{is_numeric, is_word, same_letter, sign_of, Sign};
use crate::program::{instruction, operation, program, value, Instruction};
use crate::registry::Entries;
use crate::scanner::{literal_end, run_end, sign_end, CharClass};
use crate::tokenizer::{lemma_first_key, lemma_run_bounds, lemma_scan_bounds, tokens, word_end};
use vstd::prelude::*;

verus! {

/// The symbols that a unit alone can be rewritten to.
pub open spec fn of_units(s: Symbol) -> bool {
    s == Symbol::Terminal(Terminal::Unit) || s == Symbol::Nonterminal(Nonterminal::Upower)
        || s == Symbol::Nonterminal(Nonterminal::Units)
}

/// A production that rewrites one symbol has no operation, and what it
/// rewrites a unit to is still of units.
proof fn lemma_renaming(p: Production)
    ensures
        p.spec_body().len() >= 1,
        p.spec_body().len() == 1 ==> operation(p) is None,
        p.spec_body().len() == 1 && of_units(p.spec_body()[0]) ==> of_units(
            Symbol::Nonterminal(p.spec_head()),
        ),
{
}

/// A terminal that accepts a numeric literal is one of the three terminals
/// of numbers, or that of units where the literal is a spelling of a unit.
pub proof fn lemma_numeric_terminal(t: Terminal, token: Seq<char>, entries: Entries)
    requires
        is_numeric(token),
        t.accepts(token, entries),
    ensures
        t == Terminal::Num || t == Terminal::PosNum || t == Terminal::NegNum || t == Terminal::Unit,
{
    reveal_strlit("+");
    reveal_strlit("-");
    reveal_strlit("*");
    reveal_strlit("/");
    reveal_strlit("%");
    reveal_strlit("^");
    reveal_strlit("!");
    reveal_strlit("(");
    reveal_strlit(")");
    reveal_strlit("->");
    reveal_strlit("ln");
    reveal_strlit("log");
    reveal_strlit("sqrt");
    reveal_strlit("e");
    reveal_strlit("pi");
    let start = sign_end(token, 0);
    if is_word(token, start, seq!['i', 'n', 'f']) {
        assert(same_letter(token[start + 0], 'i'));
    }
    if is_word(token, start, seq!['n', 'a', 'n']) {
        assert(same_letter(token[start + 0], 'n'));
    }
}

/// The number of leaves among the steps does not fall as steps are added.
proof fn lemma_leaves_grow(steps: Seq<Step>, m: int, n: int)
    requires
        0 <= m <= n,
    ensures
        leaves(steps, m).len() <= leaves(steps, n).len(),
    decreases n - m,
{
    if m < n {
        lemma_leaves_grow(steps, m, n - 1);
    }
}

/// With one leaf in all, and that leaf first, the stack holds one symbol
/// after every step, the program is what the leaf gives, and a unit stays
/// of units.
proof fn lemma_one_leaf(steps: Seq<Step>, n: int, entries: Entries)
    requires
        1 <= n <= steps.len(),
        steps[0] is Leaf,
        leaves(steps, steps.len() as int).len() == 1,
        stack_after(steps, n, entries) is Some,
    ensures
        stack_after(steps, n, entries)->0.len() == 1,
        program(steps, n, entries) == program(steps, 1, entries),
        of_units(stack_after(steps, 1, entries)->0[0]) ==> of_units(stack_after(steps, n, entries)->0[0]),
    decreases n,
{
    if n > 1 {
        lemma_one_leaf(steps, n - 1, entries);
        let below = stack_after(steps, n - 1, entries)->0;
        assert(shift(below, steps[n - 1], entries) is Some);
        lemma_leaves_grow(steps, 1, n - 1);
        lemma_leaves_grow(steps, n, steps.len() as int);
        match steps[n - 1] {
            Step::Leaf { terminal, token } => {
                assert(leaves(steps, n).len() == leaves(steps, n - 1).len() + 1);
                assert(leaves(steps, 1).len() == 1);
            },
            Step::Node { production } => {
                lemma_renaming(production);
                let body = production.spec_body();
                assert(body.len() == 1);
                assert(below.skip(0) =~= below);
                assert(body[0] == below[0]);
            },
        }
    } else {
        assert(stack_after(steps, 0, entries) == Some(Seq::<Symbol>::empty()));
    }
}

/// A numeric literal by itself evaluates to itself: the reduction of a
/// derivation whose only leaf is a numeric literal is the one instruction
/// that pushes the literal.
pub proof fn lemma_literal_reduces_to_itself(steps: Seq<Step>, entries: Entries, literal: Seq<char>)
    requires
        is_numeric(literal),
        derives(steps, entries),
        leaves(steps, steps.len() as int) == seq![literal],
    ensures
        program(steps, steps.len() as int, entries).len() == 1,
        program(steps, steps.len() as int, entries)[0] matches Instruction::Number(text) && text@
            == literal,
{
    let n = steps.len() as int;
    assert(leaves(steps, n).len() == 1);
    assert(n >= 1);
    lemma_leaves_grow(steps, 0, 1);
    lemma_leaves_grow(steps, 1, n);
    // no stack is left by a first step that fails
    assert(stack_after(steps, 1, entries) is Some) by {
        if stack_after(steps, 1, entries) is None {
            lemma_failed_step(steps, 0, entries);
        }
    }
    assert(stack_after(steps, 0, entries) == Some(Seq::<Symbol>::empty()));
    match steps[0] {
        Step::Node { production } => {
            lemma_renaming(production);
            assert(false);
        },
        Step::Leaf { terminal, token } => {
            assert(leaves(steps, 1) =~= seq![token@]);
            lemma_one_leaf(steps, n, entries);
            lemma_first_leaf(steps, n, entries);
            assert(token@ == literal);
            let t = leaf_terminal(terminal, token@, entries)->0;
            lemma_numeric_terminal(t, token@, entries);
            assert(stack_after(steps, 1, entries)->0 =~= seq![Symbol::Terminal(t)]);
            assert(instruction(steps[0], entries) == value(t, token, entries));
            assert(program(steps, 0, entries) =~= Seq::<Instruction>::empty());
            assert(t != Terminal::Unit);
        },
    }
}

/// The first leaf is the first of the leaves.
proof fn lemma_first_leaf(steps: Seq<Step>, n: int, entries: Entries)
    requires
        1 <= n <= steps.len(),
        steps[0] is Leaf,
    ensures
        leaves(steps, n).len() >= 1,
        leaves(steps, n)[0] == steps[0]->token@,
    decreases n,
{
    if n > 1 {
        lemma_first_leaf(steps, n - 1, entries);
        assert(leaves(steps, n)[0] == leaves(steps, n - 1)[0]);
    } else {
        assert(leaves(steps, 0).len() == 0);
        assert(leaves(steps, 1) == leaves(steps, 0).push(steps[0]->token@));
    }
}

/// The steps of one leaf and of the productions of a chain behind it.
pub open spec fn climb(leaf: Step, chain: Seq<Production>) -> Seq<Step> {
    seq![leaf] + chain.map_values(|p: Production| Step::Node { production: p })
}

/// A production that rewrites the one symbol on the stack leaves its head
/// there.
proof fn lemma_rename_step(below: Seq<Symbol>, p: Production, entries: Entries)
    requires
        below.len() == 1,
        p.spec_body() == below,
    ensures
        shift(below, Step::Node { production: p }, entries) == Some(
            seq![Symbol::Nonterminal(p.spec_head())],
        ),
{
    assert(below.skip(0) =~= below);
    assert(below.take(0).push(Symbol::Nonterminal(p.spec_head())) =~= seq![
        Symbol::Nonterminal(p.spec_head()),
    ]);
}

/// The symbol that a chain has climbed to after `k` of its productions.
pub open spec fn reached(chain: Seq<Production>, from: Symbol, k: int) -> Symbol {
    if k <= 0 {
        from
    } else {
        Symbol::Nonterminal(chain[k - 1].spec_head())
    }
}

/// A leaf with a chain behind it leaves, after each step, one symbol on the
/// stack: the head of the production of that step.
proof fn lemma_climb(leaf: Step, chain: Seq<Production>, t: Terminal, entries: Entries, k: int)
    requires
        leaf matches Step::Leaf { terminal, token } && terminal == Some(t) && t.accepts(token@, entries),
        forall|j: int|
            0 <= j < chain.len() ==> (#[trigger] chain[j]).spec_body() == seq![
                reached(chain, Symbol::Terminal(t), j),
            ],
        0 <= k <= chain.len(),
    ensures
        stack_after(climb(leaf, chain), k + 1, entries) == Some(
            seq![reached(chain, Symbol::Terminal(t), k)],
        ),
        leaves(climb(leaf, chain), k + 1) == seq![leaf->token@],
    decreases k,
{
    let steps = climb(leaf, chain);
    assert(steps[0] == leaf);
    if k == 0 {
        assert(stack_after(steps, 0, entries) == Some(Seq::<Symbol>::empty()));
        assert(Seq::<Symbol>::empty().push(Symbol::Terminal(t)) =~= seq![Symbol::Terminal(t)]);
        assert(leaves(steps, 0) =~= Seq::<Seq<char>>::empty());
        assert(leaves(steps, 1) =~= seq![leaf->token@]);
    } else {
        lemma_climb(leaf, chain, t, entries, k - 1);
        let p = chain[k - 1];
        assert(steps[k] == Step::Node { production: p });
        let below = seq![reached(chain, Symbol::Terminal(t), k - 1)];
        assert(stack_after(steps, k, entries) == Some(below));
        lemma_rename_step(below, p, entries);
    }
}

/// The terminal of the numbers that begin as `token` begins.
pub open spec fn number_terminal(token: Seq<char>) -> Terminal {
    match sign_of(token) {
        Sign::Unsigned => Terminal::Num,
        Sign::Plus => Terminal::PosNum,
        Sign::Minus => Terminal::NegNum,
    }
}

/// The productions that lead from a literal without sign to a whole
/// sentence.
pub open spec fn unsigned_chain() -> Seq<Production> {
    seq![
        Production::LiteralNum,
        Production::GroupLiteral,
        Production::UfactGroup,
        Production::PowerUfact,
        Production::FactorPower,
        Production::TermFactor,
        Production::ExprTerm,
        Production::EquationExpr,
    ]
}

/// The productions that lead from a literal with a sign to a whole sentence.
pub open spec fn signed_chain(first: Production) -> Seq<Production> {
    seq![
        first,
        Production::LiteralSigned,
        Production::GroupLiteral,
        Production::UfactGroup,
        Production::PowerUfact,
        Production::FactorPower,
        Production::TermFactor,
        Production::ExprTerm,
        Production::EquationExpr,
    ]
}

/// A leaf with a chain behind it that ends in a whole sentence is a
/// derivation of the leaf's token.
proof fn lemma_climbed(leaf: Step, chain: Seq<Production>, t: Terminal, entries: Entries)
    requires
        leaf matches Step::Leaf { terminal, token } && terminal == Some(t) && t.accepts(token@, entries),
        forall|j: int|
            0 <= j < chain.len() ==> (#[trigger] chain[j]).spec_body() == seq![
                reached(chain, Symbol::Terminal(t), j),
            ],
        chain.len() > 0,
        chain[chain.len() - 1].spec_head() == Nonterminal::Equation,
    ensures
        sentence(seq![leaf->token@], entries),
{
    lemma_climb(leaf, chain, t, entries, chain.len() as int);
    let steps = climb(leaf, chain);
    assert(steps.len() == chain.len() + 1);
    assert(derives(steps, entries));
}

/// A numeric literal is a sentence by itself.
pub proof fn lemma_literal_is_sentence(token: String, entries: Entries)
    requires
        is_numeric(token@),
    ensures
        sentence(seq![token@], entries),
{
    match sign_of(token@) {
        Sign::Unsigned => {
            let chain = unsigned_chain();
            let from = Symbol::Terminal(Terminal::Num);
            assert(chain[0].spec_body() == seq![reached(chain, from, 0)]);
            assert(chain[1].spec_body() == seq![reached(chain, from, 1)]);
            assert(chain[2].spec_body() == seq![reached(chain, from, 2)]);
            assert(chain[3].spec_body() == seq![reached(chain, from, 3)]);
            assert(chain[4].spec_body() == seq![reached(chain, from, 4)]);
            assert(chain[5].spec_body() == seq![reached(chain, from, 5)]);
            assert(chain[6].spec_body() == seq![reached(chain, from, 6)]);
            assert(chain[7].spec_body() == seq![reached(chain, from, 7)]);
            lemma_climbed(Step::Leaf { terminal: Some(Terminal::Num), token }, chain, Terminal::Num, entries);
        },
        Sign::Plus => {
            lemma_signed_chain(Production::SignedPos, Terminal::PosNum);
            lemma_climbed(
                Step::Leaf { terminal: Some(Terminal::PosNum), token },
                signed_chain(Production::SignedPos),
                Terminal::PosNum,
                entries,
            );
        },
        Sign::Minus => {
            lemma_signed_chain(Production::SignedNeg, Terminal::NegNum);
            lemma_climbed(
                Step::Leaf { terminal: Some(Terminal::NegNum), token },
                signed_chain(Production::SignedNeg),
                Terminal::NegNum,
                entries,
            );
        },
    }
}

/// The chain of a literal with a sign climbs from its terminal.
proof fn lemma_signed_chain(first: Production, t: Terminal)
    requires
        first.spec_body() == seq![Symbol::Terminal(t)],
        first.spec_head() == Nonterminal::Signed,
    ensures
        forall|j: int|
            0 <= j < signed_chain(first).len() ==> (#[trigger] signed_chain(first)[j]).spec_body()
                == seq![reached(signed_chain(first), Symbol::Terminal(t), j)],
{
    let chain = signed_chain(first);
    let from = Symbol::Terminal(t);
    assert(chain[0].spec_body() == seq![reached(chain, from, 0)]);
    assert(chain[1].spec_body() == seq![reached(chain, from, 1)]);
    assert(chain[2].spec_body() == seq![reached(chain, from, 2)]);
    assert(chain[3].spec_body() == seq![reached(chain, from, 3)]);
    assert(chain[4].spec_body() == seq![reached(chain, from, 4)]);
    assert(chain[5].spec_body() == seq![reached(chain, from, 5)]);
    assert(chain[6].spec_body() == seq![reached(chain, from, 6)]);
    assert(chain[7].spec_body() == seq![reached(chain, from, 7)]);
    assert(chain[8].spec_body() == seq![reached(chain, from, 8)]);
}

/// A text that the tokenizer reads whole as one numeric literal or as one
/// word is its own only token.
pub proof fn lemma_single_token(text: Seq<char>, entries: Entries)
    requires
        text.len() > 0,
        literal_end(text) == text.len() || (literal_end(text) == 0 && word_end(text) == text.len()),
    ensures
        tokens(text, entries) == seq![text],
{
    lemma_run_bounds(text, sign_end(text, 0), CharClass::Digit);
    assert(run_end(text, 0, CharClass::White) == 0);
    assert(text.skip(0) =~= text);
    assert(text.take(text.len() as int) =~= text);
    let rest = text.skip(text.len() as int);
    assert(rest.len() == 0);
    lemma_scan_bounds(rest);
    assert(run_end(rest, 0, CharClass::White) == 0);
    assert(rest.skip(0) =~= rest);
    assert(tokens(rest, entries) =~= Seq::<Seq<char>>::empty()) by {
        lemma_first_key(rest, entries, 0);
    }
    assert(tokens(text, entries) =~= seq![text]);
}

/// A numeric literal by itself evaluates to itself: for a text that is one
/// numeric literal, evaluation gives the program of the one instruction that
/// pushes the literal.
pub proof fn lemma_literal_evaluates_to_itself(
    input: String,
    entries: Entries,
    r: Result<Vec<Instruction>, SyntaxError>,
)
    requires
        is_numeric(input@),
        literal_end(input@) == input@.len() || (literal_end(input@) == 0 && word_end(input@)
            == input@.len()),
        evaluated(input@, entries, r),
    ensures
        r is Ok,
        r->Ok_0@.len() == 1,
        r->Ok_0@[0] matches Instruction::Number(literal) && literal@ == input@,
{
    let text = input@;
    assert(text.len() > 0);
    lemma_single_token(text, entries);
    lemma_literal_is_sentence(input, entries);
    let list = seq![text];
    assert(first_unrecognized(list, entries, 0) is None) by {
        assert(number_terminal(text).accepts(text, entries));
        assert(recognized(list[0], entries));
        assert(first_unrecognized(list, entries, 1) is None);
    }
    assert(parsed(list, entries, r));
    let result = r->Ok_0@;
    assert(reduces(list, entries, result));
    let steps = choose|steps: Seq<Step>|
        #![trigger derives(steps, entries)]
        {
            &&& derives(steps, entries)
            &&& leaves(steps, steps.len() as int) == list
            &&& program(steps, steps.len() as int, entries) == result
        };
    lemma_literal_reduces_to_itself(steps, entries, text);
}

} // verus!
