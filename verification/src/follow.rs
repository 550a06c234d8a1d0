//! Which token may follow which: a law of derivations, and what it means for
//! a word behind a number.
//!
//! Every nonterminal begins with one of a few terminals and ends with one of
//! a few. Two tokens stand side by side in a sentence only if, in some
//! production, a symbol that can end with the terminal of the first is
//! followed by a symbol that can begin with the terminal of the second. No
//! production lets a number without sign follow a value, so a text in which
//! a word that is a number (`nan`, `inf`, `infinity`) stands behind a number
//! has no derivation.

use crate::derivation::{derives, leaf_terminal, leaves, shift, stack_after, Step};
use crate::equation::{parsed, reduces, SyntaxError};
use crate::grammar::{Nonterminal, Production, Symbol, Terminal};
use crate::literal::lemma_numeric_terminal;
use crate::number::{is_numeric, sign_of, Sign};
use crate::program::{program, Instruction};
use crate::registry::{has_key, Entries};
use vstd::prelude::*;

verus! {

/// Whether a sentence part that `s` derives can begin with the terminal `t`.
pub open spec fn begins(s: Symbol, t: Terminal) -> bool {
    match s {
        Symbol::Terminal(x) => x == t,
        Symbol::Nonterminal(n) => match n {
            Nonterminal::Units | Nonterminal::Upower => t == Terminal::Unit,
            Nonterminal::Sterm | Nonterminal::Smeasure | Nonterminal::Signed => t == Terminal::PosNum
                || t == Terminal::NegNum,
            _ => t == Terminal::Num || t == Terminal::PosNum || t == Terminal::NegNum || t
                == Terminal::Minus || t == Terminal::Open || t == Terminal::Sqrt || t == Terminal::Log
                || t == Terminal::Ln || t == Terminal::E || t == Terminal::Pi,
        },
    }
}

/// Whether `t` is a terminal with which a value can end: a literal, a
/// constant, a unit, a closing parenthesis or the factorial sign.
pub open spec fn ends_value(t: Terminal) -> bool {
    t == Terminal::Num || t == Terminal::PosNum || t == Terminal::NegNum || t == Terminal::E || t
        == Terminal::Pi || t == Terminal::Unit || t == Terminal::Close || t == Terminal::Bang
}

/// Whether a sentence part that `s` derives can end with the terminal `t`.
pub open spec fn ends(s: Symbol, t: Terminal) -> bool {
    match s {
        Symbol::Terminal(x) => x == t,
        Symbol::Nonterminal(n) => match n {
            Nonterminal::Signed => t == Terminal::PosNum || t == Terminal::NegNum,
            _ => ends_value(t),
        },
    }
}

/// Whether some production puts a symbol that can begin with `b` right
/// behind a symbol that can end with `a`.
pub open spec fn may_follow(a: Terminal, b: Terminal) -> bool {
    exists|p: Production, i: int|
        0 <= i && i + 1 < p.spec_body().len() && ends(p.spec_body()[i], a) && begins(
            #[trigger] p.spec_body()[i + 1],
            b,
        )
}

/// What a production derives begins as its first symbol begins and ends as
/// its last symbol ends.
proof fn lemma_edges(p: Production, t: Terminal)
    ensures
        p.spec_body().len() >= 1,
        begins(p.spec_body()[0], t) ==> begins(Symbol::Nonterminal(p.spec_head()), t),
        ends(p.spec_body()[p.spec_body().len() - 1], t) ==> ends(Symbol::Nonterminal(p.spec_head()), t),
{
}

/// No production puts a symbol that can begin with a number without sign
/// right behind a symbol that can end with a value.
proof fn lemma_pair(p: Production, i: int, a: Terminal)
    requires
        0 <= i,
        i + 1 < p.spec_body().len(),
        ends_value(a),
    ensures
        !(ends(p.spec_body()[i], a) && begins(p.spec_body()[i + 1], Terminal::Num)),
{
    let body = p.spec_body();
    if i == 0 {
        assert(body[0] == body[i] && body[1] == body[i + 1]);
    } else if i == 1 {
        assert(body[1] == body[i] && body[2] == body[i + 1]);
    } else {
        assert(body[2] == body[i] && body[3] == body[i + 1]);
    }
}

/// A number without sign does not follow a value.
pub proof fn lemma_number_follows_no_value(a: Terminal)
    requires
        ends_value(a),
    ensures
        !may_follow(a, Terminal::Num),
{
    assert forall|p: Production, i: int|
        0 <= i && i + 1 < p.spec_body().len() implies !(ends(p.spec_body()[i], a) && begins(
        #[trigger] p.spec_body()[i + 1],
        Terminal::Num,
    )) by {
        lemma_pair(p, i, a);
    }
}

/// The terminals of the leaves among the first `n` steps, in order.
pub open spec fn leaf_terminals(steps: Seq<Step>, n: int, entries: Entries) -> Seq<Terminal>
    decreases n,
{
    if n <= 0 {
        Seq::empty()
    } else {
        match steps[n - 1] {
            Step::Leaf { terminal, token } => match leaf_terminal(terminal, token@, entries) {
                Some(t) => leaf_terminals(steps, n - 1, entries).push(t),
                None => leaf_terminals(steps, n - 1, entries),
            },
            Step::Node { production } => leaf_terminals(steps, n - 1, entries),
        }
    }
}

/// For each symbol on the stack after the first `n` steps, the position of
/// the first leaf that it has been derived to.
pub open spec fn starts_after(steps: Seq<Step>, n: int, entries: Entries) -> Seq<int>
    decreases n,
{
    if n <= 0 {
        Seq::empty()
    } else {
        let below = starts_after(steps, n - 1, entries);
        match steps[n - 1] {
            Step::Leaf { terminal, token } => below.push(
                leaf_terminals(steps, n - 1, entries).len() as int,
            ),
            Step::Node { production } => below.take(below.len() - production.spec_body().len() + 1),
        }
    }
}

/// The position behind the last leaf that the symbol at `k` has been
/// derived to.
pub open spec fn end_of(starts: Seq<int>, k: int, count: int) -> int {
    if k + 1 < starts.len() {
        starts[k + 1]
    } else {
        count
    }
}

/// What holds of a stack, of where its symbols start and of the terminals
/// of the leaves: each symbol has leaves of its own, begins and ends as its
/// leaves do, and within the leaves of one symbol each terminal may follow
/// the one before it.
pub open spec fn neighbourly(stack: Seq<Symbol>, starts: Seq<int>, terminals: Seq<Terminal>) -> bool {
    &&& starts.len() == stack.len()
    &&& stack.len() == 0 ==> terminals.len() == 0
    &&& stack.len() > 0 ==> starts[0] == 0
    &&& forall|k: int| 0 <= k < starts.len() ==> 0 <= #[trigger] starts[k] < end_of(
        starts,
        k,
        terminals.len() as int,
    ) <= terminals.len()
    &&& forall|k: int|
        0 <= k < stack.len() ==> begins(#[trigger] stack[k], terminals[starts[k]]) && ends(
            stack[k],
            terminals[end_of(starts, k, terminals.len() as int) - 1],
        )
    &&& forall|j: int|
        0 <= j && j + 1 < terminals.len() && !starts.contains(j + 1) ==> may_follow(
            #[trigger] terminals[j],
            terminals[j + 1],
        )
}

/// As long as no step fails, the stack is neighbourly.
proof fn lemma_neighbourly(steps: Seq<Step>, n: int, entries: Entries)
    requires
        0 <= n <= steps.len(),
        stack_after(steps, n, entries) is Some,
    ensures
        neighbourly(
            stack_after(steps, n, entries)->0,
            starts_after(steps, n, entries),
            leaf_terminals(steps, n, entries),
        ),
    decreases n,
{
    if n > 0 {
        lemma_neighbourly(steps, n - 1, entries);
        let below = stack_after(steps, n - 1, entries)->0;
        let stack = stack_after(steps, n, entries)->0;
        let starts0 = starts_after(steps, n - 1, entries);
        let starts = starts_after(steps, n, entries);
        let lt0 = leaf_terminals(steps, n - 1, entries);
        let lt = leaf_terminals(steps, n, entries);
        assert(shift(below, steps[n - 1], entries) == Some(stack));
        match steps[n - 1] {
            Step::Leaf { terminal, token } => {
                let t = leaf_terminal(terminal, token@, entries)->0;
                assert(stack == below.push(Symbol::Terminal(t)));
                assert(lt == lt0.push(t));
                assert(starts == starts0.push(lt0.len() as int));
                assert forall|k: int| 0 <= k < starts.len() implies 0 <= #[trigger] starts[k] < end_of(
                    starts,
                    k,
                    lt.len() as int,
                ) <= lt.len() by {
                    if k < starts0.len() {
                        assert(starts[k] == starts0[k]);
                        assert(end_of(starts, k, lt.len() as int) == end_of(starts0, k, lt0.len() as int));
                    }
                }
                assert forall|k: int| 0 <= k < stack.len() implies begins(
                    #[trigger] stack[k],
                    lt[starts[k]],
                ) && ends(stack[k], lt[end_of(starts, k, lt.len() as int) - 1]) by {
                    if k < below.len() {
                        assert(stack[k] == below[k]);
                        assert(starts[k] == starts0[k]);
                        assert(end_of(starts, k, lt.len() as int) == end_of(starts0, k, lt0.len() as int));
                    }
                }
                assert forall|j: int|
                    0 <= j && j + 1 < lt.len() && !starts.contains(j + 1) implies may_follow(
                    #[trigger] lt[j],
                    lt[j + 1],
                ) by {
                    if j + 1 == lt0.len() {
                        assert(starts[starts0.len() as int] == j + 1);
                    } else {
                        if starts0.contains(j + 1) {
                            let k = choose|k: int| 0 <= k < starts0.len() && starts0[k] == j + 1;
                            assert(starts[k] == j + 1);
                        }
                        assert(lt[j] == lt0[j] && lt[j + 1] == lt0[j + 1]);
                    }
                }
            },
            Step::Node { production } => {
                let body = production.spec_body();
                let m = below.len() - body.len();
                let head = Symbol::Nonterminal(production.spec_head());
                assert(below.skip(m) == body);
                assert(stack == below.take(m).push(head));
                assert(lt == lt0);
                assert(starts == starts0.take(m + 1));
                let count = lt.len() as int;
                assert forall|t: Terminal| true implies (begins(body[0], t) ==> begins(head, t)) && (ends(
                    body[body.len() - 1],
                    t,
                ) ==> ends(head, t)) by {
                    lemma_edges(production, t);
                }
                lemma_edges(production, Terminal::Num);
                assert(below[m] == below.skip(m)[0]);
                assert(below[below.len() - 1] == below.skip(m)[body.len() - 1]);
                assert forall|k: int| 0 <= k < starts.len() implies 0 <= #[trigger] starts[k] < end_of(
                    starts,
                    k,
                    count,
                ) <= count by {
                    assert(starts[k] == starts0[k]);
                    if k < m {
                        assert(end_of(starts, k, count) == end_of(starts0, k, count));
                    } else {
                        lemma_rising(starts0, count, m, starts0.len() - 1);
                    }
                }
                assert forall|k: int| 0 <= k < stack.len() implies begins(
                    #[trigger] stack[k],
                    lt[starts[k]],
                ) && ends(stack[k], lt[end_of(starts, k, count) - 1]) by {
                    assert(starts[k] == starts0[k]);
                    if k < m {
                        assert(stack[k] == below[k]);
                        assert(end_of(starts, k, count) == end_of(starts0, k, count));
                    } else {
                        assert(begins(below[m], lt[starts0[m]]));
                        assert(ends(below[below.len() - 1], lt[end_of(starts0, below.len() - 1, count) - 1]));
                    }
                }
                assert forall|j: int|
                    0 <= j && j + 1 < lt.len() && !starts.contains(j + 1) implies may_follow(
                    #[trigger] lt[j],
                    lt[j + 1],
                ) by {
                    if starts0.contains(j + 1) {
                        let k = choose|k: int| 0 <= k < starts0.len() && starts0[k] == j + 1;
                        if k <= m {
                            assert(starts[k] == j + 1);
                        } else {
                            // the boundary between two symbols of the body
                            assert(end_of(starts0, k - 1, count) == j + 1);
                            assert(ends(below[k - 1], lt[j]));
                            assert(begins(below[k], lt[j + 1]));
                            assert(below[k - 1] == below.skip(m)[k - 1 - m]);
                            assert(below[k] == below.skip(m)[k - m]);
                            assert(ends(body[k - 1 - m], lt[j]) && begins(body[k - 1 - m + 1], lt[j + 1]));
                        }
                    }
                }
            },
        }
    }
}

/// The symbols of a stack start one behind the other.
proof fn lemma_rising(starts: Seq<int>, count: int, a: int, b: int)
    requires
        0 <= a <= b < starts.len(),
        forall|k: int| 0 <= k < starts.len() ==> 0 <= #[trigger] starts[k] < end_of(starts, k, count)
            <= count,
    ensures
        starts[a] < end_of(starts, b, count),
    decreases b - a,
{
    if a < b {
        lemma_rising(starts, count, a + 1, b);
        assert(starts[a] < end_of(starts, a, count));
    } else {
        assert(starts[a] < end_of(starts, a, count));
    }
}

/// Each leaf of steps that do not fail has the terminal that accepted it.
proof fn lemma_terminals_accept(steps: Seq<Step>, n: int, entries: Entries, j: int)
    requires
        0 <= n <= steps.len(),
        stack_after(steps, n, entries) is Some,
        0 <= j < leaves(steps, n).len(),
    ensures
        leaf_terminals(steps, n, entries).len() == leaves(steps, n).len(),
        leaf_terminals(steps, n, entries)[j].accepts(leaves(steps, n)[j], entries),
    decreases n,
{
    lemma_terminals_count(steps, n, entries);
    if n > 0 {
        let below = stack_after(steps, n - 1, entries)->0;
        assert(shift(below, steps[n - 1], entries) is Some);
        lemma_terminals_count(steps, n - 1, entries);
        if j < leaves(steps, n - 1).len() {
            lemma_terminals_accept(steps, n - 1, entries, j);
        }
    }
}

/// Steps that do not fail have as many terminals of leaves as leaves.
proof fn lemma_terminals_count(steps: Seq<Step>, n: int, entries: Entries)
    requires
        0 <= n <= steps.len(),
        stack_after(steps, n, entries) is Some,
    ensures
        leaf_terminals(steps, n, entries).len() == leaves(steps, n).len(),
    decreases n,
{
    if n > 0 {
        let below = stack_after(steps, n - 1, entries)->0;
        assert(shift(below, steps[n - 1], entries) is Some);
        lemma_terminals_count(steps, n - 1, entries);
    }
}

/// In a derivation, every leaf but the first has a terminal that may follow
/// the terminal of the leaf before it.
pub proof fn lemma_neighbours(steps: Seq<Step>, entries: Entries, j: int)
    requires
        derives(steps, entries),
        0 <= j,
        j + 1 < leaves(steps, steps.len() as int).len(),
    ensures
        leaf_terminals(steps, steps.len() as int, entries).len() == leaves(steps, steps.len() as int).len(),
        leaf_terminals(steps, steps.len() as int, entries)[j].accepts(
            leaves(steps, steps.len() as int)[j],
            entries,
        ),
        leaf_terminals(steps, steps.len() as int, entries)[j + 1].accepts(
            leaves(steps, steps.len() as int)[j + 1],
            entries,
        ),
        may_follow(
            leaf_terminals(steps, steps.len() as int, entries)[j],
            leaf_terminals(steps, steps.len() as int, entries)[j + 1],
        ),
{
    let n = steps.len() as int;
    lemma_neighbourly(steps, n, entries);
    lemma_terminals_accept(steps, n, entries, j);
    lemma_terminals_accept(steps, n, entries, j + 1);
    let starts = starts_after(steps, n, entries);
    assert(starts.len() == 1);
    assert(starts[0] == 0);
    if starts.contains(j + 1) {
        let k = choose|k: int| 0 <= k < starts.len() && starts[k] == j + 1;
        assert(k == 0);
    }
}

/// A number without sign behind a value has no value: where a token that
/// only terminals at the end of a value accept is followed by a token that
/// only the terminal of numbers without sign accepts, parsing owes a syntax
/// error.
pub proof fn lemma_number_behind_value_is_refused(
    list: Seq<Seq<char>>,
    entries: Entries,
    r: Result<Vec<Instruction>, SyntaxError>,
    j: int,
)
    requires
        parsed(list, entries, r),
        0 <= j,
        j + 1 < list.len(),
        forall|t: Terminal| #[trigger] t.accepts(list[j], entries) ==> ends_value(t),
        forall|t: Terminal| #[trigger] t.accepts(list[j + 1], entries) ==> t == Terminal::Num,
    ensures
        r is Err,
{
    if let Ok(result) = r {
        assert(reduces(list, entries, result@));
        let steps = choose|steps: Seq<Step>|
            #![trigger derives(steps, entries)]
            {
                &&& derives(steps, entries)
                &&& leaves(steps, steps.len() as int) == list
                &&& program(steps, steps.len() as int, entries) == result@
            };
        lemma_neighbours(steps, entries, j);
        let a = leaf_terminals(steps, steps.len() as int, entries)[j];
        let b = leaf_terminals(steps, steps.len() as int, entries)[j + 1];
        assert(a.accepts(list[j], entries));
        assert(b.accepts(list[j + 1], entries));
        lemma_number_follows_no_value(a);
    }
}

/// A word that is a number and no spelling of a unit, such as `nan`, `inf`
/// or `infinity`, makes the text a syntax error where it stands behind a
/// number.
pub proof fn lemma_number_behind_number_is_refused(
    list: Seq<Seq<char>>,
    entries: Entries,
    r: Result<Vec<Instruction>, SyntaxError>,
    j: int,
)
    requires
        parsed(list, entries, r),
        0 <= j,
        j + 1 < list.len(),
        is_numeric(list[j]),
        !has_key(entries, list[j]),
        is_numeric(list[j + 1]),
        sign_of(list[j + 1]) == Sign::Unsigned,
        !has_key(entries, list[j + 1]),
    ensures
        r is Err,
{
    assert forall|t: Terminal| #[trigger] t.accepts(list[j], entries) implies ends_value(t) by {
        lemma_numeric_terminal(t, list[j], entries);
    }
    assert forall|t: Terminal| #[trigger] t.accepts(list[j + 1], entries) implies t == Terminal::Num by {
        lemma_numeric_terminal(t, list[j + 1], entries);
    }
    lemma_number_behind_value_is_refused(list, entries, r, j);
}

} // verus!
