//! Derivations: what the parser hands back, and the check that it is a
//! derivation of the tokens by the grammar.
//!
//! A derivation is written in postfix order: the steps of each child of a
//! node, from left to right, and then the node itself. It is read with a
//! stack of symbols. A leaf puts the terminal that took its token on the
//! stack, if that terminal accepts the token; a node takes the symbols of
//! its production's body off the stack and puts the production's head there. The steps are a derivation of the
//! tokens of their leaves if no step fails and the start symbol alone is
//! left at the end.

use crate::grammar::{terminal_named, Nonterminal, Production, Symbol, Terminal};
use crate::registry::{Entries, Registry};
use crate::text::texts;
use vstd::prelude::*;

verus! {

/// One step of a derivation.
#[derive(Debug, Clone)]
pub enum Step {
    /// A token, with the terminal that took it, if the name under which it
    /// was taken is that of a terminal.
    Leaf { terminal: Option<Terminal>, token: String },
    /// The use of a production on what the steps before it have derived.
    Node { production: Production },
}

/// A derivation in postfix order.
#[derive(Debug, Clone)]
pub struct Derivation {
    pub steps: Vec<Step>,
}

/// The steps of a list of derivations, one derivation after the other.
pub open spec fn flatten(list: Seq<Derivation>) -> Seq<Step>
    decreases list.len(),
{
    if list.len() == 0 {
        Seq::empty()
    } else {
        flatten(list.drop_last()) + list.last().steps@
    }
}

/// The terminal that a leaf stands for: the one that took the token, if it
/// accepts the token.
pub open spec fn leaf_terminal(terminal: Option<Terminal>, token: Seq<char>, entries: Entries) -> Option<
    Terminal,
> {
    match terminal {
        Some(t) => if t.accepts(token, entries) {
            Some(t)
        } else {
            None
        },
        None => None,
    }
}

/// Whether `stack` ends with the symbols of `body`.
pub open spec fn ends_with(stack: Seq<Symbol>, body: Seq<Symbol>) -> bool {
    stack.len() >= body.len() && stack.skip(stack.len() - body.len()) == body
}

/// The stack after one more step, `None` where the step fails.
pub open spec fn shift(stack: Seq<Symbol>, step: Step, entries: Entries) -> Option<Seq<Symbol>> {
    match step {
        Step::Leaf { terminal, token } => match leaf_terminal(terminal, token@, entries) {
            Some(t) => Some(stack.push(Symbol::Terminal(t))),
            None => None,
        },
        Step::Node { production } => {
            let body = production.spec_body();
            if ends_with(stack, body) {
                Some(
                    stack.take(stack.len() - body.len()).push(
                        Symbol::Nonterminal(production.spec_head()),
                    ),
                )
            } else {
                None
            }
        },
    }
}

/// The stack after the first `n` steps, `None` where one of them fails.
pub open spec fn stack_after(steps: Seq<Step>, n: int, entries: Entries) -> Option<Seq<Symbol>>
    decreases n,
{
    if n <= 0 {
        Some(Seq::empty())
    } else {
        match stack_after(steps, n - 1, entries) {
            Some(stack) => shift(stack, steps[n - 1], entries),
            None => None,
        }
    }
}

/// Whether the steps are a derivation of their leaves from the start symbol.
pub open spec fn derives(steps: Seq<Step>, entries: Entries) -> bool {
    stack_after(steps, steps.len() as int, entries) == Some(
        seq![Symbol::Nonterminal(Nonterminal::Equation)],
    )
}

/// The tokens of the leaves among the first `n` steps, in order.
pub open spec fn leaves(steps: Seq<Step>, n: int) -> Seq<Seq<char>>
    decreases n,
{
    if n <= 0 {
        Seq::empty()
    } else {
        match steps[n - 1] {
            Step::Leaf { terminal, token } => leaves(steps, n - 1).push(token@),
            Step::Node { production } => leaves(steps, n - 1),
        }
    }
}

/// Whether the tokens are a sentence of the expression language: whether
/// they have a derivation.
pub open spec fn sentence(list: Seq<Seq<char>>, entries: Entries) -> bool {
    exists|steps: Seq<Step>|
        #![trigger derives(steps, entries)]
        derives(steps, entries) && leaves(steps, steps.len() as int) == list
}

impl Derivation {
    /// The derivation of a token that was scanned as `symbol`: one leaf.
    pub fn leaf(symbol: &str, token: &str) -> (r: Derivation)
        ensures
            r.steps@.len() == 1,
            r.steps@[0] matches Step::Leaf { terminal: t, token: s } && t == terminal_named(symbol@)
                && s@ == token@,
    {
        let mut steps: Vec<Step> = Vec::new();
        steps.push(Step::Leaf { terminal: Terminal::named(symbol), token: String::from_str(token) });
        Derivation { steps }
    }

    /// The derivation that uses `production` on what `children` derive.
    pub fn node(production: Production, children: Vec<Derivation>) -> (r: Derivation)
        ensures
            r.steps@ == flatten(children@).push(Step::Node { production }),
    {
        let mut children = children;
        let ghost all = children@;
        let mut steps: Vec<Step> = Vec::new();
        steps.push(Step::Node { production });
        while children.len() > 0
            invariant
                flatten(children@) + steps@ == flatten(all).push(Step::Node { production }),
            decreases children@.len(),
        {
            let ghost before = children@;
            let ghost tail = steps@;
            if let Some(child) = children.pop() {
                let mut front = child.steps;
                front.append(&mut steps);
                steps = front;
                assert(flatten(before) == flatten(before.drop_last()) + before.last().steps@);
                assert(flatten(children@) + steps@ =~= flatten(before) + tail);
            }
        }
        assert(flatten(children@) + steps@ =~= steps@);
        Derivation { steps }
    }

    /// Whether the steps are a derivation from the start symbol.
    pub fn check(&self, registry: &Registry) -> (r: bool)
        ensures
            r == derives(self.steps@, registry@),
    {
        let mut stack: Vec<Symbol> = Vec::new();
        let mut n: usize = 0;
        while n < self.steps.len()
            invariant
                n <= self.steps@.len(),
                stack_after(self.steps@, n as int, registry@) == Some(stack@),
            decreases self.steps@.len() - n,
        {
            match &self.steps[n] {
                Step::Leaf { terminal, token } => {
                    match *terminal {
                        Some(t) => {
                            if !t.matches(token.as_str(), registry) {
                                proof {
                                    lemma_failed_step(self.steps@, n as int, registry@);
                                }
                                return false;
                            }
                            stack.push(Symbol::Terminal(t));
                        },
                        None => {
                            proof {
                                lemma_failed_step(self.steps@, n as int, registry@);
                            }
                            return false;
                        },
                    }
                },
                Step::Node { production } => {
                    let body = production.body();
                    if !top_is(&stack, &body) {
                        proof {
                            lemma_failed_step(self.steps@, n as int, registry@);
                        }
                        return false;
                    }
                    let keep = stack.len() - body.len();
                    stack.truncate(keep);
                    stack.push(Symbol::Nonterminal(production.head()));
                },
            }
            n += 1;
        }
        assert(stack_after(self.steps@, self.steps@.len() as int, registry@) == Some(stack@));
        let r = stack.len() == 1 && stack[0] == Symbol::Nonterminal(Nonterminal::Equation);
        proof {
            if r {
                assert(stack@ =~= seq![Symbol::Nonterminal(Nonterminal::Equation)]);
            }
        }
        r
    }

    /// The tokens of the leaves, in order.
    pub fn tokens(&self) -> (r: Vec<String>)
        ensures
            texts(r@) == leaves(self.steps@, self.steps@.len() as int),
    {
        let mut out: Vec<String> = Vec::new();
        let mut n: usize = 0;
        assert(texts(out@) =~= leaves(self.steps@, 0));
        while n < self.steps.len()
            invariant
                n <= self.steps@.len(),
                texts(out@) == leaves(self.steps@, n as int),
            decreases self.steps@.len() - n,
        {
            let ghost before = out@;
            match &self.steps[n] {
                Step::Leaf { terminal, token } => {
                    out.push(token.clone());
                    assert(texts(out@) =~= texts(before).push(token@));
                },
                Step::Node { production } => {},
            }
            n += 1;
        }
        out
    }
}

/// Whether the top of `stack` is `body`.
fn top_is(stack: &Vec<Symbol>, body: &Vec<Symbol>) -> (r: bool)
    ensures
        r == ends_with(stack@, body@),
{
    if stack.len() < body.len() {
        return false;
    }
    let base = stack.len() - body.len();
    let count = body.len();
    let mut i: usize = 0;
    while i < count
        invariant
            i <= count == body@.len(),
            base + count == stack@.len() <= usize::MAX,
            forall|j: int| 0 <= j < i ==> stack@[base + j] == #[trigger] body@[j],
        decreases count - i,
    {
        if stack[base + i] != body[i] {
            assert(stack@.skip(base as int)[i as int] != body@[i as int]);
            return false;
        }
        i += 1;
    }
    assert(stack@.skip(base as int) =~= body@);
    true
}

/// Once a step has failed, the steps are no derivation.
pub proof fn lemma_failed_step(steps: Seq<Step>, n: int, entries: Entries)
    requires
        0 <= n < steps.len(),
        stack_after(steps, n + 1, entries) is None,
    ensures
        !derives(steps, entries),
{
    lemma_failure_stays(steps, n + 1, steps.len() as int, entries);
}

/// A failure among the first `n` steps is a failure among the first `m`.
proof fn lemma_failure_stays(steps: Seq<Step>, n: int, m: int, entries: Entries)
    requires
        0 <= n <= m,
        stack_after(steps, n, entries) is None,
    ensures
        stack_after(steps, m, entries) is None,
    decreases m - n,
{
    if n < m {
        lemma_failure_stays(steps, n, m - 1, entries);
    }
}

} // verus!
