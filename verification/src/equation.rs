//! Evaluation: from the text of an expression to the program that computes
//! its value.
//!
//! The text is cut into tokens, the tokens are parsed, and the derivation
//! that the parser hands back is checked against the grammar and against the
//! tokens before it is reduced. A text whose tokens are a sentence of the
//! language gives a program, and the program is the reduction of a
//! derivation of the tokens; any other text is a syntax error, and a text
//! with a token that no terminal accepts is one before it reaches the
//! parser, at that token.

use crate::derivation::{
    derives, leaf_terminal, leaves, sentence, shift, stack_after, Derivation, Step,
};
use crate::earley::{parse_tree, speaks};
use crate::grammar::Terminal;
use crate::parser::parser;
use crate::number::is_numeric;
use crate::program::{lemma_reduction_runs, program, reduce, runs, Instruction};
use crate::registry::{has_key, is_catalog, Entries, Registry};
use crate::scanner::is_letter;
use crate::semanter::semanter;
use crate::text::{same_texts, texts};
use crate::tokenizer::{tokenize, tokens};
use earlgrey::{EarleyForest, EarleyParser};
use vstd::prelude::*;

verus! {

/// The text is no sentence of the expression language. The position is that
/// of the first token that no terminal accepts, where there is such a token.
#[derive(Debug, Clone, PartialEq, Eq)]
pub struct SyntaxError {
    pub position: Option<usize>,
}

/// Whether some terminal accepts the token.
pub open spec fn recognized(token: Seq<char>, entries: Entries) -> bool {
    exists|t: Terminal| t.accepts(token, entries)
}

/// The position, at or after `from`, of the first token that no terminal
/// accepts.
pub open spec fn first_unrecognized(list: Seq<Seq<char>>, entries: Entries, from: int) -> Option<int>
    decreases list.len() - from,
{
    if from < 0 || from >= list.len() {
        None
    } else if !recognized(list[from], entries) {
        Some(from)
    } else {
        first_unrecognized(list, entries, from + 1)
    }
}

/// Whether `result` is the reduction of a derivation of `list`.
pub open spec fn reduces(list: Seq<Seq<char>>, entries: Entries, result: Seq<Instruction>) -> bool {
    exists|steps: Seq<Step>|
        #![trigger derives(steps, entries)]
        {
            &&& derives(steps, entries)
            &&& leaves(steps, steps.len() as int) == list
            &&& program(steps, steps.len() as int, entries) == result
        }
}

/// Whether some terminal accepts the token.
pub fn is_recognized(token: &str, registry: &Registry) -> (r: bool)
    ensures
        r == recognized(token@, registry@),
{
    let mut i: usize = 0;
    while i < Terminal::COUNT
        invariant
            i <= Terminal::COUNT,
            forall|t: Terminal| t.spec_index() < i ==> !#[trigger] t.accepts(token@, registry@),
        decreases Terminal::COUNT - i,
    {
        if let Some(t) = Terminal::from_index(i) {
            if t.matches(token, registry) {
                return true;
            }
            assert forall|u: Terminal| u.spec_index() < i + 1 implies !#[trigger] u.accepts(
                token@,
                registry@,
            ) by {
                if u.spec_index() == i {
                    assert(u == t);
                }
            }
        }
        i += 1;
    }
    assert forall|t: Terminal| !#[trigger] t.accepts(token@, registry@) by {
        assert(t.spec_index() < Terminal::COUNT);
    }
    false
}

/// The position of the first token that no terminal accepts.
pub fn unrecognized(list: &Vec<String>, registry: &Registry) -> (r: Option<usize>)
    ensures
        match r {
            Some(i) => first_unrecognized(texts(list@), registry@, 0) == Some(i as int),
            None => first_unrecognized(texts(list@), registry@, 0) is None,
        },
{
    let mut i: usize = 0;
    while i < list.len()
        invariant
            i <= list@.len(),
            first_unrecognized(texts(list@), registry@, 0) == first_unrecognized(
                texts(list@),
                registry@,
                i as int,
            ),
        decreases list@.len() - i,
    {
        assert(texts(list@)[i as int] == list@[i as int]@);
        if !is_recognized(list[i].as_str(), registry) {
            return Some(i);
        }
        i += 1;
    }
    None
}

/// What is made of what the parser hands back for `list`: the reduction of
/// the derivation, if it is a derivation of `list`, and a syntax error
/// otherwise.
pub fn conclude(list: &Vec<String>, outcome: Result<Derivation, String>, registry: &Registry) -> (r:
    Result<Vec<Instruction>, SyntaxError>)
    ensures
        match outcome {
            Ok(d) => if derives(d.steps@, registry@) && leaves(d.steps@, d.steps@.len() as int)
                == texts(list@) {
                r matches Ok(result) && result@ == program(
                    d.steps@,
                    d.steps@.len() as int,
                    registry@,
                )
            } else {
                r == Err::<Vec<Instruction>, SyntaxError>(SyntaxError { position: None })
            },
            Err(_) => r == Err::<Vec<Instruction>, SyntaxError>(SyntaxError { position: None }),
        },
{
    match outcome {
        Ok(derivation) => {
            if derivation.check(registry) && same_texts(&derivation.tokens(), list) {
                Ok(reduce(&derivation, registry))
            } else {
                Err(SyntaxError { position: None })
            }
        },
        Err(_) => Err(SyntaxError { position: None }),
    }
}

/// What parsing owes for the tokens `list` over the spellings `entries`. A
/// list with a token that no terminal accepts is a syntax error at the first
/// such token. Any other list gives the reduction of a derivation of the
/// list, which is a program that runs, if the list is a sentence of the
/// language, and a syntax error without position if it is not.
pub open spec fn parsed(
    list: Seq<Seq<char>>,
    entries: Entries,
    r: Result<Vec<Instruction>, SyntaxError>,
) -> bool {
    match first_unrecognized(list, entries, 0) {
        Some(i) => r == Err::<Vec<Instruction>, SyntaxError>(SyntaxError { position: Some(i as usize) }),
        None => match r {
            Ok(result) => reduces(list, entries, result@) && runs(result@),
            Err(e) => e.position is None && !sentence(list, entries),
        },
    }
}

/// What evaluation owes for `input` over the spellings `entries`: what
/// parsing owes for the tokens of `input`.
pub open spec fn evaluated(
    input: Seq<char>,
    entries: Entries,
    r: Result<Vec<Instruction>, SyntaxError>,
) -> bool {
    parsed(tokens(input, entries), entries, r)
}

/// Where some token is accepted by no terminal, there is a first such token.
pub proof fn lemma_first_unrecognized(list: Seq<Seq<char>>, entries: Entries, from: int, i: int)
    requires
        0 <= from <= i < list.len(),
        !recognized(list[i], entries),
    ensures
        first_unrecognized(list, entries, from) matches Some(k) && from <= k <= i,
    decreases i - from,
{
    if recognized(list[from], entries) {
        lemma_first_unrecognized(list, entries, from + 1, i);
    }
}

/// Every leaf of steps that do not fail is a token that its terminal accepts.
pub proof fn lemma_leaves_recognized(steps: Seq<Step>, n: int, entries: Entries, i: int)
    requires
        0 <= n <= steps.len(),
        stack_after(steps, n, entries) is Some,
        0 <= i < leaves(steps, n).len(),
    ensures
        recognized(leaves(steps, n)[i], entries),
    decreases n,
{
    if n > 0 {
        match steps[n - 1] {
            Step::Leaf { terminal, token } => {
                if i < leaves(steps, n - 1).len() {
                    lemma_leaves_recognized(steps, n - 1, entries, i);
                } else {
                    let below = stack_after(steps, n - 1, entries)->0;
                    assert(shift(below, steps[n - 1], entries) is Some);
                    let t = leaf_terminal(terminal, token@, entries)->0;
                    assert(t.accepts(token@, entries));
                }
            },
            Step::Node { production } => {
                lemma_leaves_recognized(steps, n - 1, entries, i);
            },
        }
    }
}

/// No program is the reduction of a derivation of tokens of which one is
/// accepted by no terminal.
pub proof fn lemma_derived_tokens_are_recognized(
    list: Seq<Seq<char>>,
    entries: Entries,
    result: Seq<Instruction>,
    i: int,
)
    requires
        reduces(list, entries, result),
        0 <= i < list.len(),
    ensures
        recognized(list[i], entries),
{
    let steps = choose|steps: Seq<Step>|
        #![trigger derives(steps, entries)]
        {
            &&& derives(steps, entries)
            &&& leaves(steps, steps.len() as int) == list
            &&& program(steps, steps.len() as int, entries) == result
        };
    lemma_leaves_recognized(steps, steps.len() as int, entries, i);
}

/// A text with a token that no terminal accepts has no value: what
/// evaluation owes for it is a syntax error, at that token or before it.
pub proof fn lemma_unknown_token_is_refused(
    input: Seq<char>,
    entries: Entries,
    r: Result<Vec<Instruction>, SyntaxError>,
    i: int,
)
    requires
        evaluated(input, entries, r),
        0 <= i < tokens(input, entries).len(),
        !recognized(tokens(input, entries)[i], entries),
    ensures
        r matches Err(e) && e.position matches Some(k) && k <= i,
{
    lemma_first_unrecognized(tokens(input, entries), entries, 0, i);
}

/// A token of letters or of more than one character that is no number, no
/// spelling of a unit, not the arrow and none of the words of the language
/// is accepted by no terminal.
pub proof fn lemma_unregistered_word(token: Seq<char>, entries: Entries)
    requires
        token.len() > 1 || (token.len() == 1 && is_letter(token[0])),
        !is_numeric(token),
        !has_key(entries, token),
        token != "->"@,
        token != "ln"@,
        token != "log"@,
        token != "sqrt"@,
        token != "e"@,
        token != "pi"@,
    ensures
        !recognized(token, entries),
{
    reveal_strlit("+");
    reveal_strlit("-");
    reveal_strlit("*");
    reveal_strlit("/");
    reveal_strlit("%");
    reveal_strlit("^");
    reveal_strlit("!");
    reveal_strlit("(");
    reveal_strlit(")");
    assert forall|t: Terminal| !t.accepts(token, entries) by {
        if t.accepts(token, entries) {
            assert(t.spec_name().len() == 1 && t.spec_name()[0] == token[0]);
        }
    }
}

/// A calculator: a unit registry with the parser and the forest reader of
/// the expression language over it. A calculator can be made in no other
/// way than with these.
pub struct Calculator {
    registry: Registry,
    parser: EarleyParser,
    forest: EarleyForest<'static, Derivation>,
}

impl Calculator {
    /// The parser and the forest reader of a calculator are those of the
    /// expression language over the calculator's registry.
    #[verifier::type_invariant]
    spec fn inv(self) -> bool {
        speaks(self.parser, self.forest, self.registry@)
    }

    /// The spellings of the units that the calculator knows.
    pub closed spec fn entries(&self) -> Entries {
        self.registry@
    }

    /// Whether the parser and the forest reader of the calculator are those
    /// of the expression language over the calculator's registry. Every
    /// calculator is built so.
    pub closed spec fn speaks_language(&self) -> bool {
        speaks(self.parser, self.forest, self.registry@)
    }

    /// The calculator over the whole unit catalog.
    pub fn new() -> (r: Calculator)
        ensures
            is_catalog(r.entries()),
            r.speaks_language(),
    {
        Calculator::with_registry(Registry::standard())
    }

    /// The calculator over the units of `registry`.
    pub fn with_registry(registry: Registry) -> (r: Calculator)
        ensures
            r.entries() == registry@,
            r.speaks_language(),
    {
        let parser = parser(&registry);
        let forest = semanter();
        Calculator { registry, parser, forest }
    }

    /// The registry of the calculator.
    pub fn registry(&self) -> (r: &Registry)
        ensures
            r@ == self.entries(),
    {
        &self.registry
    }

    /// Parses the tokens `list` and reduces their derivation to the program
    /// that computes the value of the expression.
    pub fn parse(&self, list: &Vec<String>) -> (r: Result<Vec<Instruction>, SyntaxError>)
        ensures
            parsed(texts(list@), self.entries(), r),
    {
        if let Some(i) = unrecognized(list, &self.registry) {
            return Err(SyntaxError { position: Some(i) });
        }
        proof {
            use_type_invariant(self);
            assert(speaks(self.parser, self.forest, self.registry@));
        }
        let outcome = parse_tree(&self.parser, &self.forest, list);
        let ghost steps = match &outcome {
            Ok(d) => d.steps@,
            Err(_) => Seq::empty(),
        };
        let r = conclude(list, outcome, &self.registry);
        proof {
            if outcome is Ok {
                assert(derives(steps, self.entries()));
                assert(r is Ok);
                lemma_reduction_runs(steps, self.entries());
            } else {
                assert(!sentence(texts(list@), self.entries()));
            }
        }
        r
    }

    /// Evaluates `input` as far as the program that computes its value.
    pub fn evaluate(&self, input: &str) -> (r: Result<Vec<Instruction>, SyntaxError>)
        ensures
            evaluated(input@, self.entries(), r),
    {
        let list = tokenize(input, &self.registry);
        self.parse(&list)
    }
}

/// Evaluates `input` over the whole unit catalog.
pub fn evaluate(input: &str) -> (r: Result<Vec<Instruction>, SyntaxError>)
    ensures
        exists|entries: Entries| is_catalog(entries) && #[trigger] evaluated(input@, entries, r),
{
    let calculator = Calculator::new();
    calculator.evaluate(input)
}

} // verus!
