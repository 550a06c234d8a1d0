//! The reduction of a derivation: a program for the quantity algebra.
//!
//! The program is in postfix order and runs on a stack of quantities. Each
//! step of the derivation gives at most one instruction: a leaf that stands
//! for a value pushes that value, a production that stands for an operation
//! applies it to the values on top of the stack, and the productions that
//! only group or pass a value on give nothing.

use crate::derivation::{derives, ends_with, leaf_terminal, shift, stack_after, Derivation, Step};
use crate::grammar::{Production, Symbol, Terminal};
use crate::number::is_numeric;
use crate::registry::{has_key, unit_of, Entries, Registry};
use crate::unit::UnitRef;
use vstd::prelude::*;

verus! {

/// One instruction of the quantity algebra. An instruction that needs its
/// operands to be of one dimension, or without dimension, ends the run in a
/// dimension error where they are not.
#[derive(Debug, Clone, PartialEq, Eq)]
pub enum Instruction {
    /// Push the dimensionless number that the literal stands for.
    Number(String),
    /// Push the base of the natural logarithm.
    E,
    /// Push the ratio of a circle's circumference to its diameter.
    Pi,
    /// Push one of the unit.
    Unit(UnitRef),
    /// Take a unit expression and a number; push the number in the units and
    /// with the dimension of the unit expression.
    Measure,
    /// Take a value; push its negation.
    Neg,
    /// Take two values of one dimension; push the sum, the right one brought
    /// into the units of the left one.
    Add,
    /// As `Add`, with the difference.
    Sub,
    /// Take two values; push the product, the right one brought into the
    /// units of the left one. The dimensions add.
    Mul,
    /// As `Mul`, with the quotient. The dimensions subtract.
    Div,
    /// Take two values of one dimension; push the remainder of the left one
    /// by the right one, brought into the units of the left one.
    Rem,
    /// Take an exponent without dimension and a base; push the power. The
    /// dimension of the base is scaled by the exponent.
    Pow,
    /// Take a value `x` without dimension; push the gamma function of
    /// `x + 1`.
    Factorial,
    /// Take a value without dimension; push its square root.
    Sqrt,
    /// Take a value without dimension; push its logarithm to base ten.
    Log,
    /// Take a value without dimension; push its natural logarithm.
    Ln,
    /// Take a unit expression and a value; push the value in the units of
    /// the unit expression. The dimensions need not agree.
    Convert,
}

/// The instruction of a production, if it stands for an operation.
pub open spec fn operation(p: Production) -> Option<Instruction> {
    match p {
        Production::EquationConvert => Some(Instruction::Convert),
        Production::ExprAdd | Production::ExprSigned => Some(Instruction::Add),
        Production::ExprSub => Some(Instruction::Sub),
        Production::StermMul | Production::TermMul | Production::TermGroup
        | Production::UnitsJuxtapose | Production::UnitsMul => Some(Instruction::Mul),
        Production::StermDiv | Production::TermDiv | Production::UnitsDiv => Some(Instruction::Div),
        Production::StermRem | Production::TermRem => Some(Instruction::Rem),
        Production::SmeasureUnits | Production::FactorMeasure => Some(Instruction::Measure),
        Production::FactorNeg => Some(Instruction::Neg),
        Production::PowerPow | Production::UpowerPow => Some(Instruction::Pow),
        Production::UfactFactorial => Some(Instruction::Factorial),
        Production::GroupSqrt => Some(Instruction::Sqrt),
        Production::GroupLog => Some(Instruction::Log),
        Production::GroupLn => Some(Instruction::Ln),
        _ => None,
    }
}

/// The instruction of a token, if the terminal that took it stands for a
/// value.
pub open spec fn value(terminal: Terminal, token: String, entries: Entries) -> Option<Instruction> {
    match terminal {
        Terminal::Num | Terminal::PosNum | Terminal::NegNum => Some(Instruction::Number(token)),
        Terminal::E => Some(Instruction::E),
        Terminal::Pi => Some(Instruction::Pi),
        Terminal::Unit => match unit_of(entries, token@) {
            Some(unit) => Some(Instruction::Unit(unit)),
            None => None,
        },
        _ => None,
    }
}

/// The instruction that a step gives, if it gives one.
pub open spec fn instruction(step: Step, entries: Entries) -> Option<Instruction> {
    match step {
        Step::Leaf { terminal, token } => match terminal {
            Some(terminal) => value(terminal, token, entries),
            None => None,
        },
        Step::Node { production } => operation(production),
    }
}

/// The instructions that the first `n` steps give, in order.
pub open spec fn program(steps: Seq<Step>, n: int, entries: Entries) -> Seq<Instruction>
    decreases n,
{
    if n <= 0 {
        Seq::empty()
    } else {
        match instruction(steps[n - 1], entries) {
            Some(i) => program(steps, n - 1, entries).push(i),
            None => program(steps, n - 1, entries),
        }
    }
}

/// The instruction of a production.
pub fn operation_of(p: Production) -> (r: Option<Instruction>)
    ensures
        r == operation(p),
{
    match p {
        Production::EquationConvert => Some(Instruction::Convert),
        Production::ExprAdd | Production::ExprSigned => Some(Instruction::Add),
        Production::ExprSub => Some(Instruction::Sub),
        Production::StermMul | Production::TermMul | Production::TermGroup
        | Production::UnitsJuxtapose | Production::UnitsMul => Some(Instruction::Mul),
        Production::StermDiv | Production::TermDiv | Production::UnitsDiv => Some(Instruction::Div),
        Production::StermRem | Production::TermRem => Some(Instruction::Rem),
        Production::SmeasureUnits | Production::FactorMeasure => Some(Instruction::Measure),
        Production::FactorNeg => Some(Instruction::Neg),
        Production::PowerPow | Production::UpowerPow => Some(Instruction::Pow),
        Production::UfactFactorial => Some(Instruction::Factorial),
        Production::GroupSqrt => Some(Instruction::Sqrt),
        Production::GroupLog => Some(Instruction::Log),
        Production::GroupLn => Some(Instruction::Ln),
        _ => None,
    }
}

/// The instruction of a token that `terminal` took.
pub fn value_of(terminal: Terminal, token: &String, registry: &Registry) -> (r: Option<Instruction>)
    ensures
        r == value(terminal, *token, registry@),
{
    match terminal {
        Terminal::Num | Terminal::PosNum | Terminal::NegNum => Some(
            Instruction::Number(token.clone()),
        ),
        Terminal::E => Some(Instruction::E),
        Terminal::Pi => Some(Instruction::Pi),
        Terminal::Unit => match registry.lookup(token.as_str()) {
            Some(unit) => Some(Instruction::Unit(unit)),
            None => None,
        },
        _ => None,
    }
}

/// The program that a derivation reduces to.
pub fn reduce(derivation: &Derivation, registry: &Registry) -> (r: Vec<Instruction>)
    ensures
        r@ == program(derivation.steps@, derivation.steps@.len() as int, registry@),
{
    let mut out: Vec<Instruction> = Vec::new();
    let mut n: usize = 0;
    while n < derivation.steps.len()
        invariant
            n <= derivation.steps@.len(),
            out@ == program(derivation.steps@, n as int, registry@),
        decreases derivation.steps@.len() - n,
    {
        let next = match &derivation.steps[n] {
            Step::Leaf { terminal, token } => match *terminal {
                Some(terminal) => value_of(terminal, token, registry),
                None => None,
            },
            Step::Node { production } => operation_of(*production),
        };
        if let Some(i) = next {
            out.push(i);
        }
        n += 1;
    }
    out
}

/// The number of values that an instruction takes from the stack. Every
/// instruction puts one value there.
pub open spec fn takes(i: Instruction) -> int {
    match i {
        Instruction::Number(_) | Instruction::E | Instruction::Pi | Instruction::Unit(_) => 0,
        Instruction::Neg | Instruction::Factorial | Instruction::Sqrt | Instruction::Log
        | Instruction::Ln => 1,
        _ => 2,
    }
}

/// The height of the stack after the first `n` instructions, `None` where
/// one of them finds fewer values than it takes.
pub open spec fn height(list: Seq<Instruction>, n: int) -> Option<int>
    decreases n,
{
    if n <= 0 {
        Some(0int)
    } else {
        match height(list, n - 1) {
            Some(h) => if h >= takes(list[n - 1]) {
                Some(h - takes(list[n - 1]) + 1)
            } else {
                None
            },
            None => None,
        }
    }
}

/// Whether the program runs: no instruction finds too few values, and one
/// value is left at the end.
pub open spec fn runs(list: Seq<Instruction>) -> bool {
    height(list, list.len() as int) == Some(1int)
}

/// Whether a symbol stands for a value: the nonterminals do, and the
/// terminals of literals, constants and units.
pub open spec fn worth(s: Symbol) -> int {
    match s {
        Symbol::Nonterminal(_) => 1,
        Symbol::Terminal(t) => match t {
            Terminal::Num | Terminal::PosNum | Terminal::NegNum | Terminal::E | Terminal::Pi
            | Terminal::Unit => 1,
            _ => 0,
        },
    }
}

/// The number of values that the first `n` symbols stand for.
pub open spec fn values(symbols: Seq<Symbol>, n: int) -> int
    decreases n,
{
    if n <= 0 {
        0
    } else {
        values(symbols, n - 1) + worth(symbols[n - 1])
    }
}

/// The body of a production stands for as many values as its operation
/// takes, and for one value where the production has no operation.
proof fn lemma_operands(p: Production)
    ensures
        values(p.spec_body(), p.spec_body().len() as int) == match operation(p) {
            Some(i) => takes(i),
            None => 1int,
        },
{
    reveal_with_fuel(values, 5);
}

/// No symbols stand for fewer than no values.
proof fn lemma_values_natural(symbols: Seq<Symbol>, n: int)
    ensures
        values(symbols, n) >= 0,
    decreases n,
{
    if n > 0 {
        lemma_values_natural(symbols, n - 1);
    }
}

/// The values of a stack are those below a mark and those above it.
proof fn lemma_values_split(stack: Seq<Symbol>, mark: int, n: int)
    requires
        0 <= mark <= n <= stack.len(),
    ensures
        values(stack, n) == values(stack, mark) + values(stack.skip(mark), n - mark),
    decreases n,
{
    if mark < n {
        lemma_values_split(stack, mark, n - 1);
        assert(stack.skip(mark)[n - 1 - mark] == stack[n - 1]);
    }
}

/// The values of a stack do not depend on what lies above them.
proof fn lemma_values_below(a: Seq<Symbol>, b: Seq<Symbol>, n: int)
    requires
        0 <= n <= a.len(),
        n <= b.len(),
        forall|i: int| 0 <= i < n ==> a[i] == b[i],
    ensures
        values(a, n) == values(b, n),
    decreases n,
{
    if n > 0 {
        lemma_values_below(a, b, n - 1);
    }
}

/// The height after some instructions does not depend on those that follow.
proof fn lemma_height_below(a: Seq<Instruction>, b: Seq<Instruction>, n: int)
    requires
        0 <= n <= a.len(),
        n <= b.len(),
        forall|i: int| 0 <= i < n ==> a[i] == b[i],
    ensures
        height(a, n) == height(b, n),
    decreases n,
{
    if n > 0 {
        lemma_height_below(a, b, n - 1);
    }
}

/// As long as no step fails, the program of the steps runs without fault,
/// and its stack is as high as the values that the symbols stand for.
proof fn lemma_heights(steps: Seq<Step>, n: int, entries: Entries)
    requires
        0 <= n <= steps.len(),
        stack_after(steps, n, entries) is Some,
    ensures
        height(program(steps, n, entries), program(steps, n, entries).len() as int) == Some(
            values(stack_after(steps, n, entries)->0, stack_after(steps, n, entries)->0.len() as int),
        ),
    decreases n,
{
    if n > 0 {
        lemma_heights(steps, n - 1, entries);
        let below = stack_after(steps, n - 1, entries)->0;
        let stack = stack_after(steps, n, entries)->0;
        let before = program(steps, n - 1, entries);
        let after = program(steps, n, entries);
        let h = values(below, below.len() as int);
        assert(shift(below, steps[n - 1], entries) == Some(stack));
        assert(height(before, before.len() as int) == Some(h));
        lemma_values_natural(below, below.len() as int);
        // what the step adds to the stack of symbols, in values
        let gain = values(stack, stack.len() as int) - h;
        match steps[n - 1] {
            Step::Leaf { terminal, token } => {
                let t = leaf_terminal(terminal, token@, entries)->0;
                assert(terminal == Some(t));
                assert(t.accepts(token@, entries));
                assert(stack == below.push(Symbol::Terminal(t)));
                lemma_values_below(stack, below, below.len() as int);
                assert(gain == worth(Symbol::Terminal(t)));
                assert(instruction(steps[n - 1], entries) == value(t, token, entries));
                assert(value(t, token, entries) is Some <==> gain == 1);
                assert(value(t, token, entries) matches Some(i) ==> takes(i) == 0);
            },
            Step::Node { production } => {
                let body = production.spec_body();
                let mark = below.len() - body.len();
                assert(ends_with(below, body));
                assert(stack == below.take(mark).push(Symbol::Nonterminal(production.spec_head())));
                lemma_operands(production);
                lemma_values_split(below, mark, below.len() as int);
                lemma_values_below(stack, below, mark);
                lemma_values_natural(below, mark);
                assert(values(stack, stack.len() as int) == values(below, mark) + 1);
                assert(h == values(below, mark) + values(body, body.len() as int));
                assert(instruction(steps[n - 1], entries) == operation(production));
            },
        }
        match instruction(steps[n - 1], entries) {
            Some(i) => {
                assert(after == before.push(i));
                lemma_height_below(after, before, before.len() as int);
                assert(after[after.len() - 1] == i);
                assert(h >= takes(i));
                assert(gain == 1 - takes(i));
            },
            None => {
                assert(after == before);
                assert(gain == 0);
            },
        }
    }
}

/// The reduction of a derivation is a program that runs: every instruction
/// finds the values that it takes, and one value is left at the end.
pub proof fn lemma_reduction_runs(steps: Seq<Step>, entries: Entries)
    requires
        derives(steps, entries),
    ensures
        runs(program(steps, steps.len() as int, entries)),
{
    lemma_heights(steps, steps.len() as int, entries);
    reveal_with_fuel(values, 2);
}

/// Every literal that the program of steps that do not fail pushes is a
/// numeric literal, and every unit that it pushes is the unit of a spelling
/// of the registry: no instruction of such a program is left unresolved.
pub proof fn lemma_values_resolve(steps: Seq<Step>, n: int, entries: Entries, k: int)
    requires
        0 <= n <= steps.len(),
        stack_after(steps, n, entries) is Some,
        0 <= k < program(steps, n, entries).len(),
    ensures
        program(steps, n, entries)[k] matches Instruction::Number(text) ==> is_numeric(text@),
        program(steps, n, entries)[k] matches Instruction::Unit(unit) ==> exists|token: Seq<char>|
            has_key(entries, token) && #[trigger] unit_of(entries, token) == Some(unit),
    decreases n,
{
    if n > 0 {
        let below = stack_after(steps, n - 1, entries)->0;
        assert(shift(below, steps[n - 1], entries) is Some);
        if k < program(steps, n - 1, entries).len() {
            lemma_values_resolve(steps, n - 1, entries, k);
        } else {
            match steps[n - 1] {
                Step::Leaf { terminal, token } => {
                    let t = leaf_terminal(terminal, token@, entries)->0;
                    assert(t.accepts(token@, entries));
                    assert(program(steps, n, entries)[k] == value(t, token, entries)->0);
                    if t == Terminal::Unit {
                        assert(has_key(entries, token@));
                        assert(unit_of(entries, token@) == Some(unit_of(entries, token@)->0));
                    }
                },
                Step::Node { production } => {},
            }
        }
    }
}

} // verus!
