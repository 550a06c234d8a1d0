//! The parser of the expression language: the grammar handed to the Earley
//! parser.
//!
//! The parser is built by registering every symbol of the grammar and then
//! every production. The builder refuses a symbol that it has, a rule that it
//! has and a rule over symbols that it lacks; that it refuses nothing of this
//! grammar is proved here, so that building the parser cannot fail.

use crate::earley::{
    builder_faulty, builder_finish, builder_new, builder_nonterm, builder_rule, builder_rules,
    builder_symbols, builder_terminal, builder_tests, names, names_in, parser_new, parser_rules,
    parser_start, parser_tests, takes_rule, RuleNames, Test,
};
use crate::grammar::{lemma_symbol_names_differ, Nonterminal, Production, Symbol, Terminal};
use crate::registry::{Entries, Registry};
use earlgrey::{EarleyParser, GrammarBuilder};
use vstd::prelude::*;

verus! {

/// A production as the builder holds it: by the names of its symbols.
pub open spec fn rule_names(p: Production) -> RuleNames {
    (p.spec_head().spec_name(), p.spec_body().map_values(|s: Symbol| s.spec_name()))
}

/// The position of a symbol in the order in which the symbols are
/// registered: the nonterminals first, then the terminals.
pub open spec fn symbol_rank(s: Symbol) -> int {
    match s {
        Symbol::Nonterminal(n) => n.spec_index(),
        Symbol::Terminal(t) => Nonterminal::COUNT + t.spec_index(),
    }
}

/// The builder has registered exactly the first `count` symbols, each as
/// what it is.
pub open spec fn registered(b: GrammarBuilder, count: int) -> bool {
    &&& forall|name: Seq<char>| #[trigger]
        builder_symbols(b).dom().contains(name) <==> exists|s: Symbol|
            symbol_rank(s) < count && #[trigger] s.spec_name() == name
    &&& forall|s: Symbol|
        symbol_rank(s) < count ==> builder_symbols(b)[#[trigger] s.spec_name()] == (s is Terminal)
}

/// The tests are those of the first `count` terminals, and of no other name:
/// each asks `Terminal::matches` of its terminal about `entries`.
pub open spec fn tests_terminals(tests: Map<Seq<char>, Test>, count: int, entries: Entries) -> bool {
    &&& forall|t: Terminal|
        t.spec_index() < count ==> tests.dom().contains(#[trigger] t.spec_name()) && tests[t.spec_name()]
            == (t, entries)
    &&& forall|name: Seq<char>| #[trigger]
        tests.dom().contains(name) ==> exists|t: Terminal| t.spec_index() < count && t.spec_name() == name
}

/// A production in whose body a terminal stands, with the place where it
/// stands there.
pub open spec fn user_of(t: Terminal) -> (Production, int) {
    match t {
        Terminal::Num => (Production::LiteralNum, 0),
        Terminal::PosNum => (Production::SignedPos, 0),
        Terminal::NegNum => (Production::SignedNeg, 0),
        Terminal::Plus => (Production::ExprAdd, 1),
        Terminal::Minus => (Production::ExprSub, 1),
        Terminal::Times => (Production::TermMul, 1),
        Terminal::Slash => (Production::TermDiv, 1),
        Terminal::Percent => (Production::TermRem, 1),
        Terminal::Caret => (Production::PowerPow, 1),
        Terminal::Bang => (Production::UfactFactorial, 1),
        Terminal::Open => (Production::GroupParen, 0),
        Terminal::Close => (Production::GroupParen, 2),
        Terminal::Arrow => (Production::EquationConvert, 1),
        Terminal::Ln => (Production::GroupLn, 0),
        Terminal::Log => (Production::GroupLog, 0),
        Terminal::Sqrt => (Production::GroupSqrt, 0),
        Terminal::E => (Production::GroupE, 0),
        Terminal::Pi => (Production::GroupPi, 0),
        Terminal::Unit => (Production::UpowerUnit, 0),
    }
}

/// Every terminal stands in the body of a production.
proof fn lemma_user_of(t: Terminal)
    ensures
        0 <= user_of(t).1 < user_of(t).0.spec_body().len(),
        user_of(t).0.spec_body()[user_of(t).1] == Symbol::Terminal(t),
{
}

/// The builder has taken exactly the first `count` productions.
pub open spec fn ruled(b: GrammarBuilder, count: int) -> bool {
    &&& builder_rules(b).len() == count
    &&& forall|p: Production|
        p.spec_index() < count ==> builder_rules(b)[#[trigger] p.spec_index()] == rule_names(p)
}

/// Productions of one head with the same body are one production.
proof fn lemma_productions_differ(p: Production, q: Production)
    requires
        p != q,
    ensures
        p.spec_head() != q.spec_head() || p.spec_body() != q.spec_body(),
{
    let a = p.spec_body();
    let b = q.spec_body();
    if p.spec_head() == q.spec_head() && a == b {
        assert(a.len() == b.len());
        assert(a[0] == b[0]);
        if a.len() > 1 {
            assert(a[1] == b[1]);
        }
        if a.len() > 2 {
            assert(a[2] == b[2]);
        }
    }
}

/// No two productions are held by the builder as the same rule.
pub proof fn lemma_rule_names_differ(p: Production, q: Production)
    requires
        p != q,
    ensures
        rule_names(p) != rule_names(q),
{
    lemma_productions_differ(p, q);
    if rule_names(p) == rule_names(q) {
        let a = p.spec_body();
        let b = q.spec_body();
        let an = a.map_values(|s: Symbol| s.spec_name());
        let bn = b.map_values(|s: Symbol| s.spec_name());
        assert(an == bn);
        assert(a.len() == an.len() && b.len() == bn.len());
        if p.spec_head() != q.spec_head() {
            lemma_symbol_names_differ(
                Symbol::Nonterminal(p.spec_head()),
                Symbol::Nonterminal(q.spec_head()),
            );
        }
        assert forall|i: int| 0 <= i < a.len() implies a[i] == b[i] by {
            assert(an[i] == a[i].spec_name());
            assert(bn[i] == b[i].spec_name());
            if a[i] != b[i] {
                lemma_symbol_names_differ(a[i], b[i]);
            }
        }
        assert(a =~= b);
    }
}

/// The names of the symbols of a production's body.
fn body_names(p: Production) -> (r: Vec<&'static str>)
    ensures
        names(r@) == rule_names(p).1,
{
    let body = p.body();
    let mut r: Vec<&'static str> = Vec::new();
    let mut i: usize = 0;
    while i < body.len()
        invariant
            i <= body@.len(),
            body@ == p.spec_body(),
            r@.len() == i,
            forall|j: int| 0 <= j < i ==> (#[trigger] r@[j])@ == body@[j].spec_name(),
        decreases body@.len() - i,
    {
        r.push(body[i].name());
        i += 1;
    }
    assert(names(r@) =~= rule_names(p).1);
    r
}

/// The builder with every symbol of the grammar registered.
fn with_symbols(registry: &Registry) -> (b: GrammarBuilder)
    ensures
        registered(b, Nonterminal::COUNT + Terminal::COUNT),
        tests_terminals(builder_tests(b), Terminal::COUNT as int, registry@),
        ruled(b, 0),
        !builder_faulty(b),
{
    let mut b = builder_new();
    let mut i: usize = 0;
    assert(registered(b, 0));
    while i < Nonterminal::COUNT
        invariant
            i <= Nonterminal::COUNT,
            registered(b, i as int),
            tests_terminals(builder_tests(b), 0, registry@),
            ruled(b, 0),
            !builder_faulty(b),
        decreases Nonterminal::COUNT - i,
    {
        if let Some(n) = Nonterminal::from_index(i) {
            let ghost before = b;
            proof {
                lemma_fresh(before, Symbol::Nonterminal(n), i as int);
            }
            b = builder_nonterm(b, n.name());
            proof {
                lemma_registered(before, b, Symbol::Nonterminal(n), i as int);
            }
        }
        i += 1;
    }
    let mut k: usize = 0;
    while k < Terminal::COUNT
        invariant
            k <= Terminal::COUNT,
            registered(b, Nonterminal::COUNT + k),
            tests_terminals(builder_tests(b), k as int, registry@),
            ruled(b, 0),
            !builder_faulty(b),
        decreases Terminal::COUNT - k,
    {
        if let Some(t) = Terminal::from_index(k) {
            let ghost before = b;
            proof {
                lemma_fresh(before, Symbol::Terminal(t), Nonterminal::COUNT + k);
            }
            b = builder_terminal(b, t.name(), t, registry.clone());
            proof {
                lemma_registered(before, b, Symbol::Terminal(t), Nonterminal::COUNT + k);
                lemma_tested(builder_tests(before), builder_tests(b), t, k as int, registry@);
            }
        }
        k += 1;
    }
    b
}

/// With the next terminal put under its name, one more terminal has its
/// test.
proof fn lemma_tested(
    before: Map<Seq<char>, Test>,
    after: Map<Seq<char>, Test>,
    t: Terminal,
    count: int,
    entries: Entries,
)
    requires
        tests_terminals(before, count, entries),
        t.spec_index() == count,
        after == before.insert(t.spec_name(), (t, entries)),
    ensures
        tests_terminals(after, count + 1, entries),
{
    assert forall|u: Terminal| u.spec_index() < count + 1 implies after.dom().contains(
        #[trigger] u.spec_name(),
    ) && after[u.spec_name()] == (u, entries) by {
        if u != t {
            lemma_symbol_names_differ(Symbol::Terminal(u), Symbol::Terminal(t));
            assert(u.spec_index() < count);
        }
    }
    assert forall|name: Seq<char>| #[trigger] after.dom().contains(name) implies exists|u: Terminal|
        u.spec_index() < count + 1 && u.spec_name() == name by {
        if name == t.spec_name() {
            assert(t.spec_index() < count + 1 && t.spec_name() == name);
        } else {
            assert(before.dom().contains(name));
            let u = choose|u: Terminal| u.spec_index() < count && u.spec_name() == name;
            assert(u.spec_index() < count + 1 && u.spec_name() == name);
        }
    }
}

/// The name of the next symbol to register is free.
proof fn lemma_fresh(b: GrammarBuilder, s: Symbol, count: int)
    requires
        registered(b, count),
        symbol_rank(s) == count,
    ensures
        !builder_symbols(b).dom().contains(s.spec_name()),
{
    if builder_symbols(b).dom().contains(s.spec_name()) {
        let other = choose|o: Symbol| symbol_rank(o) < count && #[trigger] o.spec_name() == s.spec_name();
        lemma_symbol_names_differ(other, s);
    }
}

/// With the next symbol put under its name, one more symbol is registered.
proof fn lemma_registered(before: GrammarBuilder, after: GrammarBuilder, s: Symbol, count: int)
    requires
        registered(before, count),
        symbol_rank(s) == count,
        builder_symbols(after) == builder_symbols(before).insert(s.spec_name(), s is Terminal),
    ensures
        registered(after, count + 1),
{
    assert forall|name: Seq<char>| #[trigger]
        builder_symbols(after).dom().contains(name) <==> exists|o: Symbol|
            symbol_rank(o) < count + 1 && #[trigger] o.spec_name() == name by {
        if builder_symbols(after).dom().contains(name) {
            if name == s.spec_name() {
                assert(symbol_rank(s) < count + 1 && s.spec_name() == name);
            } else {
                assert(builder_symbols(before).dom().contains(name));
                let o = choose|o: Symbol| symbol_rank(o) < count && #[trigger] o.spec_name() == name;
                assert(symbol_rank(o) < count + 1 && o.spec_name() == name);
            }
        }
        if exists|o: Symbol| symbol_rank(o) < count + 1 && #[trigger] o.spec_name() == name {
            let o = choose|o: Symbol| symbol_rank(o) < count + 1 && #[trigger] o.spec_name() == name;
            if symbol_rank(o) < count {
                assert(builder_symbols(before).dom().contains(name));
            } else {
                assert(o == s);
            }
        }
    }
    assert forall|o: Symbol| symbol_rank(o) < count + 1 implies builder_symbols(after)[#[trigger] o.spec_name()]
        == (o is Terminal) by {
        if o != s {
            lemma_symbol_names_differ(o, s);
            assert(symbol_rank(o) < count);
        }
    }
}

/// A builder with every symbol registered takes the next production.
proof fn lemma_takes(b: GrammarBuilder, p: Production, count: int)
    requires
        registered(b, Nonterminal::COUNT + Terminal::COUNT),
        ruled(b, count),
        p.spec_index() == count,
    ensures
        takes_rule(b, rule_names(p)),
{
    let rule = rule_names(p);
    let body = p.spec_body();
    assert forall|i: int| 0 <= i < rule.1.len() implies builder_symbols(b).dom().contains(
        #[trigger] rule.1[i],
    ) by {
        let s = body[i];
        assert(symbol_rank(s) < Nonterminal::COUNT + Terminal::COUNT && s.spec_name() == rule.1[i]);
    }
    let head = Symbol::Nonterminal(p.spec_head());
    assert(symbol_rank(head) < Nonterminal::COUNT + Terminal::COUNT && head.spec_name() == rule.0);
    assert(builder_symbols(b)[head.spec_name()] == (head is Terminal));
    if builder_rules(b).contains(rule) {
        let k = choose|k: int| 0 <= k < builder_rules(b).len() && builder_rules(b)[k] == rule;
        let q = Production::spec_at(k);
        assert(q.spec_index() == k);
        lemma_rule_names_differ(p, q);
    }
}

/// Whether `rules` are the productions of the grammar, in their order.
pub open spec fn is_grammar(rules: Seq<RuleNames>) -> bool {
    &&& rules.len() == Production::COUNT
    &&& forall|p: Production| rules[#[trigger] p.spec_index()] == rule_names(p)
}

/// Whether the tests are those of the grammar over `entries`: under the name
/// of every terminal, and under no other name, the test that asks
/// `Terminal::matches` of that terminal about `entries`.
pub open spec fn tests_grammar(tests: Map<Seq<char>, Test>, entries: Entries) -> bool {
    tests_terminals(tests, Terminal::COUNT as int, entries)
}

/// The parser of the expression language over the spellings of `registry`:
/// its rules are the productions of the grammar, its start symbol is
/// `equation`, and each terminal takes the tokens that `Terminal::matches`
/// accepts for it over `registry`.
pub fn parser(registry: &Registry) -> (r: EarleyParser)
    ensures
        is_grammar(parser_rules(r)),
        parser_start(r) == Nonterminal::Equation.spec_name(),
        tests_grammar(parser_tests(r), registry@),
{
    let mut b = with_symbols(registry);
    let mut i: usize = 0;
    while i < Production::COUNT
        invariant
            i <= Production::COUNT,
            registered(b, Nonterminal::COUNT + Terminal::COUNT),
            tests_terminals(builder_tests(b), Terminal::COUNT as int, registry@),
            ruled(b, i as int),
            !builder_faulty(b),
        decreases Production::COUNT - i,
    {
        if let Some(p) = Production::from_index(i) {
            let body = body_names(p);
            let ghost before = b;
            proof {
                lemma_takes(before, p, i as int);
            }
            b = builder_rule(b, p.head().name(), &body);
            proof {
                assert(builder_symbols(b) == builder_symbols(before));
                assert forall|q: Production| q.spec_index() < i + 1 implies builder_rules(b)[#[trigger] q.spec_index()]
                    == rule_names(q) by {
                    if q.spec_index() < i {
                        assert(builder_rules(before)[q.spec_index()] == rule_names(q));
                    } else {
                        assert(q == p);
                    }
                }
            }
        }
        i += 1;
    }
    let start = Symbol::Nonterminal(Nonterminal::Equation);
    proof {
        assert(symbol_rank(start) < Nonterminal::COUNT + Terminal::COUNT);
        assert(builder_symbols(b).dom().contains(start.spec_name()));
        assert(builder_symbols(b)[start.spec_name()] == (start is Terminal));
    }
    assert(is_grammar(builder_rules(b))) by {
        assert forall|p: Production| builder_rules(b)[#[trigger] p.spec_index()] == rule_names(p) by {
            assert(p.spec_index() < Production::COUNT);
        }
    }
    proof {
        let tests = builder_tests(b);
        let kept = tests.restrict(names_in(builder_rules(b)));
        assert forall|t: Terminal| names_in(builder_rules(b)).contains(#[trigger] t.spec_name()) by {
            lemma_user_of(t);
            let (p, at) = user_of(t);
            assert(p.spec_index() < Production::COUNT);
            assert(builder_rules(b)[p.spec_index()] == rule_names(p));
            assert(rule_names(p).1[at] == t.spec_name());
        }
        assert(tests_grammar(kept, registry@)) by {
            assert forall|t: Terminal| kept.dom().contains(#[trigger] t.spec_name()) && kept[t.spec_name()]
                == (t, registry@) by {
                assert(t.spec_index() < Terminal::COUNT);
            }
            assert forall|name: Seq<char>| #[trigger] kept.dom().contains(name) implies exists|
                t: Terminal,
            | t.spec_index() < Terminal::COUNT && t.spec_name() == name by {
                assert(tests.dom().contains(name));
            }
        }
    }
    match builder_finish(b, Nonterminal::Equation.name()) {
        Ok(grammar) => parser_new(grammar),
        Err(_) => vstd::pervasive::unreached(),
    }
}

} // verus!
