//! The Earley parser of the `earlgrey` crate, as the library uses it.
//!
//! Nothing in this file is proved: each contract says what the source of
//! `earlgrey` shows of one of its functions. A grammar builder is described
//! by the symbols it has registered, the rules it has taken and whether it
//! has met a fault; a grammar and a parser by their rules and start symbol;
//! a forest reader by the rules that it has a function for. A terminal is
//! registered with a test on tokens, and a forest reader is given a function
//! for each rule; both are closures made in this file, and each is described
//! by what it was made of: the test by the terminal and the spellings that
//! it asks `Terminal::matches` about, the function by the production that it
//! hands to `Derivation::node`.
//!
//! Of the parse itself two things are claimed, for the parser and the forest
//! reader of the expression language only: that it succeeds on the sentences
//! of the language and on no other tokens, and that what is read off a
//! successful parse is a derivation of the tokens. Which derivation it is,
//! where a sentence has more than one, is not claimed: the parser walks
//! hash sets, and their order is not the same in every run. The library
//! checks what the parser hands back all the same before it uses it.

use crate::grammar::{Nonterminal, Production, Terminal};
use crate::parser::{is_grammar, tests_grammar};
use crate::registry::{Entries, Registry};
use crate::semanter::reads_grammar;
use crate::text::texts;
use crate::derivation::{derives, leaves, sentence, Derivation};
use earlgrey::{EarleyForest, EarleyParser, Grammar, GrammarBuilder};
use vstd::prelude::*;

verus! {

/// `earlgrey::GrammarBuilder`, declared so that it can stand in signatures.
#[verifier::external_type_specification]
#[verifier::external_body]
pub struct ExGrammarBuilder(GrammarBuilder);

/// `earlgrey::Grammar`, declared so that it can stand in signatures.
#[verifier::external_type_specification]
#[verifier::external_body]
pub struct ExGrammar(Grammar);

/// `earlgrey::EarleyParser`, declared so that it can stand in signatures and
/// fields.
#[verifier::external_type_specification]
#[verifier::external_body]
pub struct ExEarleyParser(EarleyParser);

/// `earlgrey::EarleyForest`, declared so that it can stand in signatures and
/// fields.
#[verifier::external_type_specification]
#[verifier::external_body]
#[verifier::reject_recursive_types(ASTNode)]
pub struct ExEarleyForest<'a, ASTNode: Clone>(EarleyForest<'a, ASTNode>);

/// A rule as a builder holds it: the name of its head and the names of the
/// symbols of its body.
pub type RuleNames = (Seq<char>, Seq<Seq<char>>);

/// The symbols that a builder has registered, by name; the value says
/// whether the symbol is a terminal.
pub uninterp spec fn builder_symbols(b: GrammarBuilder) -> Map<Seq<char>, bool>;

/// The rules that a builder has taken, in the order in which they came.
pub uninterp spec fn builder_rules(b: GrammarBuilder) -> Seq<RuleNames>;

/// Whether a builder has met a fault: a symbol registered twice, a rule given
/// twice, a rule that names an unregistered symbol or has a terminal as head.
pub uninterp spec fn builder_faulty(b: GrammarBuilder) -> bool;

/// What the test of a terminal is made of: the terminal and the spellings of
/// the registry that `Terminal::matches` is asked about.
pub type Test = (Terminal, Entries);

/// The tests of the terminals that a builder has registered, by name.
pub uninterp spec fn builder_tests(b: GrammarBuilder) -> Map<Seq<char>, Test>;

/// The tests of the terminals that stand in the rules of a grammar, by name.
pub uninterp spec fn grammar_tests(g: Grammar) -> Map<Seq<char>, Test>;

/// The tests of the terminals that stand in the rules of the grammar of a
/// parser, by name.
pub uninterp spec fn parser_tests(p: EarleyParser) -> Map<Seq<char>, Test>;

/// The names that stand in the bodies of the rules.
pub open spec fn names_in(rules: Seq<RuleNames>) -> Set<Seq<char>> {
    Set::new(
        |name: Seq<char>|
            exists|r: int, i: int|
                0 <= r < rules.len() && 0 <= i < rules[r].1.len() && #[trigger] rules[r].1[i] == name,
    )
}

/// The rules of a grammar, in the order in which its builder took them.
pub uninterp spec fn grammar_rules(g: Grammar) -> Seq<RuleNames>;

/// The name of the start symbol of a grammar.
pub uninterp spec fn grammar_start(g: Grammar) -> Seq<char>;

/// The rules of the grammar of a parser.
pub uninterp spec fn parser_rules(p: EarleyParser) -> Seq<RuleNames>;

/// The name of the start symbol of the grammar of a parser.
pub uninterp spec fn parser_start(p: EarleyParser) -> Seq<char>;

/// The functions of a forest reader: under the name of a rule, the production
/// whose use the function writes into the derivation.
pub uninterp spec fn forest_actions(f: EarleyForest<'static, Derivation>) -> Map<Seq<char>, Production>;

/// Whether a builder takes the rule: every symbol of the body and the head
/// are registered, the head is no terminal, and the rule is new.
pub open spec fn takes_rule(b: GrammarBuilder, rule: RuleNames) -> bool {
    &&& forall|i: int| 0 <= i < rule.1.len() ==> builder_symbols(b).dom().contains(#[trigger] rule.1[i])
    &&& builder_symbols(b).dom().contains(rule.0)
    &&& !builder_symbols(b)[rule.0]
    &&& !builder_rules(b).contains(rule)
}

/// The names of a list of strings.
pub open spec fn names(list: Seq<&'static str>) -> Seq<Seq<char>> {
    list.map_values(|s: &'static str| s@)
}

/// Calls `GrammarBuilder::default`: a builder without symbols, rules or fault.
#[verifier::external_body]
pub(crate) fn builder_new() -> (b: GrammarBuilder)
    ensures
        builder_symbols(b).dom() == Set::<Seq<char>>::empty(),
        builder_tests(b).dom() == Set::<Seq<char>>::empty(),
        builder_rules(b).len() == 0,
        !builder_faulty(b),
{
    GrammarBuilder::default()
}

/// Calls `GrammarBuilder::nonterm`, which registers a nonterminal under a
/// name that is free, and marks the builder as faulty where the name is
/// taken.
#[verifier::external_body]
pub(crate) fn builder_nonterm(b: GrammarBuilder, name: &str) -> (r: GrammarBuilder)
    ensures
        builder_rules(r) == builder_rules(b),
        builder_tests(r) == builder_tests(b),
        builder_symbols(b).dom().contains(name@) ==> builder_symbols(r) == builder_symbols(b)
            && builder_faulty(r),
        !builder_symbols(b).dom().contains(name@) ==> builder_symbols(r) == builder_symbols(b).insert(
            name@,
            false,
        ) && builder_faulty(r) == builder_faulty(b),
{
    b.nonterm(name)
}

/// Calls `GrammarBuilder::terminal` with the test that asks
/// `Terminal::matches` of `terminal` about the spellings of `registry`. It
/// registers the terminal with that test under a name that is free, and
/// marks the builder as faulty where the name is taken.
#[verifier::external_body]
pub(crate) fn builder_terminal(
    b: GrammarBuilder,
    name: &str,
    terminal: Terminal,
    registry: Registry,
) -> (r: GrammarBuilder)
    ensures
        builder_rules(r) == builder_rules(b),
        builder_symbols(b).dom().contains(name@) ==> builder_symbols(r) == builder_symbols(b)
            && builder_tests(r) == builder_tests(b) && builder_faulty(r),
        !builder_symbols(b).dom().contains(name@) ==> builder_symbols(r) == builder_symbols(b).insert(
            name@,
            true,
        ) && builder_tests(r) == builder_tests(b).insert(name@, (terminal, registry@))
            && builder_faulty(r) == builder_faulty(b),
{
    b.terminal(name, move |token: &str| terminal.matches(token, &registry))
}

/// Calls `GrammarBuilder::rule`, which appends the rule where the builder
/// takes it, and marks the builder as faulty where it does not.
#[verifier::external_body]
pub(crate) fn builder_rule(b: GrammarBuilder, head: &str, body: &Vec<&'static str>) -> (r:
    GrammarBuilder)
    ensures
        builder_symbols(r) == builder_symbols(b),
        builder_tests(r) == builder_tests(b),
        takes_rule(b, (head@, names(body@))) ==> builder_rules(r) == builder_rules(b).push(
            (head@, names(body@)),
        ) && builder_faulty(r) == builder_faulty(b),
        !takes_rule(b, (head@, names(body@))) ==> builder_rules(r) == builder_rules(b)
            && builder_faulty(r),
{
    b.rule(head, body.as_slice())
}

/// Calls `GrammarBuilder::into_grammar`, which hands out the grammar of the
/// builder's rules where the builder has met no fault and `start` is a
/// registered nonterminal. The grammar keeps the symbols that stand in its
/// rules, each terminal with the test that it was registered with.
#[verifier::external_body]
pub(crate) fn builder_finish(b: GrammarBuilder, start: &str) -> (r: Result<Grammar, String>)
    ensures
        r is Ok <==> (!builder_faulty(b) && builder_symbols(b).dom().contains(start@)
            && !builder_symbols(b)[start@]),
        r matches Ok(g) ==> grammar_rules(g) == builder_rules(b) && grammar_start(g) == start@,
        r matches Ok(g) ==> grammar_tests(g) == builder_tests(b).restrict(names_in(builder_rules(b))),
{
    b.into_grammar(start)
}

/// Calls `EarleyParser::new`, which makes the parser of the grammar.
#[verifier::external_body]
pub(crate) fn parser_new(grammar: Grammar) -> (r: EarleyParser)
    ensures
        parser_rules(r) == grammar_rules(grammar),
        parser_start(r) == grammar_start(grammar),
        parser_tests(r) == grammar_tests(grammar),
{
    EarleyParser::new(grammar)
}

/// Calls `EarleyForest::new` with `Derivation::leaf` as the function that
/// lifts a scanned token. The new reader has no function for any rule.
#[verifier::external_body]
pub(crate) fn forest_new() -> (r: EarleyForest<'static, Derivation>)
    ensures
        forest_actions(r).dom() == Set::<Seq<char>>::empty(),
{
    EarleyForest::new(|symbol: &str, token: &str| Derivation::leaf(symbol, token))
}

/// Calls `EarleyForest::action`, which puts under the rule's name, in place
/// of what was there, the function that hands `production` and the
/// derivations of the children to `Derivation::node`.
#[verifier::external_body]
pub(crate) fn forest_action(
    forest: &mut EarleyForest<'static, Derivation>,
    rule: &str,
    production: Production,
)
    ensures
        forest_actions(*final(forest)) == forest_actions(*old(forest)).insert(rule@, production),
{
    forest.action(rule, move |children: Vec<Derivation>| Derivation::node(production, children))
}

/// Whether a parser and a forest reader are those of the expression
/// language over `entries`: the parser has the rules, the start symbol and
/// the tests of the grammar, and the reader has the function of every rule.
pub open spec fn speaks(
    parser: EarleyParser,
    forest: EarleyForest<'static, Derivation>,
    entries: Entries,
) -> bool {
    &&& is_grammar(parser_rules(parser))
    &&& parser_start(parser) == Nonterminal::Equation.spec_name()
    &&& tests_grammar(parser_tests(parser), entries)
    &&& reads_grammar(forest_actions(forest))
}

/// Calls `EarleyParser::parse` on the tokens and, where the parse succeeds,
/// `EarleyForest::eval` on what it gives (a value of a type that the crate
/// does not export, so that it cannot leave this function). It is for the
/// parser and the forest reader of the expression language only. The parse
/// succeeds if and only if the tokens are a sentence of the language, and
/// what is read off it is then a derivation of the tokens.
#[verifier::external_body]
pub(crate) fn parse_tree(
    parser: &EarleyParser,
    forest: &EarleyForest<'static, Derivation>,
    tokens: &Vec<String>,
) -> (r: Result<Derivation, String>)
    requires
        exists|entries: Entries| speaks(*parser, *forest, entries),
    ensures
        r is Ok <==> (exists|entries: Entries|
            speaks(*parser, *forest, entries) && sentence(texts(tokens@), entries)),
        r matches Ok(d) ==> (forall|entries: Entries|
            speaks(*parser, *forest, entries) ==> derives(d.steps@, entries) && leaves(
                d.steps@,
                d.steps@.len() as int,
            ) == texts(tokens@)),
{
    forest.eval(&parser.parse(tokens.iter())?)
}

} // verus!
