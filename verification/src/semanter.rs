//! The semantic side of the parser: under the name of every rule, the
//! function that writes the rule's use into the derivation.

use crate::derivation::Derivation;
use crate::earley::{forest_action, forest_actions, forest_new};
use crate::grammar::{lemma_names_plain, Production};
use crate::parser::{lemma_rule_names_differ, rule_names};
use earlgrey::EarleyForest;
use vstd::prelude::*;

verus! {

/// The name of a rule as far as the first `n` names of its body: the head,
/// an arrow and those names, with one blank between any two of them.
pub open spec fn text_of(head: Seq<char>, body: Seq<Seq<char>>, n: int) -> Seq<char>
    decreases n,
{
    if n <= 0 {
        head + seq![' ', '-', '>']
    } else {
        text_of(head, body, n - 1) + seq![' '] + body[n - 1]
    }
}

/// The name of a rule: its head, an arrow and the symbols of its body, with
/// one blank between any two of them.
pub open spec fn rule_text(p: Production) -> Seq<char> {
    text_of(rule_names(p).0, rule_names(p).1, rule_names(p).1.len() as int)
}

/// Whether the functions of a forest reader are those of the grammar: under
/// the name of every rule, and under no other name, the function that
/// writes the use of that rule.
pub open spec fn reads_grammar(actions: Map<Seq<char>, Production>) -> bool {
    &&& forall|p: Production|
        actions.dom().contains(#[trigger] rule_text(p)) && actions[rule_text(p)] == p
    &&& forall|name: Seq<char>| #[trigger]
        actions.dom().contains(name) ==> exists|p: Production| rule_text(p) == name
}

/// Whether `s` holds no blank.
pub open spec fn blank_free(s: Seq<char>) -> bool {
    forall|i: int| 0 <= i < s.len() ==> s[i] != ' '
}

/// A text is cut at its last blank in one way only.
proof fn lemma_cut(a: Seq<char>, x: Seq<char>, b: Seq<char>, y: Seq<char>)
    requires
        a + seq![' '] + x == b + seq![' '] + y,
        blank_free(x),
        blank_free(y),
    ensures
        a == b,
        x == y,
{
    let l = a + seq![' '] + x;
    let r = b + seq![' '] + y;
    assert(l.len() == a.len() + 1 + x.len());
    assert(r.len() == b.len() + 1 + y.len());
    if x.len() < y.len() {
        assert(l[a.len() as int] == ' ');
        assert(r[a.len() as int] == y[a.len() - b.len() - 1]);
    } else if y.len() < x.len() {
        assert(r[b.len() as int] == ' ');
        assert(l[b.len() as int] == x[b.len() - a.len() - 1]);
    }
    assert(a =~= b) by {
        assert forall|i: int| 0 <= i < a.len() implies a[i] == b[i] by {
            assert(l[i] == a[i]);
            assert(r[i] == b[i]);
        }
    }
    assert(x =~= y) by {
        assert forall|i: int| 0 <= i < x.len() implies x[i] == y[i] by {
            assert(l[a.len() + 1 + i] == x[i]);
            assert(r[b.len() + 1 + i] == y[i]);
        }
    }
}

/// Whether `s` can stand as a name in the body of a rule: it holds no blank
/// and is not the arrow.
pub open spec fn plain(s: Seq<char>) -> bool {
    blank_free(s) && s != seq!['-', '>']
}

/// Two names of rules that agree as far as some names of their bodies agree
/// in their heads, in the number of those names and in the names.
proof fn lemma_texts(h1: Seq<char>, b1: Seq<Seq<char>>, k: int, h2: Seq<char>, b2: Seq<Seq<char>>, m: int)
    requires
        0 <= k <= b1.len(),
        0 <= m <= b2.len(),
        forall|i: int| 0 <= i < b1.len() ==> plain(#[trigger] b1[i]),
        forall|i: int| 0 <= i < b2.len() ==> plain(#[trigger] b2[i]),
        text_of(h1, b1, k) == text_of(h2, b2, m),
    ensures
        k == m,
        h1 == h2,
        forall|i: int| 0 <= i < k ==> b1[i] == b2[i],
    decreases k + m,
{
    let arrow = seq!['-', '>'];
    assert(blank_free(arrow));
    assert(text_of(h1, b1, 0) =~= h1 + seq![' '] + arrow);
    assert(text_of(h2, b2, 0) =~= h2 + seq![' '] + arrow);
    if k > 0 {
        assert(plain(b1[k - 1]));
        if m > 0 {
            assert(plain(b2[m - 1]));
            lemma_cut(text_of(h1, b1, k - 1), b1[k - 1], text_of(h2, b2, m - 1), b2[m - 1]);
            lemma_texts(h1, b1, k - 1, h2, b2, m - 1);
        } else {
            lemma_cut(text_of(h1, b1, k - 1), b1[k - 1], h2, arrow);
        }
    } else if m > 0 {
        assert(plain(b2[m - 1]));
        lemma_cut(h1, arrow, text_of(h2, b2, m - 1), b2[m - 1]);
    } else {
        lemma_cut(h1, arrow, h2, arrow);
    }
}

/// The names in the body of a rule of the grammar are plain.
proof fn lemma_body_plain(p: Production)
    ensures
        forall|i: int| 0 <= i < rule_names(p).1.len() ==> plain(#[trigger] rule_names(p).1[i]),
{
    assert forall|i: int| 0 <= i < rule_names(p).1.len() implies plain(#[trigger] rule_names(p).1[i]) by {
        lemma_names_plain(p.spec_body()[i]);
    }
}

/// No two rules of the grammar have one name.
pub proof fn lemma_rule_texts_differ(p: Production, q: Production)
    requires
        p != q,
    ensures
        rule_text(p) != rule_text(q),
{
    if rule_text(p) == rule_text(q) {
        lemma_body_plain(p);
        lemma_body_plain(q);
        lemma_texts(
            rule_names(p).0,
            rule_names(p).1,
            rule_names(p).1.len() as int,
            rule_names(q).0,
            rule_names(q).1,
            rule_names(q).1.len() as int,
        );
        assert(rule_names(p).1 =~= rule_names(q).1);
        lemma_rule_names_differ(p, q);
    }
}

/// The name of a rule, as the parser names it when it looks for what to do
/// with a use of the rule.
pub fn rule_name(p: Production) -> (r: String)
    ensures
        r@ == rule_text(p),
{
    proof {
        reveal_strlit(" ->");
        reveal_strlit(" ");
        assert(" ->"@ =~= seq![' ', '-', '>']);
        assert(" "@ =~= seq![' ']);
    }
    let body = p.body();
    let mut r = String::from_str(p.head().name()).concat(" ->");
    let mut i: usize = 0;
    while i < body.len()
        invariant
            i <= body@.len(),
            body@ == p.spec_body(),
            " "@ == seq![' '],
            r@ == text_of(rule_names(p).0, rule_names(p).1, i as int),
        decreases body@.len() - i,
    {
        r = r.concat(" ").concat(body[i].name());
        assert(rule_names(p).1[i as int] == body@[i as int].spec_name());
        assert(r@ =~= text_of(rule_names(p).0, rule_names(p).1, i + 1));
        i += 1;
    }
    r
}

/// The functions of the first `count` productions, and no others.
pub open spec fn reads_rules(actions: Map<Seq<char>, Production>, count: int) -> bool {
    &&& forall|p: Production|
        p.spec_index() < count ==> actions.dom().contains(#[trigger] rule_text(p))
            && actions[rule_text(p)] == p
    &&& forall|name: Seq<char>| #[trigger]
        actions.dom().contains(name) ==> exists|p: Production|
            p.spec_index() < count && rule_text(p) == name
}

/// The forest reader of the grammar: it has, under the name of every rule
/// and under no other name, the function that writes the use of that rule
/// into the derivation.
pub fn semanter() -> (r: EarleyForest<'static, Derivation>)
    ensures
        reads_grammar(forest_actions(r)),
{
    let mut forest = forest_new();
    let mut i: usize = 0;
    while i < Production::COUNT
        invariant
            i <= Production::COUNT,
            reads_rules(forest_actions(forest), i as int),
        decreases Production::COUNT - i,
    {
        if let Some(p) = Production::from_index(i) {
            let name = rule_name(p);
            let ghost before = forest_actions(forest);
            forest_action(&mut forest, name.as_str(), p);
            proof {
                let after = forest_actions(forest);
                assert forall|q: Production| q.spec_index() < i + 1 implies after.dom().contains(
                    #[trigger] rule_text(q),
                ) && after[rule_text(q)] == q by {
                    if q != p {
                        lemma_rule_texts_differ(q, p);
                        assert(q.spec_index() < i);
                    }
                }
                assert forall|name: Seq<char>| #[trigger] after.dom().contains(name) implies exists|
                    q: Production,
                | q.spec_index() < i + 1 && rule_text(q) == name by {
                    if name == rule_text(p) {
                        assert(p.spec_index() < i + 1 && rule_text(p) == name);
                    } else {
                        assert(before.dom().contains(name));
                        let q = choose|q: Production| q.spec_index() < i && rule_text(q) == name;
                        assert(q.spec_index() < i + 1 && rule_text(q) == name);
                    }
                }
            }
        }
        i += 1;
    }
    proof {
        assert forall|p: Production|
            forest_actions(forest).dom().contains(#[trigger] rule_text(p)) && forest_actions(
                forest,
            )[rule_text(p)] == p by {
            assert(p.spec_index() < Production::COUNT);
        }
    }
    forest
}

} // verus!
